//! The game: board, score and a bounded undo history, with moves that spawn
//! a random tile after every change.

use vstd::prelude::*;
use rand::seq::IndexedRandom;
use crate::board::{
    board_fits, board_ok, grid_fits, grid_view, lemma_slid_ok, move_gain, same_grid, slid, slide, Grid,
    MovementDirection, SIZE,
};
use crate::line::{is_cell, is_pow2};

verus! {

/// How many earlier states undo can go back to.
pub const UNDO_LIMIT: usize = 10;

/// Relies on `rand::random_ratio`: with the thread-local generator, true with
/// chance `numerator / denominator`; certain at the two ends; panics when
/// `denominator` is 0 or below `numerator`.
pub assume_specification[ rand::random_ratio ](numerator: u32, denominator: u32) -> (r: bool)
    requires
        0 < denominator,
        numerator <= denominator,
    ensures
        numerator == 0 ==> !r,
        numerator == denominator ==> r,
;

/// Relies on rand's `IndexedRandom::choose` with the thread-local generator:
/// `None` for an empty slice, otherwise one of its elements.
#[verifier::external_body]
fn choose_cell(cells: &Vec<(usize, usize)>) -> (r: Option<(usize, usize)>)
    ensures
        cells@.len() == 0 <==> r is None,
        r matches Some(p) ==> cells@.contains(p),
{
    cells.choose(&mut rand::rng()).copied()
}

/// A saved (board, score) pair.
pub type Snapshot = (Seq<Seq<u32>>, u32);

/// What a game is: its board, its score and its undo history, oldest first.
pub struct GameView {
    pub board: Seq<Seq<u32>>,
    pub score: u32,
    pub history: Seq<Snapshot>,
}

impl GameView {
    /// Board and every snapshot hold only empty cells and tiles, and the
    /// history is within its bound.
    pub open spec fn wf(self) -> bool {
        &&& board_ok(self.board)
        &&& self.history.len() <= UNDO_LIMIT
        &&& forall|i: int| 0 <= i < self.history.len() ==> board_ok(#[trigger] self.history[i].0)
    }

    /// A move in direction `d` stays within `u32`: no tile too large to
    /// double, and room in the score for the points it makes.
    pub open spec fn fits(self, d: MovementDirection) -> bool {
        board_fits(self.board) && self.score + move_gain(self.board, d) <= u32::MAX
    }

    /// No cell is empty and no two horizontal or vertical neighbours are equal.
    pub open spec fn is_terminal(self) -> bool {
        forall|r: int, c: int|
            0 <= r < SIZE && 0 <= c < SIZE ==> {
                &&& #[trigger] self.board[r][c] != 0
                &&& c + 1 < SIZE ==> self.board[r][c] != self.board[r][c + 1]
                &&& r + 1 < SIZE ==> self.board[r][c] != self.board[r + 1][c]
            }
    }
}

/// `h` with `s` added as the newest snapshot, the oldest dropped when that
/// passes the bound.
pub open spec fn push_bounded(h: Seq<Snapshot>, s: Snapshot) -> Seq<Snapshot> {
    let pushed = h.push(s);
    if pushed.len() > UNDO_LIMIT {
        pushed.drop_first()
    } else {
        pushed
    }
}

/// `after` is `before` with one empty cell given a tile of 2 or 4, or
/// `before` itself when no cell is empty.
pub open spec fn spawned(before: Seq<Seq<u32>>, after: Seq<Seq<u32>>) -> bool {
    if exists|r: int, c: int| 0 <= r < SIZE && 0 <= c < SIZE && #[trigger] before[r][c] == 0 {
        exists|r: int, c: int|
            0 <= r < SIZE && 0 <= c < SIZE && #[trigger] before[r][c] == 0 && (after[r][c] == 2
                || after[r][c] == 4) && after == before.update(r, before[r].update(c, after[r][c]))
    } else {
        after == before
    }
}

/// `post` is what a move in direction `d` makes of `pre`, and `changed` is
/// what it returns: a move that changes the board (or merges) saves the old
/// board and score, adds the points of its merges and spawns one tile; any
/// other move leaves the game as it was.
pub open spec fn move_step(pre: GameView, d: MovementDirection, changed: bool, post: GameView) -> bool {
    let b = slid(pre.board, d);
    let g = move_gain(pre.board, d);
    &&& changed == (b != pre.board || g > 0)
    &&& changed ==> {
        &&& post.score == pre.score + g
        &&& post.history == push_bounded(pre.history, (pre.board, pre.score))
        &&& spawned(b, post.board)
    }
    &&& !changed ==> post == pre
}

/// `post` is what undo makes of `pre`, and `undone` is what it returns: the
/// newest snapshot, if there is one, becomes the board and score again.
pub open spec fn undo_step(pre: GameView, undone: bool, post: GameView) -> bool {
    &&& undone == (pre.history.len() > 0)
    &&& undone ==> {
        &&& post.board == pre.history.last().0
        &&& post.score == pre.history.last().1
        &&& post.history == pre.history.drop_last()
    }
    &&& !undone ==> post == pre
}

/// The board with every cell empty.
pub open spec fn empty_board() -> Seq<Seq<u32>> {
    Seq::new(SIZE as nat, |r: int| Seq::new(SIZE as nat, |c: int| 0u32))
}

/// `g` is a game as it starts: two tiles spawned on an empty board, no score
/// and no history.
pub open spec fn fresh(g: GameView) -> bool {
    &&& g.wf()
    &&& g.score == 0
    &&& g.history == Seq::<Snapshot>::empty()
    &&& exists|mid: Seq<Seq<u32>>| spawned(empty_board(), mid) && #[trigger] spawned(mid, g.board)
}

/// A game of 2048: the board, the score and the states that undo returns to.
pub struct Game2048 {
    board: Grid,
    score: u32,
    previous_states: Vec<(Grid, u32)>,
}

impl View for Game2048 {
    type V = GameView;

    closed spec fn view(&self) -> GameView {
        GameView {
            board: grid_view(self.board),
            score: self.score,
            history: self.previous_states@.map_values(|s: (Grid, u32)| (grid_view(s.0), s.1)),
        }
    }
}

/// The empty cells of `g`, as (row, column) pairs.
fn empty_cells(g: &Grid) -> (r: Vec<(usize, usize)>)
    ensures
        forall|p: (usize, usize)|
            #[trigger] r@.contains(p) <==> (p.0 < SIZE && p.1 < SIZE && g[p.0 as int][p.1 as int]
                == 0),
{
    let mut cells: Vec<(usize, usize)> = Vec::new();
    let mut r: usize = 0;
    while r < SIZE
        invariant
            r <= SIZE,
            forall|p: (usize, usize)|
                #[trigger] cells@.contains(p) <==> (p.0 < r && p.1 < SIZE && g[p.0 as int][p.1 as int]
                    == 0),
        decreases SIZE - r,
    {
        let mut c: usize = 0;
        while c < SIZE
            invariant
                r < SIZE,
                c <= SIZE,
                forall|p: (usize, usize)|
                    #[trigger] cells@.contains(p) <==> ((p.0 < r && p.1 < SIZE) || (p.0 == r && p.1
                        < c)) && g[p.0 as int][p.1 as int] == 0,
            decreases SIZE - c,
        {
            if g[r][c] == 0 {
                let ghost prev = cells@;
                cells.push((r, c));
                assert forall|p: (usize, usize)| #[trigger] cells@.contains(p) <==> prev.contains(p)
                    || p == (r, c) by {
                    if prev.contains(p) {
                        let i = choose|i: int| 0 <= i < prev.len() && prev[i] == p;
                        assert(cells@[i] == p);
                    }
                    if p == (r, c) {
                        assert(cells@[prev.len() as int] == p);
                    }
                    if cells@.contains(p) && p != (r, c) {
                        let i = choose|i: int| 0 <= i < cells@.len() && cells@[i] == p;
                        assert(prev[i] == p);
                    }
                }
            }
            c += 1;
        }
        r += 1;
    }
    cells
}

impl Game2048 {
    /// A game on the given board, with the given score and no history.
    pub fn from_board(board: Grid, score: u32) -> (r: Self)
        requires
            board_ok(grid_view(board)),
        ensures
            r@ == (GameView { board: grid_view(board), score, history: seq![] }),
            r@.wf(),
    {
        let r = Game2048 { board, score, previous_states: Vec::new() };
        assert(r@.history =~= seq![]);
        r
    }

    /// Puts a tile at `pick`, if there is one: a 2 if `two`, else a 4. This is
    /// the part of a spawn that follows the random draws.
    pub fn place_tile(&mut self, pick: Option<(usize, usize)>, two: bool)
        requires
            old(self)@.wf(),
            pick matches Some(p) ==> p.0 < SIZE && p.1 < SIZE && old(self)@.board[p.0 as int][p.1 as int] == 0,
        ensures
            final(self)@.wf(),
            final(self)@.score == old(self)@.score,
            final(self)@.history == old(self)@.history,
            final(self)@.board == match pick {
                Some(p) => old(self)@.board.update(
                    p.0 as int,
                    old(self)@.board[p.0 as int].update(p.1 as int, if two { 2u32 } else { 4u32 }),
                ),
                None => old(self)@.board,
            },
    {
        if let Some((r, c)) = pick {
            let ghost b = old(self)@.board;
            let v: u32 = if two { 2 } else { 4 };
            self.board[r][c] = v;
            proof {
                reveal_with_fuel(is_pow2, 3);
                assert(is_cell(v));
            }
            assert(self@.board =~~= b.update(r as int, b[r as int].update(c as int, v)));
        }
    }

    /// Puts a 2 (nine times in ten) or a 4 on an empty cell chosen at random;
    /// does nothing on a full board.
    fn spawn_tile(&mut self)
        requires
            old(self)@.wf(),
        ensures
            final(self)@.wf(),
            final(self)@.score == old(self)@.score,
            final(self)@.history == old(self)@.history,
            spawned(old(self)@.board, final(self)@.board),
    {
        let ghost b = self@.board;
        let empty = empty_cells(&self.board);
        let pick = choose_cell(&empty);
        let two = rand::random_ratio(9, 10);
        self.place_tile(pick, two);
        proof {
            match pick {
                Some(p) => {
                    assert(empty@.contains(p));
                    assert(b[p.0 as int][p.1 as int] == 0);
                    assert(self@.board[p.0 as int][p.1 as int] == 2 || self@.board[p.0 as int][p.1 as int] == 4);
                    assert(self@.board[p.0 as int] =~= b[p.0 as int].update(p.1 as int, self@.board[p.0 as int][p.1 as int]));
                }
                None => {
                    assert forall|r: int, c: int| 0 <= r < SIZE && 0 <= c < SIZE implies #[trigger] b[r][c] != 0 by {
                        if b[r][c] == 0 {
                            assert(empty@.contains((r as usize, c as usize)));
                        }
                    }
                }
            }
        }
    }

    /// Adds the current board and score as the newest snapshot, dropping the
    /// oldest when there are more than the limit.
    fn save_state(&mut self)
        requires
            old(self)@.wf(),
        ensures
            final(self)@.wf(),
            final(self)@.board == old(self)@.board,
            final(self)@.score == old(self)@.score,
            final(self)@.history == push_bounded(old(self)@.history, (old(self)@.board, old(self)@.score)),
    {
        let ghost h = self@.history;
        self.previous_states.push((self.board, self.score));
        assert(self@.history =~= h.push((self@.board, self@.score)));
        if self.previous_states.len() > UNDO_LIMIT {
            self.previous_states.remove(0);
            assert(self@.history =~= h.push((self@.board, self@.score)).drop_first());
        }
    }

    /// Whether a move in direction `d` stays within the range of `u32` (see
    /// [`GameView::fits`]); `move_in_direction` needs it.
    pub fn move_fits(&self, d: &MovementDirection) -> (r: bool)
        ensures
            r == self@.fits(*d),
    {
        if !grid_fits(&self.board) {
            return false;
        }
        let (_, gain) = slide(&self.board, *d);
        self.score as u64 + gain <= u32::MAX as u64
    }

    /// Slides and merges all tiles in direction `d`. A move that changes the
    /// board saves the previous board and score for undo, adds the points of
    /// its merges to the score and spawns one tile; a move that changes
    /// nothing leaves the game as it was. Returns whether the board changed.
    pub fn move_in_direction(&mut self, d: &MovementDirection) -> (changed: bool)
        requires
            old(self)@.wf(),
            old(self)@.fits(*d),
        ensures
            final(self)@.wf(),
            move_step(old(self)@, *d, changed, final(self)@),
    {
        let (next, gain) = slide(&self.board, *d);
        proof {
            lemma_slid_ok(self@.board, *d);
        }
        let changed = gain > 0 || !same_grid(&next, &self.board);
        if changed {
            self.save_state();
            self.board = next;
            self.score = self.score + gain as u32;
            self.spawn_tile();
        }
        changed
    }

    /// Whether the game is over: no cell is empty and no two horizontal or
    /// vertical neighbours are equal.
    pub fn game_over(&self) -> (r: bool)
        ensures
            r == self@.is_terminal(),
    {
        let ghost b = self@.board;
        let mut i: usize = 0;
        while i < SIZE
            invariant
                i <= SIZE,
                b == self@.board,
                forall|r: int, c: int|
                    0 <= r < i && 0 <= c < SIZE ==> {
                        &&& #[trigger] b[r][c] != 0
                        &&& c + 1 < SIZE ==> b[r][c] != b[r][c + 1]
                        &&& r + 1 < SIZE ==> b[r][c] != b[r + 1][c]
                    },
            decreases SIZE - i,
        {
            let mut j: usize = 0;
            while j < SIZE
                invariant
                    i < SIZE,
                    j <= SIZE,
                    b == self@.board,
                    forall|r: int, c: int|
                        (0 <= r < i && 0 <= c < SIZE) || (r == i && 0 <= c < j) ==> {
                            &&& #[trigger] b[r][c] != 0
                            &&& c + 1 < SIZE ==> b[r][c] != b[r][c + 1]
                            &&& r + 1 < SIZE ==> b[r][c] != b[r + 1][c]
                        },
                decreases SIZE - j,
            {
                if self.board[i][j] == 0 {
                    assert(b[i as int][j as int] == 0);
                    return false;
                }
                if j < SIZE - 1 && self.board[i][j] == self.board[i][j + 1] {
                    assert(b[i as int][j as int] == b[i as int][j + 1]);
                    return false;
                }
                if i < SIZE - 1 && self.board[i][j] == self.board[i + 1][j] {
                    assert(b[i as int][j as int] == b[i + 1][j as int]);
                    return false;
                }
                j += 1;
            }
            i += 1;
        }
        true
    }

    /// Starts the game over: an empty board with two tiles spawned, no score
    /// and no history.
    pub fn reset(&mut self)
        ensures
            fresh(final(self)@),
    {
        *self = Self::default();
    }

    /// The current score.
    pub fn score(&self) -> (r: u32)
        ensures
            r == self@.score,
    {
        self.score
    }

    /// The current board.
    pub fn board(&self) -> (r: &Grid)
        ensures
            grid_view(*r) == self@.board,
    {
        &self.board
    }

    /// Restores the newest snapshot, if there is one; returns whether there
    /// was one.
    pub fn undo(&mut self) -> (undone: bool)
        requires
            old(self)@.wf(),
        ensures
            final(self)@.wf(),
            undo_step(old(self)@, undone, final(self)@),
    {
        let ghost h = self@.history;
        match self.previous_states.pop() {
            Some((prev_board, prev_score)) => {
                self.board = prev_board;
                self.score = prev_score;
                assert(self@.history =~= h.drop_last());
                assert(board_ok(h[h.len() - 1].0));
                assert(forall|i: int| 0 <= i < h.len() - 1 ==> #[trigger] h.drop_last()[i] == h[i]);
                true
            },
            None => false,
        }
    }
}

impl Default for Game2048 {
    /// A new game: two tiles spawned on an empty board.
    fn default() -> (r: Self)
        ensures
            fresh(r@),
    {
        let mut game = Game2048 { board: [[0; SIZE]; SIZE], score: 0, previous_states: Vec::new() };
        assert(game@.board =~~= empty_board());
        assert(game@.history =~= Seq::<Snapshot>::empty());
        game.spawn_tile();
        let ghost mid = game@.board;
        game.spawn_tile();
        assert(spawned(mid, game@.board));
        game
    }
}

} // verus!
