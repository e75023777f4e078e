//! Laws of the game that relate several operations, proved over the step
//! relations that the operations' own contracts state.

use vstd::prelude::*;
use crate::board::{board_ok, lemma_slid_ok, slid, MovementDirection, SIZE};
use crate::game::{move_step, push_bounded, spawned, undo_step, GameView, UNDO_LIMIT};
use crate::line::{is_cell, is_pow2};

verus! {

/// A spawn on a board of cells and tiles leaves a board of cells and tiles.
proof fn lemma_spawn_ok(before: Seq<Seq<u32>>, after: Seq<Seq<u32>>)
    requires
        board_ok(before),
        spawned(before, after),
    ensures
        board_ok(after),
{
    reveal_with_fuel(is_pow2, 3);
    if exists|r: int, c: int| 0 <= r < SIZE && 0 <= c < SIZE && #[trigger] before[r][c] == 0 {
        let (r, c) = choose|r: int, c: int|
            0 <= r < SIZE && 0 <= c < SIZE && #[trigger] before[r][c] == 0 && (after[r][c] == 2
                || after[r][c] == 4) && after == before.update(r, before[r].update(c, after[r][c]));
        assert(is_cell(after[r][c]));
        assert forall|r2: int, c2: int| 0 <= r2 < SIZE && 0 <= c2 < SIZE implies is_cell(
            #[trigger] after[r2][c2],
        ) by {
            if r2 != r || c2 != c {
                assert(after[r2][c2] == before[r2][c2]);
            }
        }
    }
}

/// Every cell stays empty or a power of two: a move (within the range of
/// `u32`) and an undo both take a well-formed game to a well-formed game.
pub proof fn law_cells_stay_tiles(
    pre: GameView,
    d: MovementDirection,
    changed: bool,
    moved: GameView,
    undone: bool,
    back: GameView,
)
    requires
        pre.wf(),
        pre.fits(d),
        move_step(pre, d, changed, moved),
        undo_step(pre, undone, back),
    ensures
        moved.wf(),
        back.wf(),
        forall|r: int, c: int|
            0 <= r < SIZE && 0 <= c < SIZE ==> #[trigger] moved.board[r][c] == 0 || is_pow2(
                moved.board[r][c] as nat,
            ),
{
    if changed {
        lemma_slid_ok(pre.board, d);
        lemma_spawn_ok(slid(pre.board, d), moved.board);
        let pushed = pre.history.push((pre.board, pre.score));
        assert forall|i: int| 0 <= i < pushed.len() implies board_ok(#[trigger] pushed[i].0) by {
            if i < pre.history.len() {
                assert(pushed[i] == pre.history[i]);
            }
        }
        if pushed.len() > UNDO_LIMIT {
            assert forall|i: int| 0 <= i < moved.history.len() implies board_ok(
                #[trigger] moved.history[i].0,
            ) by {
                assert(moved.history[i] == pushed[i + 1]);
            }
        }
    }
    if undone {
        let h = pre.history;
        assert(board_ok(h[h.len() - 1].0));
        assert(forall|i: int| 0 <= i < h.len() - 1 ==> #[trigger] h.drop_last()[i] == h[i]);
    }
}

/// A move that changes nothing leaves the whole game as it was: no snapshot
/// is saved and no tile spawns.
pub proof fn law_no_op_move(pre: GameView, d: MovementDirection, post: GameView)
    requires
        move_step(pre, d, false, post),
    ensures
        post == pre,
{
}

/// A move followed by an undo restores the board and the score; the history
/// too, unless the move pushed the oldest snapshot out.
pub proof fn law_undo_round_trip(
    pre: GameView,
    d: MovementDirection,
    changed: bool,
    mid: GameView,
    undone: bool,
    post: GameView,
)
    requires
        pre.wf(),
        move_step(pre, d, changed, mid),
        undo_step(mid, undone, post),
    ensures
        changed ==> undone && post.board == pre.board && post.score == pre.score,
        changed && pre.history.len() < UNDO_LIMIT ==> post.history == pre.history,
        !changed ==> undone == (pre.history.len() > 0),
{
    if changed {
        let pushed = pre.history.push((pre.board, pre.score));
        assert(pushed.last() == (pre.board, pre.score));
        if pre.history.len() < UNDO_LIMIT {
            assert(mid.history.drop_last() =~= pre.history);
        }
    }
}

/// Moves that change nothing between a changing move and an undo do not
/// count: the undo goes back to before the changing move.
pub proof fn law_no_op_then_undo(
    a: GameView,
    d1: MovementDirection,
    b: GameView,
    d2: MovementDirection,
    c: GameView,
    undone: bool,
    e: GameView,
)
    requires
        a.wf(),
        move_step(a, d1, true, b),
        move_step(b, d2, false, c),
        undo_step(c, undone, e),
    ensures
        undone,
        e.board == a.board,
        e.score == a.score,
{
    law_undo_round_trip(a, d1, true, b, undone, e);
}

/// After `n` changing moves from a game with no history, the history holds
/// the states before the last `min(n, UNDO_LIMIT)` of them, oldest first.
proof fn lemma_history_after_moves(gs: Seq<GameView>, n: int)
    requires
        0 <= n < gs.len(),
        gs[0].history.len() == 0,
        forall|i: int|
            0 <= i < n ==> (#[trigger] gs[i + 1]).history == push_bounded(
                gs[i].history,
                (gs[i].board, gs[i].score),
            ),
    ensures
        gs[n].history.len() == if n < UNDO_LIMIT { n } else { UNDO_LIMIT as int },
        forall|j: int|
            0 <= j < gs[n].history.len() ==> #[trigger] gs[n].history[j] == (
                gs[n - gs[n].history.len() + j].board,
                gs[n - gs[n].history.len() + j].score,
            ),
    decreases n,
{
    if n > 0 {
        lemma_history_after_moves(gs, n - 1);
        assert(gs[(n - 1) + 1].history == push_bounded(
            gs[n - 1].history,
            (gs[n - 1].board, gs[n - 1].score),
        ));
        let h = gs[n - 1].history;
        let pushed = h.push((gs[n - 1].board, gs[n - 1].score));
        assert(gs[n].history == push_bounded(h, (gs[n - 1].board, gs[n - 1].score)));
        if pushed.len() > UNDO_LIMIT {
            assert forall|j: int| 0 <= j < gs[n].history.len() implies #[trigger] gs[n].history[j]
                == (
                gs[n - gs[n].history.len() + j].board,
                gs[n - gs[n].history.len() + j].score,
            ) by {
                assert(gs[n].history[j] == pushed[j + 1]);
            }
        } else {
            assert forall|j: int| 0 <= j < gs[n].history.len() implies #[trigger] gs[n].history[j]
                == (
                gs[n - gs[n].history.len() + j].board,
                gs[n - gs[n].history.len() + j].score,
            ) by {
                assert(gs[n].history[j] == pushed[j]);
            }
        }
    }
}

/// After `m` undos from a game whose history has `h` snapshots, `h - m` of
/// them remain (none once `m` reaches `h`); undo `i` succeeds iff `i < h`
/// and then restores snapshot `h - 1 - i`.
proof fn lemma_undos(us: Seq<GameView>, rs: Seq<bool>, m: int)
    requires
        0 <= m < us.len(),
        m <= rs.len(),
        forall|i: int| 0 <= i < m ==> undo_step(#[trigger] us[i], rs[i], us[i + 1]),
    ensures
        us[m].history == us[0].history.subrange(
            0,
            if m < us[0].history.len() { us[0].history.len() - m } else { 0 },
        ),
        forall|i: int| 0 <= i < m ==> #[trigger] rs[i] == (i < us[0].history.len()),
        forall|i: int|
            0 <= i < m && i < us[0].history.len() ==> #[trigger] us[i + 1].board == us[0].history[us[0].history.len() - 1 - i].0
                && us[i + 1].score == us[0].history[us[0].history.len() - 1 - i].1,
    decreases m,
{
    let h = us[0].history;
    if m == 0 {
        assert(h.subrange(0, h.len() as int) =~= h);
    } else {
        lemma_undos(us, rs, m - 1);
        assert(undo_step(us[m - 1], rs[m - 1], us[m]));
        if m - 1 < h.len() {
            assert(us[m - 1].history.last() == h[h.len() - 1 - (m - 1)]);
            assert(us[m].history =~= h.subrange(0, h.len() - m));
        }
    }
}

/// With room for `UNDO_LIMIT` snapshots, after `n` changing moves from a
/// game with no history, `m` undos go back through the states before the
/// last `min(n, UNDO_LIMIT)` moves, newest first, and every later undo
/// returns false: after `UNDO_LIMIT + 1` moves the state before the first
/// move can no longer be reached.
pub proof fn law_undo_capacity(
    gs: Seq<GameView>,
    ds: Seq<MovementDirection>,
    n: int,
    us: Seq<GameView>,
    rs: Seq<bool>,
    m: int,
)
    requires
        0 <= n < gs.len(),
        n <= ds.len(),
        gs[0].history.len() == 0,
        forall|i: int| 0 <= i < n ==> move_step(#[trigger] gs[i], ds[i], true, gs[i + 1]),
        0 <= m < us.len(),
        m <= rs.len(),
        us[0] == gs[n],
        forall|i: int| 0 <= i < m ==> undo_step(#[trigger] us[i], rs[i], us[i + 1]),
    ensures
        forall|i: int|
            0 <= i < m ==> #[trigger] rs[i] == (i < n && i < UNDO_LIMIT),
        forall|i: int|
            0 <= i < m && i < n && i < UNDO_LIMIT ==> #[trigger] us[i + 1].board == gs[n - 1 - i].board
                && us[i + 1].score == gs[n - 1 - i].score,
{
    assert forall|i: int| 0 <= i < n implies (#[trigger] gs[i + 1]).history == push_bounded(
        gs[i].history,
        (gs[i].board, gs[i].score),
    ) by {
        assert(move_step(gs[i], ds[i], true, gs[i + 1]));
    }
    lemma_history_after_moves(gs, n);
    lemma_undos(us, rs, m);
    let len = gs[n].history.len();
    assert forall|i: int|
        0 <= i < m && i < n && i < UNDO_LIMIT implies #[trigger] us[i + 1].board == gs[n - 1
            - i].board && us[i + 1].score == gs[n - 1 - i].score by {
        assert(gs[n].history[len - 1 - i] == (
            gs[n - len + (len - 1 - i)].board,
            gs[n - len + (len - 1 - i)].score,
        ));
    }
}

} // verus!
