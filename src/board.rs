//! The 4×4 grid, its mathematical model, and the four moves, which all reuse
//! the one line primitive of [`crate::line`].

use vstd::prelude::*;
use crate::line::{
    combine, compact, doubling_fits, is_cell, lemma_combine, lemma_compact, line_gain, merge,
    slide_line, MAX_DOUBLING,
};

verus! {

/// Width and height of the board.
pub const SIZE: usize = 4;

/// The board: rows of cells, each 0 (empty) or a tile.
pub type Grid = [[u32; SIZE]; SIZE];

/// The direction in which a move pushes the tiles.
#[derive(Clone, Copy, Debug, PartialEq, Eq, Structural)]
pub enum MovementDirection {
    Up,
    Down,
    Left,
    Right,
}

/// The board as a sequence of rows.
pub open spec fn grid_view(g: Grid) -> Seq<Seq<u32>> {
    Seq::new(SIZE as nat, |r: int| g[r]@)
}

/// `b` is a 4×4 board of empty cells and tiles.
pub open spec fn board_ok(b: Seq<Seq<u32>>) -> bool {
    &&& b.len() == SIZE
    &&& forall|r: int| 0 <= r < SIZE ==> (#[trigger] b[r]).len() == SIZE
    &&& forall|r: int, c: int| 0 <= r < SIZE && 0 <= c < SIZE ==> is_cell(#[trigger] b[r][c])
}

/// Every tile of `b` can be doubled within a `u32`.
pub open spec fn board_fits(b: Seq<Seq<u32>>) -> bool {
    forall|r: int, c: int| 0 <= r < SIZE && 0 <= c < SIZE ==> #[trigger] b[r][c] <= MAX_DOUBLING
}

/// The cell (row, column) that holds position `t` of line `k` for a move in
/// direction `d`; position 0 is the end the tiles move toward.
pub open spec fn line_cell(d: MovementDirection, k: int, t: int) -> (int, int) {
    match d {
        MovementDirection::Left => (k, t),
        MovementDirection::Right => (k, SIZE - 1 - t),
        MovementDirection::Up => (t, k),
        MovementDirection::Down => (SIZE - 1 - t, k),
    }
}

/// The line (row or column) that holds cell (`r`, `c`) for direction `d`.
pub open spec fn line_index(d: MovementDirection, r: int, c: int) -> int {
    match d {
        MovementDirection::Left | MovementDirection::Right => r,
        MovementDirection::Up | MovementDirection::Down => c,
    }
}

/// The position of cell (`r`, `c`) within its line for direction `d`.
pub open spec fn line_pos(d: MovementDirection, r: int, c: int) -> int {
    match d {
        MovementDirection::Left => c,
        MovementDirection::Right => SIZE - 1 - c,
        MovementDirection::Up => r,
        MovementDirection::Down => SIZE - 1 - r,
    }
}

/// Line `k` of `b` for direction `d`, oriented toward the direction of motion.
pub open spec fn line_of(b: Seq<Seq<u32>>, d: MovementDirection, k: int) -> Seq<u32> {
    Seq::new(SIZE as nat, |t: int| b[line_cell(d, k, t).0][line_cell(d, k, t).1])
}

/// The board after every line of `b` slid in direction `d`.
pub open spec fn slid(b: Seq<Seq<u32>>, d: MovementDirection) -> Seq<Seq<u32>> {
    Seq::new(
        SIZE as nat,
        |r: int|
            Seq::new(
                SIZE as nat,
                |c: int| slide_line(line_of(b, d, line_index(d, r, c)))[line_pos(d, r, c)],
            ),
    )
}

/// The points scored by the first `n` lines of `b` in direction `d`.
pub open spec fn gain_upto(b: Seq<Seq<u32>>, d: MovementDirection, n: int) -> nat
    decreases n,
{
    if n <= 0 {
        0
    } else {
        gain_upto(b, d, n - 1) + line_gain(line_of(b, d, n - 1))
    }
}

/// The points that a move in direction `d` scores on `b`.
pub open spec fn move_gain(b: Seq<Seq<u32>>, d: MovementDirection) -> nat {
    gain_upto(b, d, SIZE as int)
}

/// Value at position `t` of line `k` of the grid `g` for direction `d`.
spec fn at(g: Grid, d: MovementDirection, k: int, t: int) -> u32 {
    g[line_cell(d, k, t).0][line_cell(d, k, t).1]
}

/// Line `k` of `g` for direction `d`.
fn read_line(g: &Grid, d: MovementDirection, k: usize) -> (r: Vec<u32>)
    requires
        k < SIZE,
    ensures
        r@ == line_of(grid_view(*g), d, k as int),
{
    let mut line: Vec<u32> = Vec::new();
    let mut t: usize = 0;
    while t < SIZE
        invariant
            t <= SIZE,
            k < SIZE,
            line@ == line_of(grid_view(*g), d, k as int).subrange(0, t as int),
        decreases SIZE - t,
    {
        let v = match d {
            MovementDirection::Left => g[k][t],
            MovementDirection::Right => g[k][SIZE - 1 - t],
            MovementDirection::Up => g[t][k],
            MovementDirection::Down => g[SIZE - 1 - t][k],
        };
        line.push(v);
        t += 1;
        assert(line@ =~= line_of(grid_view(*g), d, k as int).subrange(0, t as int));
    }
    assert(line@ =~= line_of(grid_view(*g), d, k as int));
    line
}

/// Stores `v` at position `t` of line `k` of `g` for direction `d`.
fn write_cell(g: &mut Grid, d: MovementDirection, k: usize, t: usize, v: u32)
    requires
        k < SIZE,
        t < SIZE,
    ensures
        forall|k2: int, t2: int|
            0 <= k2 < SIZE && 0 <= t2 < SIZE ==> #[trigger] at(*final(g), d, k2, t2) == if k2
                == k && t2 == t {
                v
            } else {
                at(*old(g), d, k2, t2)
            },
{
    let (r, c) = match d {
        MovementDirection::Left => (k, t),
        MovementDirection::Right => (k, SIZE - 1 - t),
        MovementDirection::Up => (t, k),
        MovementDirection::Down => (SIZE - 1 - t, k),
    };
    g[r][c] = v;
}

/// Slides every line of `g` in direction `d`: returns the new grid and the
/// points scored.
pub fn slide(g: &Grid, d: MovementDirection) -> (r: (Grid, u64))
    requires
        board_fits(grid_view(*g)),
    ensures
        grid_view(r.0) == slid(grid_view(*g), d),
        r.1 == move_gain(grid_view(*g), d),
        r.1 <= 0x8_0000_0000,
{
    let ghost b = grid_view(*g);
    let mut out: Grid = *g;
    let mut gain: u64 = 0;
    let mut k: usize = 0;
    while k < SIZE
        invariant
            k <= SIZE,
            b == grid_view(*g),
            board_fits(b),
            forall|k2: int, t: int|
                0 <= k2 < k && 0 <= t < SIZE ==> #[trigger] at(out, d, k2, t) == slide_line(
                    line_of(b, d, k2),
                )[t],
            forall|k2: int, t: int|
                k <= k2 < SIZE && 0 <= t < SIZE ==> #[trigger] at(out, d, k2, t) == at(*g, d, k2, t),
            gain == gain_upto(b, d, k as int),
            gain <= k * 0x2_0000_0000,
        decreases SIZE - k,
    {
        let line = read_line(g, d, k);
        assert(doubling_fits(line@)) by {
            assert forall|t: int| 0 <= t < line@.len() implies line@[t] <= MAX_DOUBLING by {
                let rc = line_cell(d, k as int, t);
                assert(b[rc.0][rc.1] <= MAX_DOUBLING);
            }
        }
        let (merged, line_points) = merge(&line);
        let mut t: usize = 0;
        while t < SIZE
            invariant
                t <= SIZE,
                k < SIZE,
                merged@ == slide_line(line@),
                line@ == line_of(b, d, k as int),
                forall|k2: int, t2: int|
                    0 <= k2 < k && 0 <= t2 < SIZE ==> #[trigger] at(out, d, k2, t2) == slide_line(
                        line_of(b, d, k2),
                    )[t2],
                forall|t2: int|
                    0 <= t2 < t ==> #[trigger] at(out, d, k as int, t2) == slide_line(line@)[t2],
                forall|k2: int, t2: int|
                    (k < k2 < SIZE || (k2 == k && t <= t2)) && 0 <= t2 < SIZE ==> #[trigger] at(
                        out,
                        d,
                        k2,
                        t2,
                    ) == at(*g, d, k2, t2),
            decreases SIZE - t,
        {
            write_cell(&mut out, d, k, t, merged[t]);
            t += 1;
        }
        gain = gain + line_points;
        k += 1;
    }
    assert forall|r: int, c: int| 0 <= r < SIZE && 0 <= c < SIZE implies #[trigger] grid_view(
        out,
    )[r][c] == slid(b, d)[r][c] by {
        assert(at(out, d, line_index(d, r, c), line_pos(d, r, c)) == out[r][c]);
    }
    assert(grid_view(out) =~~= slid(b, d));
    (out, gain)
}

/// A board of cells and tiles, every one of which can be doubled, slides to
/// a board of cells and tiles.
pub proof fn lemma_slid_ok(b: Seq<Seq<u32>>, d: MovementDirection)
    requires
        board_ok(b),
        board_fits(b),
    ensures
        board_ok(slid(b, d)),
{
    assert forall|r: int, c: int| 0 <= r < SIZE && 0 <= c < SIZE implies is_cell(
        #[trigger] slid(b, d)[r][c],
    ) by {
        let line = line_of(b, d, line_index(d, r, c));
        assert forall|t: int| 0 <= t < line.len() implies is_cell(#[trigger] line[t])
            && line[t] <= MAX_DOUBLING by {
            let rc = line_cell(d, line_index(d, r, c), t);
            assert(is_cell(b[rc.0][rc.1]));
            assert(b[rc.0][rc.1] <= MAX_DOUBLING);
        }
        lemma_compact(line);
        lemma_combine(compact(line));
        let t = line_pos(d, r, c);
        if t < combine(compact(line)).len() {
            assert(is_cell(combine(compact(line))[t]));
        }
    }
}

/// Whether every tile of `g` can be doubled within a `u32`.
pub fn grid_fits(g: &Grid) -> (r: bool)
    ensures
        r == board_fits(grid_view(*g)),
{
    let mut r: usize = 0;
    while r < SIZE
        invariant
            r <= SIZE,
            forall|r2: int, c: int| 0 <= r2 < r && 0 <= c < SIZE ==> #[trigger] g[r2][c] <= MAX_DOUBLING,
        decreases SIZE - r,
    {
        let mut c: usize = 0;
        while c < SIZE
            invariant
                r < SIZE,
                c <= SIZE,
                forall|r2: int, c2: int| 0 <= r2 < r && 0 <= c2 < SIZE ==> #[trigger] g[r2][c2] <= MAX_DOUBLING,
                forall|c2: int| 0 <= c2 < c ==> #[trigger] g[r as int][c2] <= MAX_DOUBLING,
            decreases SIZE - c,
        {
            if g[r][c] > MAX_DOUBLING {
                assert(grid_view(*g)[r as int][c as int] == g[r as int][c as int]);
                return false;
            }
            c += 1;
        }
        r += 1;
    }
    true
}

/// Whether `a` and `b` hold the same values in every cell.
pub fn same_grid(a: &Grid, b: &Grid) -> (r: bool)
    ensures
        r == (grid_view(*a) == grid_view(*b)),
{
    let mut r: usize = 0;
    while r < SIZE
        invariant
            r <= SIZE,
            forall|r2: int, c: int| 0 <= r2 < r && 0 <= c < SIZE ==> #[trigger] a[r2][c] == b[r2][c],
        decreases SIZE - r,
    {
        let mut c: usize = 0;
        while c < SIZE
            invariant
                r < SIZE,
                c <= SIZE,
                forall|r2: int, c2: int| 0 <= r2 < r && 0 <= c2 < SIZE ==> #[trigger] a[r2][c2] == b[r2][c2],
                forall|c2: int| 0 <= c2 < c ==> #[trigger] a[r as int][c2] == b[r as int][c2],
            decreases SIZE - c,
        {
            if a[r][c] != b[r][c] {
                assert(grid_view(*a)[r as int][c as int] != grid_view(*b)[r as int][c as int]);
                return false;
            }
            c += 1;
        }
        r += 1;
    }
    assert(grid_view(*a) =~~= grid_view(*b));
    true
}

} // verus!
