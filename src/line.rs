//! One line of the board (a row or a column), oriented so that index 0 is
//! the end the tiles move toward, and the slide-and-merge rule applied to it.

use vstd::prelude::*;

verus! {

/// Largest tile value that can still be doubled within a `u32`.
pub const MAX_DOUBLING: u32 = 0x7FFF_FFFF;

/// The non-zero values of `s`, in their order.
pub open spec fn compact(s: Seq<u32>) -> Seq<u32>
    decreases s.len(),
{
    if s.len() == 0 {
        seq![]
    } else if s.last() == 0 {
        compact(s.drop_last())
    } else {
        compact(s.drop_last()).push(s.last())
    }
}

/// Pairs of equal neighbours of `s`, taken greedily from the front, each
/// become one value of twice the size; a value made by a merge does not
/// merge again. (The cast is exact wherever `doubling_fits(s)` holds, which
/// every caller of [`merge`] guarantees.)
pub open spec fn combine(s: Seq<u32>) -> Seq<u32>
    decreases s.len(),
{
    if s.len() < 2 {
        s
    } else if s[0] == s[1] {
        seq![(2 * s[0]) as u32] + combine(s.subrange(2, s.len() as int))
    } else {
        seq![s[0]] + combine(s.subrange(1, s.len() as int))
    }
}

/// The points that `combine(s)` scores: the pre-merge value of each pair.
pub open spec fn combine_gain(s: Seq<u32>) -> nat
    decreases s.len(),
{
    if s.len() < 2 {
        0
    } else if s[0] == s[1] {
        s[0] as nat + combine_gain(s.subrange(2, s.len() as int))
    } else {
        combine_gain(s.subrange(1, s.len() as int))
    }
}

/// `s` followed by zeros up to length `n`.
pub open spec fn pad(s: Seq<u32>, n: nat) -> Seq<u32> {
    s + Seq::new((n - s.len()) as nat, |i: int| 0u32)
}

/// The line after a move toward index 0.
pub open spec fn slide_line(s: Seq<u32>) -> Seq<u32> {
    pad(combine(compact(s)), s.len())
}

/// The points that a move toward index 0 scores on this line.
pub open spec fn line_gain(s: Seq<u32>) -> nat {
    combine_gain(compact(s))
}

/// `v` is a power of two.
pub open spec fn is_pow2(v: nat) -> bool
    decreases v,
{
    if v == 0 {
        false
    } else if v == 1 {
        true
    } else {
        v % 2 == 0 && is_pow2(v / 2)
    }
}

/// `v` is an empty cell (0) or a tile: a power of two of at least 2.
pub open spec fn is_cell(v: u32) -> bool {
    v == 0 || (v >= 2 && is_pow2(v as nat))
}

/// Every value of `s` can be doubled within a `u32`.
pub open spec fn doubling_fits(s: Seq<u32>) -> bool {
    forall|k: int| 0 <= k < s.len() ==> s[k] <= MAX_DOUBLING
}

/// Twice a power of two is a power of two.
pub proof fn lemma_pow2_double(v: nat)
    requires
        is_pow2(v),
    ensures
        is_pow2(2 * v),
{
    assert((2 * v) % 2 == 0);
    assert((2 * v) / 2 == v);
}

/// Closing the gaps keeps only non-zero values of the line, so it keeps
/// every bound and every tile property that the line's values have.
pub proof fn lemma_compact(s: Seq<u32>)
    ensures
        compact(s).len() <= s.len(),
        forall|k: int| 0 <= k < compact(s).len() ==> compact(s)[k] != 0,
        doubling_fits(s) ==> doubling_fits(compact(s)),
        (forall|k: int| 0 <= k < s.len() ==> is_cell(#[trigger] s[k])) ==> (forall|k: int|
            0 <= k < compact(s).len() ==> is_cell(#[trigger] compact(s)[k])),
    decreases s.len(),
{
    if s.len() > 0 {
        lemma_compact(s.drop_last());
    }
}

/// Merging non-zero values that can be doubled gives non-zero values, tiles
/// from tiles, and a shorter line exactly when it scores.
pub proof fn lemma_combine(s: Seq<u32>)
    requires
        doubling_fits(s),
        forall|k: int| 0 <= k < s.len() ==> s[k] != 0,
    ensures
        combine(s).len() <= s.len(),
        forall|k: int| 0 <= k < combine(s).len() ==> combine(s)[k] != 0,
        combine(s).len() == s.len() <==> combine_gain(s) == 0,
        (forall|k: int| 0 <= k < s.len() ==> is_cell(#[trigger] s[k])) ==> (forall|k: int|
            0 <= k < combine(s).len() ==> is_cell(#[trigger] combine(s)[k])),
    decreases s.len(),
{
    if s.len() >= 2 {
        if s[0] == s[1] {
            let rest = s.subrange(2, s.len() as int);
            lemma_combine(rest);
            if is_cell(s[0]) {
                lemma_pow2_double(s[0] as nat);
            }
            assert(combine(s) == seq![(2 * s[0]) as u32] + combine(rest));
        } else {
            let rest = s.subrange(1, s.len() as int);
            lemma_combine(rest);
            assert(combine(s) == seq![s[0]] + combine(rest));
            if forall|k: int| 0 <= k < s.len() ==> is_cell(#[trigger] s[k]) {
                assert forall|k: int| 0 <= k < rest.len() implies is_cell(#[trigger] rest[k]) by {
                    assert(rest[k] == s[k + 1]);
                }
            }
        }
    }
}

/// Slides `line` toward index 0 and merges equal neighbours once each:
/// returns the new line and the points scored, the sum of the pre-merge
/// values of the merged pairs.
pub fn merge(line: &Vec<u32>) -> (r: (Vec<u32>, u64))
    requires
        doubling_fits(line@),
        line@.len() <= u32::MAX,
    ensures
        r.0@ == slide_line(line@),
        r.1 == line_gain(line@),
        r.1 <= line@.len() * 0x8000_0000,
{
    // The tiles, with the gaps between them closed.
    let mut tiles: Vec<u32> = Vec::new();
    let mut i: usize = 0;
    while i < line.len()
        invariant
            i <= line@.len(),
            tiles@ == compact(line@.subrange(0, i as int)),
        decreases line@.len() - i,
    {
        assert(line@.subrange(0, i + 1).drop_last() =~= line@.subrange(0, i as int));
        if line[i] != 0 {
            tiles.push(line[i]);
        }
        i += 1;
    }
    assert(line@.subrange(0, line@.len() as int) =~= line@);
    proof {
        lemma_compact(line@);
    }
    let ghost c = tiles@;
    // Each pair of equal neighbours merges into one tile.
    let mut merged: Vec<u32> = Vec::new();
    let mut gain: u64 = 0;
    let mut i: usize = 0;
    assert(c.subrange(0, c.len() as int) =~= c);
    assert(merged@ + combine(c) =~= combine(c));
    while i < tiles.len()
        invariant
            tiles@ == c,
            c == compact(line@),
            doubling_fits(c),
            c.len() <= line@.len() <= u32::MAX,
            i <= c.len(),
            merged@ + combine(c.subrange(i as int, c.len() as int)) == combine(c),
            gain + combine_gain(c.subrange(i as int, c.len() as int)) == combine_gain(c),
            gain <= i * 0x8000_0000,
        decreases c.len() - i,
    {
        let ghost rest = c.subrange(i as int, c.len() as int);
        if i + 1 < tiles.len() && tiles[i] == tiles[i + 1] {
            assert(rest.subrange(2, rest.len() as int) =~= c.subrange(i + 2, c.len() as int));
            assert(merged@.push((2 * c[i as int]) as u32) + combine(
                c.subrange(i + 2, c.len() as int),
            ) =~= merged@ + combine(rest));
            merged.push(2 * tiles[i]);
            gain += tiles[i] as u64;
            i += 2;
        } else {
            if i + 1 < tiles.len() {
                assert(rest.subrange(1, rest.len() as int) =~= c.subrange(i + 1, c.len() as int));
                assert(merged@.push(c[i as int]) + combine(c.subrange(i + 1, c.len() as int))
                    =~= merged@ + combine(rest));
            } else {
                assert(rest =~= seq![c[i as int]]);
                assert(c.subrange(i + 1, c.len() as int) =~= seq![]);
                assert(merged@.push(c[i as int]) + combine(c.subrange(i + 1, c.len() as int))
                    =~= merged@ + combine(rest));
            }
            merged.push(tiles[i]);
            i += 1;
        }
    }
    assert(c.subrange(c.len() as int, c.len() as int) =~= seq![]);
    assert(merged@ =~= combine(c));
    proof {
        lemma_combine(c);
    }
    // Zeros fill the line up to its length again.
    while merged.len() < line.len()
        invariant
            merged@.len() <= line@.len(),
            combine(c).len() <= merged@.len(),
            merged@ =~= combine(c) + Seq::new((merged@.len() - combine(c).len()) as nat, |k: int| 0u32),
        decreases line@.len() - merged@.len(),
    {
        merged.push(0);
    }
    assert(merged@ =~= slide_line(line@));
    (merged, gain)
}

} // verus!
