use vstd::prelude::*;

use crate::hand::{chiitoitsu_complete, kokushi_complete, kokushi_complete_some};
use crate::tile::{sum_counts, tile_of_index, Tile, TileCounts};

verus! {

/// The target shape that gives the best distance to ready.
#[derive(Debug, Clone, Copy, PartialEq, Eq, Structural)]
pub enum ShantenType {
    /// Four melds and a pair.
    Standard,
    /// Seven pairs.
    Chiitoitsu,
    /// Thirteen orphans.
    Kokushi,
}

/// The distance to ready and the shape that achieves it.
#[derive(Debug, Clone, PartialEq, Eq, Structural)]
pub struct ShantenResult {
    /// -1 for a complete hand, 0 for ready, n for n tiles away.
    pub shanten: i8,
    pub best_type: ShantenType,
}

pub open spec fn min_i(a: int, b: int) -> int {
    if a <= b {
        a
    } else {
        b
    }
}

pub open spec fn max_i(a: int, b: int) -> int {
    if a >= b {
        a
    } else {
        b
    }
}

// ===== the per-suit block extraction, sequences first =====

/// Extract every run of three consecutive tiles from `i` up to `endi`
/// (exclusive), lowest start first, and return how many were taken with the
/// remaining counts.
pub open spec fn seq_pass(c: Seq<u8>, i: int, endi: int) -> (int, Seq<u8>)
    decreases endi - i,
{
    if i >= endi {
        (0int, c)
    } else {
        let t = min_i(c[i] as int, min_i(c[i + 1] as int, c[i + 2] as int));
        let c2 = c.update(i, (c[i] - t) as u8).update(i + 1, (c[i + 1] - t) as u8).update(
            i + 2, (c[i + 2] - t) as u8);
        let rec = seq_pass(c2, i + 1, endi);
        (t + rec.0, rec.1)
    }
}

/// Extract every triplet from `i` up to `endi` (exclusive).
pub open spec fn trip_pass(c: Seq<u8>, i: int, endi: int) -> (int, Seq<u8>)
    decreases endi - i,
{
    if i >= endi {
        (0int, c)
    } else {
        let t = c[i] as int / 3;
        let c2 = c.update(i, (c[i] as int % 3) as u8);
        let rec = trip_pass(c2, i + 1, endi);
        (t + rec.0, rec.1)
    }
}

/// Take one pair per tile kind from `i` up to `endi`.
pub open spec fn pair_pass(c: Seq<u8>, i: int, endi: int) -> (int, Seq<u8>)
    decreases endi - i,
{
    if i >= endi {
        (0int, c)
    } else {
        let take = c[i] >= 2;
        let c2 = if take {
            c.update(i, (c[i] - 2) as u8)
        } else {
            c
        };
        let rec = pair_pass(c2, i + 1, endi);
        ((if take {
            1int
        } else {
            0int
        }) + rec.0, rec.1)
    }
}

/// Take one adjacent partial (two neighbouring tiles) per position.
pub open spec fn adjacent_pass(c: Seq<u8>, i: int, endi: int) -> (int, Seq<u8>)
    decreases endi - i,
{
    if i >= endi {
        (0int, c)
    } else {
        let take = c[i] >= 1 && c[i + 1] >= 1;
        let c2 = if take {
            c.update(i, (c[i] - 1) as u8).update(i + 1, (c[i + 1] - 1) as u8)
        } else {
            c
        };
        let rec = adjacent_pass(c2, i + 1, endi);
        ((if take {
            1int
        } else {
            0int
        }) + rec.0, rec.1)
    }
}

/// Take one gapped partial (tiles two apart) per position.
pub open spec fn gap_pass(c: Seq<u8>, i: int, endi: int) -> (int, Seq<u8>)
    decreases endi - i,
{
    if i >= endi {
        (0int, c)
    } else {
        let take = c[i] >= 1 && c[i + 2] >= 1;
        let c2 = if take {
            c.update(i, (c[i] - 1) as u8).update(i + 2, (c[i + 2] - 1) as u8)
        } else {
            c
        };
        let rec = gap_pass(c2, i + 1, endi);
        ((if take {
            1int
        } else {
            0int
        }) + rec.0, rec.1)
    }
}

/// Melds of one suit block extracted with sequences first, then triplets.
pub open spec fn melds_seq_first(c: Seq<u8>, start: int) -> (int, Seq<u8>) {
    let s = seq_pass(c, start, start + 7);
    let t = trip_pass(s.1, start, start + 9);
    (s.0 + t.0, t.1)
}

/// Melds of one suit block extracted with triplets first, then sequences.
pub open spec fn melds_trip_first(c: Seq<u8>, start: int) -> (int, Seq<u8>) {
    let t = trip_pass(c, start, start + 9);
    let s = seq_pass(t.1, start, start + 7);
    (t.0 + s.0, s.1)
}

/// Melds and partial melds of one suit block: the better of the two
/// extraction orders, then pairs, adjacent partials and gapped partials.
pub open spec fn suit_block(c: Seq<u8>, start: int) -> (int, int) {
    let sf = melds_seq_first(c, start);
    let tf = melds_trip_first(c, start);
    let best = if sf.0 >= tf.0 {
        sf
    } else {
        tf
    };
    let p = pair_pass(best.1, start, start + 9);
    let a = adjacent_pass(p.1, start, start + 8);
    let g = gap_pass(a.1, start, start + 7);
    (best.0, p.0 + a.0 + g.0)
}

/// Melds and partials among the honors: only triplets and pairs.
pub open spec fn honor_block(c: Seq<u8>, i: int) -> (int, int)
    decreases 34 - i,
{
    if i >= 34 {
        (0int, 0int)
    } else {
        let m = if c[i] >= 3 {
            1int
        } else {
            0int
        };
        let after = if c[i] >= 3 {
            (c[i] - 3) as u8
        } else {
            c[i]
        };
        let t = if after >= 2 {
            1int
        } else {
            0int
        };
        let rec = honor_block(c, i + 1);
        (m + rec.0, t + rec.1)
    }
}

/// Complete melds and partial melds across the whole hand.
pub open spec fn melds_and_taatsu(c: Seq<u8>) -> (int, int) {
    let m = suit_block(c, 0);
    let p = suit_block(c, 9);
    let s = suit_block(c, 18);
    let h = honor_block(c, 27);
    (m.0 + p.0 + s.0 + h.0, m.1 + p.1 + s.1 + h.1)
}

/// The fewest hand tiles that can stand in a ready hand with `called`
/// called melds.
pub open spec fn min_tenpai_tiles(called: int) -> int {
    if called >= 4 {
        1
    } else {
        13 - 3 * called
    }
}

/// How many tiles the hand is short of that minimum.
pub open spec fn tile_deficit(c: Seq<u8>, called: int) -> int {
    max_i(0, min_tenpai_tiles(called) - sum_counts(c, 34))
}

/// The block-count formula: start from eight, take two per complete meld
/// (called melds included, at most four in all), one per useful partial,
/// and one for a pair; a hand short of tiles cannot stand better than its
/// deficit.
pub open spec fn shanten_value(melds: int, taatsu: int, has_pair: bool, called: int,
    deficit: int) -> int {
    let total_melds = melds + called;
    if total_melds >= 4 && has_pair && deficit == 0 {
        -1
    } else {
        let capped = min_i(total_melds, 4);
        let useful = min_i(taatsu, max_i(4 - total_melds, 0));
        let base = 8 - 2 * capped - useful - (if has_pair {
            1int
        } else {
            0int
        });
        let blocks = capped + useful;
        let adjusted = if blocks > 4 {
            base + (blocks - 4)
        } else {
            base
        };
        if adjusted >= 0 {
            max_i(adjusted, deficit)
        } else {
            adjusted
        }
    }
}

/// The best standard-shape value over the choice of pair: no pair taken,
/// or a pair taken from each tile kind that has two.
pub open spec fn best_with_pairs(c: Seq<u8>, i: int, called: int, deficit: int, acc: int) -> int
    decreases 34 - i,
{
    if i >= 34 {
        acc
    } else {
        let acc2 = if c[i] >= 2 {
            let c2 = c.update(i, (c[i] - 2) as u8);
            let mt = melds_and_taatsu(c2);
            min_i(acc, shanten_value(mt.0, mt.1, true, called, deficit))
        } else {
            acc
        };
        best_with_pairs(c, i + 1, called, deficit, acc2)
    }
}

/// The standard-shape distance to ready.
pub open spec fn standard_shanten_spec(c: Seq<u8>, called: int) -> int {
    let deficit = tile_deficit(c, called);
    let mt = melds_and_taatsu(c);
    let no_pair = min_i(8, shanten_value(mt.0, mt.1, false, called, deficit));
    best_with_pairs(c, 0, called, deficit, no_pair)
}

/// Seven-pairs distance: six minus the pairs held, plus the shortfall in
/// distinct tile kinds below seven.
pub open spec fn chiitoitsu_shanten_spec(c: Seq<u8>) -> int {
    6 - pairs_in(c, 34) + max_i(0, 7 - uniques_in(c, 34))
}

pub open spec fn pairs_in(c: Seq<u8>, n: int) -> int
    decreases n,
{
    if n <= 0 {
        0
    } else {
        pairs_in(c, n - 1) + if c[n - 1] >= 2 {
            1int
        } else {
            0int
        }
    }
}

pub open spec fn uniques_in(c: Seq<u8>, n: int) -> int
    decreases n,
{
    if n <= 0 {
        0
    } else {
        uniques_in(c, n - 1) + if c[n - 1] >= 1 {
            1int
        } else {
            0int
        }
    }
}

/// Thirteen-orphans distance: thirteen minus the distinct terminals and
/// honors held, minus one more when one of them is already paired.
pub open spec fn kokushi_shanten_spec(c: Seq<u8>) -> int {
    13 - kokushi_uniques(c, 34) - if kokushi_has_pair(c, 34) {
        1int
    } else {
        0int
    }
}

pub open spec fn kokushi_uniques(c: Seq<u8>, n: int) -> int
    decreases n,
{
    if n <= 0 {
        0
    } else {
        kokushi_uniques(c, n - 1) + if crate::tile::is_kokushi_tile_spec(tile_of_index(n - 1))
            && c[n - 1] >= 1 {
            1int
        } else {
            0int
        }
    }
}

pub open spec fn kokushi_has_pair(c: Seq<u8>, n: int) -> bool
    decreases n,
{
    if n <= 0 {
        false
    } else {
        kokushi_has_pair(c, n - 1) || (crate::tile::is_kokushi_tile_spec(tile_of_index(n - 1))
            && c[n - 1] >= 2)
    }
}

/// The distance to ready over every target shape. Seven pairs and thirteen
/// orphans are unavailable once a meld was called.
pub open spec fn shanten_spec(c: Seq<u8>, called: int) -> int {
    if called > 0 {
        standard_shanten_spec(c, called)
    } else {
        min_i(standard_shanten_spec(c, called), min_i(chiitoitsu_shanten_spec(c),
            kokushi_shanten_spec(c)))
    }
}

// ===== executable mirrors =====

/// One suit block's worth of a pass: take runs of three consecutive tiles.
fn seq_pass_exec(c: &mut Vec<u8>, i: usize, endi: usize) -> (m: usize)
    requires
        old(c)@.len() == 34,
        i <= endi,
        endi + 2 <= 34,
    ensures
        final(c)@.len() == 34,
        (m as int, final(c)@) == seq_pass(old(c)@, i as int, endi as int),
        m <= 255 * (endi - i),
    decreases endi - i,
{
    if i >= endi {
        return 0;
    }
    let a = c[i];
    let b = c[i + 1];
    let d = c[i + 2];
    let t = if a <= b && a <= d {
        a
    } else if b <= d {
        b
    } else {
        d
    };
    c.set(i, a - t);
    c.set(i + 1, b - t);
    c.set(i + 2, d - t);
    let rest = seq_pass_exec(c, i + 1, endi);
    t as usize + rest
}

/// Take triplets from each tile kind of a block.
fn trip_pass_exec(c: &mut Vec<u8>, i: usize, endi: usize) -> (m: usize)
    requires
        old(c)@.len() == 34,
        i <= endi,
        endi <= 34,
    ensures
        final(c)@.len() == 34,
        (m as int, final(c)@) == trip_pass(old(c)@, i as int, endi as int),
        m <= 255 * (endi - i),
    decreases endi - i,
{
    if i >= endi {
        return 0;
    }
    let t = c[i] / 3;
    c.set(i, c[i] % 3);
    let rest = trip_pass_exec(c, i + 1, endi);
    t as usize + rest
}

/// Take one pair per tile kind of a block.
fn pair_pass_exec(c: &mut Vec<u8>, i: usize, endi: usize) -> (m: usize)
    requires
        old(c)@.len() == 34,
        i <= endi,
        endi <= 34,
    ensures
        final(c)@.len() == 34,
        (m as int, final(c)@) == pair_pass(old(c)@, i as int, endi as int),
        m <= endi - i,
    decreases endi - i,
{
    if i >= endi {
        return 0;
    }
    let mut took: usize = 0;
    if c[i] >= 2 {
        c.set(i, c[i] - 2);
        took = 1;
    }
    let rest = pair_pass_exec(c, i + 1, endi);
    took + rest
}

/// Take one adjacent partial per position of a block.
fn adjacent_pass_exec(c: &mut Vec<u8>, i: usize, endi: usize) -> (m: usize)
    requires
        old(c)@.len() == 34,
        i <= endi,
        endi + 1 <= 34,
    ensures
        final(c)@.len() == 34,
        (m as int, final(c)@) == adjacent_pass(old(c)@, i as int, endi as int),
        m <= endi - i,
    decreases endi - i,
{
    if i >= endi {
        return 0;
    }
    let mut took: usize = 0;
    if c[i] >= 1 && c[i + 1] >= 1 {
        c.set(i, c[i] - 1);
        c.set(i + 1, c[i + 1] - 1);
        took = 1;
    }
    let rest = adjacent_pass_exec(c, i + 1, endi);
    took + rest
}

/// Take one gapped partial per position of a block.
fn gap_pass_exec(c: &mut Vec<u8>, i: usize, endi: usize) -> (m: usize)
    requires
        old(c)@.len() == 34,
        i <= endi,
        endi + 2 <= 34,
    ensures
        final(c)@.len() == 34,
        (m as int, final(c)@) == gap_pass(old(c)@, i as int, endi as int),
        m <= endi - i,
    decreases endi - i,
{
    if i >= endi {
        return 0;
    }
    let mut took: usize = 0;
    if c[i] >= 1 && c[i + 2] >= 1 {
        c.set(i, c[i] - 1);
        c.set(i + 2, c[i + 2] - 1);
        took = 1;
    }
    let rest = gap_pass_exec(c, i + 1, endi);
    took + rest
}

/// Copy a 34-entry count vector.
fn copy_counts(c: &Vec<u8>) -> (r: Vec<u8>)
    requires
        c@.len() == 34,
    ensures
        r@ == c@,
{
    let mut out: Vec<u8> = Vec::new();
    let mut i: usize = 0;
    while i < 34
        invariant
            c@.len() == 34,
            out@.len() == i,
            i <= 34,
            forall|j: int| 0 <= j < i ==> out@[j] == c@[j],
        decreases 34 - i,
    {
        out.push(c[i]);
        i = i + 1;
    }
    proof {
        assert(out@ =~= c@);
    }
    out
}

/// Melds and partials of one suit block.
fn suit_block_exec(c: &Vec<u8>, start: usize) -> (r: (usize, usize))
    requires
        c@.len() == 34,
        start == 0 || start == 9 || start == 18,
    ensures
        (r.0 as int, r.1 as int) == suit_block(c@, start as int),
        r.0 <= 255 * 16,
        r.1 <= 24,
{
    let mut sf = copy_counts(c);
    let sf_seq = seq_pass_exec(&mut sf, start, start + 7);
    let sf_trip = trip_pass_exec(&mut sf, start, start + 9);
    let m1 = sf_seq + sf_trip;

    let mut tf = copy_counts(c);
    let tf_trip = trip_pass_exec(&mut tf, start, start + 9);
    let tf_seq = seq_pass_exec(&mut tf, start, start + 7);
    let m2 = tf_trip + tf_seq;

    let (best_m, mut rem) = if m1 >= m2 {
        (m1, sf)
    } else {
        (m2, tf)
    };
    let p = pair_pass_exec(&mut rem, start, start + 9);
    let a = adjacent_pass_exec(&mut rem, start, start + 8);
    let g = gap_pass_exec(&mut rem, start, start + 7);
    (best_m, p + a + g)
}

/// Melds and partials among the honors.
fn honor_block_exec(c: &Vec<u8>, i: usize) -> (r: (usize, usize))
    requires
        c@.len() == 34,
        27 <= i <= 34,
    ensures
        (r.0 as int, r.1 as int) == honor_block(c@, i as int),
        r.0 <= 34 - i,
        r.1 <= 34 - i,
    decreases 34 - i,
{
    if i >= 34 {
        return (0, 0);
    }
    let cv = c[i];
    let m: usize = if cv >= 3 {
        1
    } else {
        0
    };
    let after: u8 = if cv >= 3 {
        cv - 3
    } else {
        cv
    };
    let t: usize = if after >= 2 {
        1
    } else {
        0
    };
    let rest = honor_block_exec(c, i + 1);
    (m + rest.0, t + rest.1)
}

/// Complete melds and partials across the whole hand.
fn count_melds_and_taatsu(c: &Vec<u8>) -> (r: (usize, usize))
    requires
        c@.len() == 34,
    ensures
        (r.0 as int, r.1 as int) == melds_and_taatsu(c@),
        r.0 <= 255 * 64,
        r.1 <= 100,
{
    let m = suit_block_exec(c, 0);
    let p = suit_block_exec(c, 9);
    let s = suit_block_exec(c, 18);
    let h = honor_block_exec(c, 27);
    (m.0 + p.0 + s.0 + h.0, m.1 + p.1 + s.1 + h.1)
}

/// The block-count formula in executable form.
fn shanten_value_exec(melds: usize, taatsu: usize, has_pair: bool, called: u8, deficit: u32) -> (r:
    i8)
    requires
        melds <= 255 * 64,
        taatsu <= 100,
        called <= 4,
        deficit <= 20,
    ensures
        r as int == shanten_value(melds as int, taatsu as int, has_pair, called as int,
            deficit as int),
{
    let total_melds = melds + called as usize;
    if total_melds >= 4 && has_pair && deficit == 0 {
        return -1;
    }
    let capped: usize = if total_melds >= 4 {
        4
    } else {
        total_melds
    };
    let room: usize = 4 - capped;
    let useful: usize = if taatsu <= room {
        taatsu
    } else {
        room
    };
    let base: i8 = 8 - 2 * (capped as i8) - (useful as i8) - (if has_pair {
        1
    } else {
        0
    });
    // the capped meld count and the useful partials never exceed four
    // blocks together, so no excess adjustment can apply
    proof {
        assert(capped + useful <= 4);
    }
    if base >= 0 {
        if (deficit as i8) > base {
            deficit as i8
        } else {
            base
        }
    } else {
        base
    }
}

/// The standard-shape distance with a number of called melds.
#[verifier::loop_isolation(false)]
fn calculate_standard_shanten_with_melds(counts: &TileCounts, called_melds: u8) -> (r: i8)
    requires
        counts.wf(),
        called_melds <= 4,
    ensures
        r as int == standard_shanten_spec(counts@, called_melds as int),
{
    let total_hand_tiles = counts.total();
    let min_tenpai: u32 = if called_melds >= 4 {
        1
    } else {
        13 - 3 * called_melds as u32
    };
    let deficit: u32 = if min_tenpai > total_hand_tiles {
        min_tenpai - total_hand_tiles
    } else {
        0
    };
    proof {
        assert(deficit as int == tile_deficit(counts@, called_melds as int));
    }

    let mt = count_melds_and_taatsu(&counts.counts);
    let first = shanten_value_exec(mt.0, mt.1, false, called_melds, deficit);
    let mut best: i8 = if first <= 8 {
        first
    } else {
        8
    };

    let mut i: usize = 0;
    while i < 34
        invariant
            counts.wf(),
            i <= 34,
            deficit <= 13,
            // finishing the pair scan from `i` with the running best yields
            // the specified answer
            best_with_pairs(counts@, i as int, called_melds as int, deficit as int,
                best as int) == standard_shanten_spec(counts@, called_melds as int),
        decreases 34 - i,
    {
        if counts.get_idx(i) >= 2 {
            let mut reduced = copy_counts(&counts.counts);
            reduced.set(i, reduced[i] - 2);
            let mt2 = count_melds_and_taatsu(&reduced);
            let v = shanten_value_exec(mt2.0, mt2.1, true, called_melds, deficit);
            if v < best {
                best = v;
            }
            proof {
                assert(reduced@ =~= counts@.update(i as int, (counts@[i as int] - 2) as u8));
            }
        }
        i = i + 1;
    }
    best
}

/// The standard-shape distance for a hand with no called melds.
pub fn calculate_standard_shanten(counts: &TileCounts) -> (r: i8)
    requires
        counts.wf(),
    ensures
        r as int == standard_shanten_spec(counts@, 0),
{
    calculate_standard_shanten_with_melds(counts, 0)
}

/// The seven-pairs distance.
pub fn calculate_chiitoitsu_shanten(counts: &TileCounts) -> (r: i8)
    requires
        counts.wf(),
    ensures
        r as int == chiitoitsu_shanten_spec(counts@),
{
    let mut pairs: i8 = 0;
    let mut uniques: i8 = 0;
    let mut i: usize = 0;
    while i < 34
        invariant
            counts.wf(),
            i <= 34,
            pairs as int == pairs_in(counts@, i as int),
            uniques as int == uniques_in(counts@, i as int),
            0 <= pairs <= i,
            0 <= uniques <= i,
        decreases 34 - i,
    {
        let c = counts.get_idx(i);
        if c >= 1 {
            uniques = uniques + 1;
        }
        if c >= 2 {
            pairs = pairs + 1;
        }
        i = i + 1;
    }
    let need: i8 = if uniques < 7 {
        7 - uniques
    } else {
        0
    };
    6 - pairs + need
}

/// The thirteen-orphans distance.
pub fn calculate_kokushi_shanten(counts: &TileCounts) -> (r: i8)
    requires
        counts.wf(),
    ensures
        r as int == kokushi_shanten_spec(counts@),
{
    let mut uniques: i8 = 0;
    let mut has_pair = false;
    let mut i: usize = 0;
    while i < 34
        invariant
            counts.wf(),
            i <= 34,
            uniques as int == kokushi_uniques(counts@, i as int),
            has_pair == kokushi_has_pair(counts@, i as int),
            0 <= uniques <= i,
        decreases 34 - i,
    {
        let t = crate::tile::index_to_tile(i);
        if t.is_terminal_or_honor() {
            let c = counts.get_idx(i);
            if c >= 1 {
                uniques = uniques + 1;
            }
            if c >= 2 {
                has_pair = true;
            }
        }
        i = i + 1;
    }
    13 - uniques - (if has_pair {
        1
    } else {
        0
    })
}

/// The distance to ready over every available target shape, with the shape
/// that achieves it. Ties prefer the standard shape, then seven pairs.
pub fn calculate_shanten_with_melds(counts: &TileCounts, called_melds: u8) -> (r: ShantenResult)
    requires
        counts.wf(),
        called_melds <= 4,
    ensures
        r.shanten as int == shanten_spec(counts@, called_melds as int),
        called_melds == 0 && chiitoitsu_complete(counts@) ==> r.shanten == -1,
        called_melds == 0 && kokushi_complete_some(counts@) ==> r.shanten == -1,
        r.best_type == ShantenType::Standard ==> r.shanten as int
            == standard_shanten_spec(counts@, called_melds as int),
        r.best_type == ShantenType::Chiitoitsu ==> r.shanten as int
            == chiitoitsu_shanten_spec(counts@),
        r.best_type == ShantenType::Kokushi ==> r.shanten as int
            == kokushi_shanten_spec(counts@),
        called_melds > 0 ==> r.best_type == ShantenType::Standard,
{
    let standard = calculate_standard_shanten_with_melds(counts, called_melds);
    if called_melds > 0 {
        return ShantenResult { shanten: standard, best_type: ShantenType::Standard };
    }
    let chiitoi = calculate_chiitoitsu_shanten(counts);
    let kokushi = calculate_kokushi_shanten(counts);
    proof {
        if chiitoitsu_complete(counts@) {
            lemma_chiitoitsu_formula_complete(counts@);
            lemma_standard_shanten_lower_bound(counts@, 0);
            lemma_kokushi_formula_lower_bound(counts@);
        }
        if kokushi_complete_some(counts@) {
            let p = choose|p: Tile| kokushi_complete(counts@, p);
            lemma_kokushi_formula_complete(counts@, p);
            lemma_standard_shanten_lower_bound(counts@, 0);
            lemma_kokushi_chiitoi_bound(counts@, p, 34);
        }
    }
    if standard <= chiitoi && standard <= kokushi {
        ShantenResult { shanten: standard, best_type: ShantenType::Standard }
    } else if chiitoi <= kokushi {
        ShantenResult { shanten: chiitoi, best_type: ShantenType::Chiitoitsu }
    } else {
        ShantenResult { shanten: kokushi, best_type: ShantenType::Kokushi }
    }
}

/// The distance to ready for a hand with no called melds.
pub fn calculate_shanten(counts: &TileCounts) -> (r: ShantenResult)
    requires
        counts.wf(),
    ensures
        r.shanten as int == shanten_spec(counts@, 0),
        chiitoitsu_complete(counts@) ==> r.shanten == -1,
        kokushi_complete_some(counts@) ==> r.shanten == -1,
{
    calculate_shanten_with_melds(counts, 0)
}

/// A thirteen-orphans multiset sits at the formula's minimum.
pub proof fn lemma_kokushi_formula_complete(c: Seq<u8>, p: Tile)
    requires
        c.len() == 34,
        kokushi_complete(c, p),
    ensures
        kokushi_shanten_spec(c) == -1,
{
    crate::tile::lemma_tile_index_bijective(p);
    lemma_kokushi_uniques_full(c, 34);
    lemma_kokushi_cap_value();
    lemma_kokushi_pair_found(c, 34, crate::tile::tile_index_spec(p));
}

/// A thirteen-orphans multiset holds exactly one pair, so the seven-pairs
/// formula stays well above complete.
proof fn lemma_kokushi_chiitoi_bound(c: Seq<u8>, p: Tile, n: int)
    requires
        c.len() == 34,
        kokushi_complete(c, p),
        0 <= n <= 34,
    ensures
        pairs_in(c, n) == if crate::tile::tile_index_spec(p) < n {
            1int
        } else {
            0int
        },
    decreases n,
{
    crate::tile::lemma_tile_index_bijective(p);
    if n > 0 {
        lemma_kokushi_chiitoi_bound(c, p, n - 1);
        if c[n - 1] >= 2 {
            assert(crate::tile::tile_index_spec(p) == n - 1);
        }
    }
}

/// With one of every terminal and honor present, the distinct count
/// reaches its cap.
proof fn lemma_kokushi_uniques_full(c: Seq<u8>, n: int)
    requires
        n <= 34,
        forall|j: int| 0 <= j < 34 ==> crate::tile::is_kokushi_tile_spec(tile_of_index(j))
            ==> #[trigger] c[j] >= 1,
    ensures
        kokushi_uniques(c, n) == kokushi_uniques_cap(n),
    decreases n,
{
    if n > 0 {
        lemma_kokushi_uniques_full(c, n - 1);
    }
}

/// A doubled terminal or honor below `n` is seen by the pair scan.
proof fn lemma_kokushi_pair_found(c: Seq<u8>, n: int, j: int)
    requires
        0 <= j < n,
        crate::tile::is_kokushi_tile_spec(tile_of_index(j)),
        c[j] >= 2,
    ensures
        kokushi_has_pair(c, n),
    decreases n,
{
    if j < n - 1 {
        lemma_kokushi_pair_found(c, n - 1, j);
    }
}

/// A multiset of seven exact pairs sits at the formula's minimum.
pub proof fn lemma_chiitoitsu_formula_complete(c: Seq<u8>)
    requires
        c.len() == 34,
        chiitoitsu_complete(c),
    ensures
        chiitoitsu_shanten_spec(c) == -1,
{
    lemma_pairs_equal_distinct(c, 34);
}

proof fn lemma_pairs_equal_distinct(c: Seq<u8>, n: int)
    requires
        c.len() == 34,
        n <= 34,
        forall|j: int| 0 <= j < 34 ==> c[j] == 0 || #[trigger] c[j] == 2,
    ensures
        pairs_in(c, n) == crate::tile::distinct_counts(c, n),
        uniques_in(c, n) == crate::tile::distinct_counts(c, n),
    decreases n,
{
    if n > 0 {
        lemma_pairs_equal_distinct(c, n - 1);
    }
}

/// The standard formula never reports better than complete.
pub proof fn lemma_standard_shanten_lower_bound(c: Seq<u8>, called: int)
    ensures
        standard_shanten_spec(c, called) >= -1,
{
    let deficit = tile_deficit(c, called);
    let mt = melds_and_taatsu(c);
    lemma_shanten_value_lower_bound(mt.0, mt.1, false, called, deficit);
    lemma_best_with_pairs_lower_bound(c, 0, called, deficit,
        min_i(8, shanten_value(mt.0, mt.1, false, called, deficit)));
}

proof fn lemma_shanten_value_lower_bound(melds: int, taatsu: int, has_pair: bool, called: int,
    deficit: int)
    requires
        deficit >= 0,
    ensures
        shanten_value(melds, taatsu, has_pair, called, deficit) >= -1,
{
}

proof fn lemma_best_with_pairs_lower_bound(c: Seq<u8>, i: int, called: int, deficit: int,
    acc: int)
    requires
        acc >= -1,
        deficit >= 0,
    ensures
        best_with_pairs(c, i, called, deficit, acc) >= -1,
    decreases 34 - i,
{
    if i < 34 {
        if c[i] >= 2 {
            let c2 = c.update(i, (c[i] - 2) as u8);
            let mt = melds_and_taatsu(c2);
            lemma_shanten_value_lower_bound(mt.0, mt.1, true, called, deficit);
        }
        let acc2 = if c[i] >= 2 {
            let c2 = c.update(i, (c[i] - 2) as u8);
            let mt = melds_and_taatsu(c2);
            min_i(acc, shanten_value(mt.0, mt.1, true, called, deficit))
        } else {
            acc
        };
        lemma_best_with_pairs_lower_bound(c, i + 1, called, deficit, acc2);
    }
}

/// The thirteen-orphans formula never reports better than complete.
pub proof fn lemma_kokushi_formula_lower_bound(c: Seq<u8>)
    ensures
        kokushi_shanten_spec(c) >= -1,
{
    lemma_kokushi_uniques_bound(c, 34);
    lemma_kokushi_cap_value();
}

proof fn lemma_kokushi_uniques_bound(c: Seq<u8>, n: int)
    requires
        n <= 34,
    ensures
        kokushi_uniques(c, n) <= kokushi_uniques_cap(n),
        kokushi_uniques(c, n) >= 0,
    decreases n,
{
    if n > 0 {
        lemma_kokushi_uniques_bound(c, n - 1);
    }
    if n == 34 {
        lemma_kokushi_cap_value();
    }
}

/// Exactly thirteen canonical indexes name terminals or honors.
proof fn lemma_kokushi_cap_value()
    ensures
        kokushi_uniques_cap(34) == 13,
{
    reveal_with_fuel(kokushi_uniques_cap, 35);
}

/// How many of the first `n` canonical indexes name terminals or honors.
pub open spec fn kokushi_uniques_cap(n: int) -> int
    decreases n,
{
    if n <= 0 {
        0
    } else {
        kokushi_uniques_cap(n - 1) + if crate::tile::is_kokushi_tile_spec(tile_of_index(n - 1)) {
            1int
        } else {
            0int
        }
    }
}

// ===== ukeire =====

/// One tile that would bring the hand closer to ready, with how many
/// copies remain available.
#[derive(Debug, Clone, PartialEq, Eq, Structural)]
pub struct UkeireTile {
    pub tile: Tile,
    /// Four minus the copies already held.
    pub available: u8,
}

/// The acceptance set of a hand.
#[derive(Debug, Clone)]
pub struct UkeireResult {
    /// The hand's current distance to ready.
    pub shanten: i8,
    /// Every tile that strictly lowers the distance.
    pub tiles: Vec<UkeireTile>,
    /// The total number of copies of those tiles still available.
    pub total_count: u8,
}

/// Does one more copy of the tile at index `j` strictly lower the distance?
pub open spec fn ukeire_accepts(c: Seq<u8>, called: int, j: int) -> bool {
    c[j] < 4 && shanten_spec(c.update(j, (c[j] + 1) as u8), called) < shanten_spec(c, called)
}

/// The total availability over the accepted tiles below `n`.
pub open spec fn ukeire_total(c: Seq<u8>, called: int, n: int) -> int
    decreases n,
{
    if n <= 0 {
        0
    } else {
        ukeire_total(c, called, n - 1) + if ukeire_accepts(c, called, n - 1) {
            4 - c[n - 1]
        } else {
            0int
        }
    }
}

/// Every tile whose extra copy strictly lowers the distance to ready,
/// with its availability, and the sum of those availabilities.
#[verifier::loop_isolation(false)]
#[verifier::rlimit(100)]
pub fn calculate_ukeire_with_melds(counts: &TileCounts, called_melds: u8) -> (r: UkeireResult)
    requires
        counts.wf(),
        called_melds <= 4,
    ensures
        r.shanten as int == shanten_spec(counts@, called_melds as int),
        r.total_count as int == ukeire_total(counts@, called_melds as int, 34),
        forall|k: int| 0 <= k < r.tiles@.len() ==> {
            let j = crate::tile::tile_index_spec((#[trigger] r.tiles@[k]).tile);
            ukeire_accepts(counts@, called_melds as int, j)
                && r.tiles@[k].available as int == 4 - counts@[j]
                && crate::tile::tile_wf(r.tiles@[k].tile)
        },
        forall|j: int| 0 <= j < 34 && ukeire_accepts(counts@, called_melds as int, j)
            ==> exists|k: int| 0 <= k < r.tiles@.len()
                && crate::tile::tile_index_spec((#[trigger] r.tiles@[k]).tile) == j,
        // the listed tiles are distinct, in ascending canonical order
        forall|k1: int, k2: int| 0 <= k1 < k2 < r.tiles@.len()
            ==> crate::tile::tile_index_spec((#[trigger] r.tiles@[k1]).tile)
                < crate::tile::tile_index_spec((#[trigger] r.tiles@[k2]).tile),
{
    let current = calculate_shanten_with_melds(counts, called_melds);
    let mut accepting: Vec<UkeireTile> = Vec::new();
    let mut total: u8 = 0;
    let mut j: usize = 0;
    while j < 34
        invariant
            counts.wf(),
            called_melds <= 4,
            j <= 34,
            current.shanten as int == shanten_spec(counts@, called_melds as int),
            total as int == ukeire_total(counts@, called_melds as int, j as int),
            total <= 4 * j,
            forall|k: int| 0 <= k < accepting@.len() ==> {
                let jj = crate::tile::tile_index_spec((#[trigger] accepting@[k]).tile);
                ukeire_accepts(counts@, called_melds as int, jj)
                    && accepting@[k].available as int == 4 - counts@[jj]
                    && crate::tile::tile_wf(accepting@[k].tile)
            },
            forall|jj: int| 0 <= jj < j && ukeire_accepts(counts@, called_melds as int, jj)
                ==> exists|k: int| 0 <= k < accepting@.len()
                    && crate::tile::tile_index_spec((#[trigger] accepting@[k]).tile) == jj,
            forall|k: int| 0 <= k < accepting@.len()
                ==> crate::tile::tile_index_spec((#[trigger] accepting@[k]).tile) < j,
            forall|k1: int, k2: int| 0 <= k1 < k2 < accepting@.len()
                ==> crate::tile::tile_index_spec((#[trigger] accepting@[k1]).tile)
                    < crate::tile::tile_index_spec((#[trigger] accepting@[k2]).tile),
        decreases 34 - j,
    {
        let cj = counts.get_idx(j);
        let ghost old_accepting = accepting@;
        if cj < 4 {
            let mut test = counts.duplicate();
            test.set_idx(j, cj + 1);
            let new_shanten = calculate_shanten_with_melds(&test, called_melds);
            if new_shanten.shanten < current.shanten {
                let tile = crate::tile::index_to_tile(j);
                let available = 4 - cj;
                accepting.push(UkeireTile { tile, available });
                total = total + available;
                proof {
                    assert(ukeire_accepts(counts@, called_melds as int, j as int));
                    assert(crate::tile::tile_index_spec(tile) == j as int);
                }
            }
        }
        proof {
            assert forall|jj: int| 0 <= jj < j + 1
                && ukeire_accepts(counts@, called_melds as int, jj)
                implies exists|k: int| 0 <= k < accepting@.len()
                    && crate::tile::tile_index_spec((#[trigger] accepting@[k]).tile) == jj by {
                if jj < j {
                    let k = choose|k: int| 0 <= k < old_accepting.len()
                        && crate::tile::tile_index_spec((#[trigger] old_accepting[k]).tile) == jj;
                    assert(accepting@[k] == old_accepting[k]);
                } else {
                    assert(accepting@.len() > old_accepting.len());
                    assert(crate::tile::tile_index_spec(
                        accepting@[accepting@.len() - 1].tile) == jj);
                }
            }
        }
        j = j + 1;
    }
    UkeireResult { shanten: current.shanten, tiles: accepting, total_count: total }
}

/// The acceptance set of a hand with no called melds.
pub fn calculate_ukeire(counts: &TileCounts) -> (r: UkeireResult)
    requires
        counts.wf(),
    ensures
        r.shanten as int == shanten_spec(counts@, 0),
        r.total_count as int == ukeire_total(counts@, 0, 34),
        forall|k: int| 0 <= k < r.tiles@.len() ==> {
            let j = crate::tile::tile_index_spec((#[trigger] r.tiles@[k]).tile);
            ukeire_accepts(counts@, 0, j)
                && r.tiles@[k].available as int == 4 - counts@[j]
                && crate::tile::tile_wf(r.tiles@[k].tile)
        },
        forall|j: int| 0 <= j < 34 && ukeire_accepts(counts@, 0, j)
            ==> exists|k: int| 0 <= k < r.tiles@.len()
                && crate::tile::tile_index_spec((#[trigger] r.tiles@[k]).tile) == j,
        // the listed tiles are distinct, in ascending canonical order
        forall|k1: int, k2: int| 0 <= k1 < k2 < r.tiles@.len()
            ==> crate::tile::tile_index_spec((#[trigger] r.tiles@[k1]).tile)
                < crate::tile::tile_index_spec((#[trigger] r.tiles@[k2]).tile),
{
    calculate_ukeire_with_melds(counts, 0)
}

/// Extract one suit block's melds with sequences before triplets, and
/// return the count with the remaining tiles.
pub fn extract_melds_sequences_first(tiles: &Vec<u8>, start: usize) -> (r: (usize, Vec<u8>))
    requires
        tiles@.len() == 34,
        start == 0 || start == 9 || start == 18,
    ensures
        (r.0 as int, r.1@) == melds_seq_first(tiles@, start as int),
{
    let mut rem = copy_counts(tiles);
    let a = seq_pass_exec(&mut rem, start, start + 7);
    let b = trip_pass_exec(&mut rem, start, start + 9);
    (a + b, rem)
}

} // verus!
