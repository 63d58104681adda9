use vstd::multiset::Multiset;
use vstd::prelude::*;

use crate::tile::{
    distinct_counts, index_to_tile, is_kokushi_tile_spec, lemma_index_tile_bijective,
    lemma_tile_index_bijective, occ, tile_index_spec, tile_of_index, tile_to_index, tile_wf,
    Tile, TileCounts,
};

verus! {

broadcast use vstd::seq_lib::lemma_seq_contains_after_push, vstd::seq_lib::group_to_multiset_ensures;

/// The three ways a quad can have been formed.
#[derive(Debug, Clone, Copy, PartialEq, Eq, Hash, Structural)]
pub enum KanType {
    /// All four tiles drawn from the wall; concealed for scoring.
    Closed,
    /// Called from another player's discard; open for scoring.
    Open,
    /// A fourth tile added to an open triplet; open for scoring.
    Added,
}

pub open spec fn kan_open_spec(k: KanType) -> bool {
    k != KanType::Closed
}

impl KanType {
    /// Whether this quad kind counts as open for scoring.
    pub fn is_open(&self) -> (r: bool)
        ensures
            r == kan_open_spec(*self),
    {
        match self {
            KanType::Closed => false,
            KanType::Open => true,
            KanType::Added => true,
        }
    }
}

/// A group of three or four tiles: a sequence (stored by its lowest tile),
/// a triplet, or a quad. The boolean marks an open (called) group.
#[derive(Debug, Clone, Copy, PartialEq, Eq, Hash, Structural)]
pub enum Meld {
    Shuntsu(Tile, bool),
    Koutsu(Tile, bool),
    Kan(Tile, KanType),
}

/// A meld is well formed when its tile is well formed and a sequence
/// starts on a suited value of at most 7, so honors never stand in sequences.
pub open spec fn meld_wf(m: Meld) -> bool {
    match m {
        Meld::Shuntsu(t, _) => match t {
            Tile::Suited { suit, value } => 1 <= value <= 7,
            Tile::Honor(_) => false,
        },
        Meld::Koutsu(t, _) => tile_wf(t),
        Meld::Kan(t, _) => tile_wf(t),
    }
}

pub open spec fn meld_open_spec(m: Meld) -> bool {
    match m {
        Meld::Shuntsu(_, open) => open,
        Meld::Koutsu(_, open) => open,
        Meld::Kan(_, k) => kan_open_spec(k),
    }
}

pub open spec fn meld_tile_spec(m: Meld) -> Tile {
    match m {
        Meld::Shuntsu(t, _) => t,
        Meld::Koutsu(t, _) => t,
        Meld::Kan(t, _) => t,
    }
}

/// How many tiles of canonical index `j` this meld holds.
pub open spec fn meld_occ(m: Meld, j: int) -> int {
    match m {
        Meld::Shuntsu(t, _) => if tile_index_spec(t) == j || tile_index_spec(t) + 1 == j
            || tile_index_spec(t) + 2 == j {
            1int
        } else {
            0int
        },
        Meld::Koutsu(t, _) => if tile_index_spec(t) == j {
            3int
        } else {
            0int
        },
        Meld::Kan(t, _) => if tile_index_spec(t) == j {
            4int
        } else {
            0int
        },
    }
}

/// How many tiles of canonical index `j` a list of melds holds in all.
pub open spec fn melds_occ(ms: Seq<Meld>, j: int) -> int
    decreases ms.len(),
{
    if ms.len() == 0 {
        0
    } else {
        melds_occ(ms.drop_last(), j) + meld_occ(ms.last(), j)
    }
}

pub proof fn lemma_melds_occ_push(ms: Seq<Meld>, m: Meld, j: int)
    ensures
        melds_occ(ms.push(m), j) == melds_occ(ms, j) + meld_occ(m, j),
{
    assert(ms.push(m).drop_last() =~= ms);
}

pub proof fn lemma_melds_occ_insert(ms: Seq<Meld>, p: int, m: Meld, j: int)
    requires
        0 <= p <= ms.len(),
    ensures
        melds_occ(ms.insert(p, m), j) == melds_occ(ms, j) + meld_occ(m, j),
    decreases ms.len() - p,
{
    if p == ms.len() {
        assert(ms.insert(p, m) =~= ms.push(m));
        lemma_melds_occ_push(ms, m, j);
    } else {
        let s = ms.insert(p, m);
        assert(s.drop_last() =~= ms.drop_last().insert(p, m));
        assert(s.last() == ms.last());
        lemma_melds_occ_insert(ms.drop_last(), p, m, j);
    }
}

pub proof fn lemma_melds_occ_nonneg(ms: Seq<Meld>, j: int)
    ensures
        melds_occ(ms, j) >= 0,
    decreases ms.len(),
{
    if ms.len() > 0 {
        lemma_melds_occ_nonneg(ms.drop_last(), j);
        assert(meld_occ(ms.last(), j) >= 0);
    }
}


pub proof fn lemma_melds_occ_member(ms: Seq<Meld>, k: int, j: int)
    requires
        0 <= k < ms.len(),
    ensures
        melds_occ(ms, j) >= meld_occ(ms[k], j),
    decreases ms.len(),
{
    if ms.len() > 0 {
        if k == ms.len() - 1 {
            lemma_melds_occ_nonneg(ms.drop_last(), j);
        } else {
            lemma_melds_occ_member(ms.drop_last(), k, j);
            assert(meld_occ(ms.last(), j) >= 0);
        }
    }
}

/// A positive total means some meld holds the tile.
pub proof fn lemma_melds_occ_positive(ms: Seq<Meld>, j: int) -> (k: int)
    requires
        melds_occ(ms, j) > 0,
    ensures
        0 <= k < ms.len() && meld_occ(ms[k], j) > 0,
    decreases ms.len(),
{
    if meld_occ(ms.last(), j) > 0 {
        ms.len() - 1
    } else {
        let k = lemma_melds_occ_positive(ms.drop_last(), j);
        k
    }
}

pub proof fn lemma_melds_occ_remove(ms: Seq<Meld>, k: int, j: int)
    requires
        0 <= k < ms.len(),
    ensures
        melds_occ(ms.remove(k), j) == melds_occ(ms, j) - meld_occ(ms[k], j),
    decreases ms.len(),
{
    if k == ms.len() - 1 {
        assert(ms.remove(k) =~= ms.drop_last());
    } else {
        assert(ms.remove(k).drop_last() =~= ms.drop_last().remove(k));
        assert(ms.remove(k).last() == ms.last());
        lemma_melds_occ_remove(ms.drop_last(), k, j);
    }
}

impl Meld {
    /// A closed sequence, stored by its lowest tile.
    pub fn shuntsu(start_tile: Tile) -> (m: Meld)
        ensures
            m == Meld::Shuntsu(start_tile, false),
    {
        Meld::Shuntsu(start_tile, false)
    }

    /// An open (called) sequence.
    pub fn shuntsu_open(start_tile: Tile) -> (m: Meld)
        ensures
            m == Meld::Shuntsu(start_tile, true),
    {
        Meld::Shuntsu(start_tile, true)
    }

    /// A closed triplet.
    pub fn koutsu(tile: Tile) -> (m: Meld)
        ensures
            m == Meld::Koutsu(tile, false),
    {
        Meld::Koutsu(tile, false)
    }

    /// An open (called) triplet.
    pub fn koutsu_open(tile: Tile) -> (m: Meld)
        ensures
            m == Meld::Koutsu(tile, true),
    {
        Meld::Koutsu(tile, true)
    }

    /// A quad of the given kind.
    pub fn kan(tile: Tile, kan_type: KanType) -> (m: Meld)
        ensures
            m == Meld::Kan(tile, kan_type),
    {
        Meld::Kan(tile, kan_type)
    }

    /// Whether the meld was called from another player.
    pub fn is_open(&self) -> (r: bool)
        ensures
            r == meld_open_spec(*self),
    {
        match self {
            Meld::Shuntsu(_, open) => *open,
            Meld::Koutsu(_, open) => *open,
            Meld::Kan(_, kan_type) => kan_type.is_open(),
        }
    }

    /// The tile that identifies the meld (lowest tile of a sequence).
    pub fn tile(&self) -> (t: Tile)
        ensures
            t == meld_tile_spec(*self),
    {
        match self {
            Meld::Shuntsu(t, _) => *t,
            Meld::Koutsu(t, _) => *t,
            Meld::Kan(t, _) => *t,
        }
    }

    /// Is this a triplet or a quad?
    pub fn is_triplet_or_kan(&self) -> (r: bool)
        ensures
            r == (*self is Koutsu || *self is Kan),
    {
        match self {
            Meld::Koutsu(_, _) => true,
            Meld::Kan(_, _) => true,
            _ => false,
        }
    }

    /// Is this a sequence?
    pub fn is_sequence(&self) -> (r: bool)
        ensures
            r == (*self is Shuntsu),
    {
        match self {
            Meld::Shuntsu(_, _) => true,
            _ => false,
        }
    }

    /// Is this meld concealed (not called)?
    pub fn is_concealed(&self) -> (r: bool)
        ensures
            r == !meld_open_spec(*self),
    {
        !self.is_open()
    }
}

/// A complete decomposition of a winning hand.
#[derive(Debug, PartialEq, Eq)]
#[verifier::ext_equal]
pub enum HandStructure {
    /// Four melds and a pair.
    Standard { melds: Vec<Meld>, pair: Tile },
    /// Seven distinct pairs.
    Chiitoitsu { pairs: Vec<Tile> },
    /// The thirteen terminal and honor tiles, one of them doubled.
    Kokushi { pair: Tile },
}

impl Clone for HandStructure {
    /// A structurally equal copy of the decomposition.
    fn clone(&self) -> (r: Self)
        ensures
            structure_eq_spec(r, *self),
    {
        match self {
            HandStructure::Standard { melds, pair } => {
                let mut ms: Vec<Meld> = Vec::new();
                let mut i: usize = 0;
                while i < melds.len()
                    invariant
                        i <= melds@.len(),
                        ms@ == melds@.take(i as int),
                    decreases melds@.len() - i,
                {
                    ms.push(melds[i]);
                    proof {
                        assert(ms@ =~= melds@.take((i + 1) as int));
                    }
                    i = i + 1;
                }
                proof {
                    assert(ms@ =~= melds@);
                }
                HandStructure::Standard { melds: ms, pair: *pair }
            }
            HandStructure::Chiitoitsu { pairs } => {
                let mut ps: Vec<Tile> = Vec::new();
                let mut i: usize = 0;
                while i < pairs.len()
                    invariant
                        i <= pairs@.len(),
                        ps@ == pairs@.take(i as int),
                    decreases pairs@.len() - i,
                {
                    ps.push(pairs[i]);
                    proof {
                        assert(ps@ =~= pairs@.take((i + 1) as int));
                    }
                    i = i + 1;
                }
                proof {
                    assert(ps@ =~= pairs@);
                }
                HandStructure::Chiitoitsu { pairs: ps }
            }
            HandStructure::Kokushi { pair } => HandStructure::Kokushi { pair: *pair },
        }
    }
}

/// Structural equality of two decompositions.
pub open spec fn structure_eq_spec(a: HandStructure, b: HandStructure) -> bool {
    match (a, b) {
        (HandStructure::Standard { melds: m1, pair: p1 },
         HandStructure::Standard { melds: m2, pair: p2 }) => m1@ == m2@ && p1 == p2,
        (HandStructure::Chiitoitsu { pairs: p1 }, HandStructure::Chiitoitsu { pairs: p2 }) =>
            p1@ == p2@,
        (HandStructure::Kokushi { pair: p1 }, HandStructure::Kokushi { pair: p2 }) => p1 == p2,
        _ => false,
    }
}

/// A decomposition is well formed when its parts are well-formed tiles and
/// melds, a standard hand has exactly four melds, a seven-pairs hand lists
/// seven distinct tiles in ascending canonical order, and a thirteen-orphans
/// pair is a terminal or honor.
pub open spec fn structure_wf(s: HandStructure) -> bool {
    match s {
        HandStructure::Standard { melds, pair } => melds@.len() == 4 && tile_wf(pair)
            && forall|k: int| 0 <= k < melds@.len() ==> meld_wf(#[trigger] melds@[k]),
        HandStructure::Chiitoitsu { pairs } => pairs@.len() == 7
            && (forall|k: int| 0 <= k < 7 ==> tile_wf(#[trigger] pairs@[k]))
            && (forall|a: int, b: int| 0 <= a < b < 7 ==>
                tile_index_spec(pairs@[a]) < tile_index_spec(pairs@[b])),
        HandStructure::Kokushi { pair } => tile_wf(pair) && is_kokushi_tile_spec(pair),
    }
}

/// How many tiles of canonical index `j` a decomposition holds in all.
pub open spec fn structure_occ(s: HandStructure, j: int) -> int {
    match s {
        HandStructure::Standard { melds, pair } => melds_occ(melds@, j)
            + if tile_index_spec(pair) == j {
            2int
        } else {
            0int
        },
        HandStructure::Chiitoitsu { pairs } => 2 * occ(pairs@, j),
        HandStructure::Kokushi { pair } => (if is_kokushi_tile_spec(tile_of_index(j)) {
            1int
        } else {
            0int
        }) + if tile_index_spec(pair) == j {
            1int
        } else {
            0int
        },
    }
}

/// The decomposition's tiles reconstruct exactly the given multiset.
pub open spec fn structure_matches(s: HandStructure, c: Seq<u8>) -> bool {
    forall|j: int| 0 <= j < 34 ==> #[trigger] c[j] as int == structure_occ(s, j)
}

/// Structural equality of two decompositions, decidable in executable code.
#[verifier::loop_isolation(false)]
pub fn structure_eq(a: &HandStructure, b: &HandStructure) -> (r: bool)
    ensures
        r == structure_eq_spec(*a, *b),
{
    match (a, b) {
        (HandStructure::Standard { melds: m1, pair: p1 },
         HandStructure::Standard { melds: m2, pair: p2 }) => {
            if !(p1 == p2) {
                return false;
            }
            if m1.len() != m2.len() {
                return false;
            }
            let mut i: usize = 0;
            while i < m1.len()
                invariant
                    i <= m1@.len(),
                    m1@.len() == m2@.len(),
                    forall|k: int| 0 <= k < i ==> m1@[k] == m2@[k],
                decreases m1@.len() - i,
            {
                if !(m1[i] == m2[i]) {
                    return false;
                }
                i = i + 1;
            }
            proof {
                assert(m1@ =~= m2@);
            }
            true
        }
        (HandStructure::Chiitoitsu { pairs: p1 }, HandStructure::Chiitoitsu { pairs: p2 }) => {
            if p1.len() != p2.len() {
                return false;
            }
            let mut i: usize = 0;
            while i < p1.len()
                invariant
                    i <= p1@.len(),
                    p1@.len() == p2@.len(),
                    forall|k: int| 0 <= k < i ==> p1@[k] == p2@[k],
                decreases p1@.len() - i,
            {
                if !(p1[i] == p2[i]) {
                    return false;
                }
                i = i + 1;
            }
            proof {
                assert(p1@ =~= p2@);
            }
            true
        }
        (HandStructure::Kokushi { pair: p1 }, HandStructure::Kokushi { pair: p2 }) => p1 == p2,
        _ => false,
    }
}

/// Some entry of `ys` is structurally equal to `x`.
pub open spec fn represented_in(x: HandStructure, ys: Seq<HandStructure>) -> bool {
    exists|k: int| 0 <= k < ys.len() && structure_eq_spec(x, #[trigger] ys[k])
}

/// No two entries of the list are structurally equal.
pub open spec fn pairwise_distinct(xs: Seq<HandStructure>) -> bool {
    forall|a: int, b: int| 0 <= a < b < xs.len() ==> !structure_eq_spec(xs[a], xs[b])
}

/// Drop every decomposition that structurally repeats an earlier one.
///
/// The result is free of structural duplicates, and a list that already has
/// none passes through structurally unchanged, so deduplication is
/// idempotent.
#[verifier::loop_isolation(false)]
#[verifier::rlimit(60)]
pub fn dedup_structures(xs: Vec<HandStructure>) -> (r: Vec<HandStructure>)
    ensures
        pairwise_distinct(r@),
        // every kept entry is structurally one of the inputs
        forall|k: int| 0 <= k < r@.len() ==> represented_in(#[trigger] r@[k], xs@),
        // every input is structurally represented
        forall|l: int| 0 <= l < xs@.len() ==> represented_in(#[trigger] xs@[l], r@),
        // idempotence: a list without duplicates passes through unchanged
        pairwise_distinct(xs@) ==> r@.len() == xs@.len()
            && forall|k: int| 0 <= k < xs@.len() ==>
                structure_eq_spec(#[trigger] r@[k], xs@[k]),
{
    let mut out: Vec<HandStructure> = Vec::new();
    let mut i: usize = 0;
    while i < xs.len()
        invariant
            i <= xs@.len(),
            pairwise_distinct(out@),
            forall|k: int| 0 <= k < out@.len() ==> represented_in(#[trigger] out@[k], xs@),
            forall|l: int| 0 <= l < i ==> represented_in(#[trigger] xs@[l], out@),
            pairwise_distinct(xs@) ==> out@.len() == i
                && forall|k: int| 0 <= k < i ==>
                    structure_eq_spec(#[trigger] out@[k], xs@[k]),
        decreases xs@.len() - i,
    {
        let mut found = false;
        let mut k: usize = 0;
        while k < out.len()
            invariant
                k <= out@.len(),
                found ==> represented_in(xs@[i as int], out@),
                !found ==> forall|k2: int| 0 <= k2 < k ==>
                    !structure_eq_spec(xs@[i as int], #[trigger] out@[k2]),
            decreases out@.len() - k,
        {
            if structure_eq(&xs[i], &out[k]) {
                found = true;
            }
            k = k + 1;
        }
        if !found {
            let ghost old_out = out@;
            out.push(xs[i].clone());
            proof {
                lemma_structure_eq_refl(xs@[i as int]);
                let last = out@.len() - 1;
                lemma_structure_eq_sym(out@[last], xs@[i as int]);
                assert forall|a: int, b: int| 0 <= a < b < out@.len() implies
                    !structure_eq_spec(out@[a], out@[b]) by {
                    if b == last {
                        if structure_eq_spec(out@[a], out@[b]) {
                            lemma_structure_eq_trans(xs@[i as int], out@[b], out@[a]);
                            lemma_structure_eq_sym(xs@[i as int], out@[a]);
                            assert(false);
                        }
                    }
                }
                assert forall|l: int| 0 <= l <= i as int implies
                    represented_in(#[trigger] xs@[l], out@) by {
                    if l == i as int {
                        assert(structure_eq_spec(xs@[l], out@[last]));
                    } else {
                        let k3 = choose|k3: int| 0 <= k3 < old_out.len()
                            && structure_eq_spec(xs@[l], #[trigger] old_out[k3]);
                        assert(structure_eq_spec(xs@[l], out@[k3]));
                    }
                }
            }
        } else {
            proof {
                if pairwise_distinct(xs@) {
                    // a duplicate inside a duplicate-free list is impossible
                    let k2 = choose|k2: int| 0 <= k2 < out@.len()
                        && structure_eq_spec(xs@[i as int], #[trigger] out@[k2]);
                    lemma_structure_eq_trans(xs@[i as int], out@[k2], xs@[k2]);
                    lemma_structure_eq_sym(xs@[i as int], xs@[k2]);
                    assert(false);
                }
            }
        }
        i = i + 1;
    }
    out
}

/// Structural equality keeps well-formedness and tile content.
pub proof fn lemma_structure_eq_preserves(a: HandStructure, b: HandStructure)
    requires
        structure_eq_spec(a, b),
    ensures
        structure_wf(a) == structure_wf(b),
        forall|j: int| structure_occ(a, j) == structure_occ(b, j),
        melds_all_closed(a) == melds_all_closed(b),
{
}

/// Structural equality keeps the called-meld provenance.
pub proof fn lemma_structure_eq_preserves_calls(a: HandStructure, b: HandStructure,
    called: Seq<Meld>)
    requires
        structure_eq_spec(a, b),
        standard_from_calls(b, called),
    ensures
        standard_from_calls(a, called),
{
    match (a, b) {
        (HandStructure::Standard { melds: m1, pair: p1 },
         HandStructure::Standard { melds: m2, pair: p2 }) => {
            let found = choose|found: Seq<Meld>| m2@.to_multiset()
                == called.to_multiset().add(#[trigger] found.to_multiset())
                && found.len() + called.len() == m2@.len()
                && forall|m: int| 0 <= m < found.len() ==> meld_wf(#[trigger] found[m])
                    && !meld_open_spec(found[m]) && !(found[m] is Kan);
            assert(m1@.to_multiset() == called.to_multiset().add(found.to_multiset()));
        }
        _ => {}
    }
}

/// Seven distinct pairs make up the whole multiset.
pub open spec fn chiitoitsu_complete(c: Seq<u8>) -> bool {
    distinct_counts(c, 34) == 7 && forall|j: int| 0 <= j < 34 ==> c[j] == 0 || #[trigger] c[j] == 2
}

/// One of each terminal and honor, with one extra copy of `p`.
pub open spec fn kokushi_complete(c: Seq<u8>, p: Tile) -> bool {
    tile_wf(p) && is_kokushi_tile_spec(p) && forall|j: int| 0 <= j < 34 ==>
        #[trigger] c[j] as int == (if is_kokushi_tile_spec(tile_of_index(j)) {
            1int
        } else {
            0int
        }) + if tile_index_spec(p) == j {
            1int
        } else {
            0int
        }
}

pub open spec fn kokushi_complete_some(c: Seq<u8>) -> bool {
    exists|p: Tile| #[trigger] kokushi_complete(c, p)
}

/// Exactly one of each terminal and honor, and nothing else: the
/// thirteen-sided wait before the winning tile arrives.
pub open spec fn kokushi_13_wait_spec(c: Seq<u8>) -> bool {
    forall|j: int| 0 <= j < 34 ==> #[trigger] c[j] as int
        == if is_kokushi_tile_spec(tile_of_index(j)) {
            1int
        } else {
            0int
        }
}

/// A witness that four closed melds and a pair rebuild the multiset exactly.
pub open spec fn standard_witness(ms: Seq<Meld>, p: Tile, c: Seq<u8>) -> bool {
    ms.len() == 4 && tile_wf(p)
    && (forall|k: int| 0 <= k < 4 ==> meld_wf(#[trigger] ms[k]) && !meld_open_spec(ms[k])
        && !(ms[k] is Kan))
    && forall|j: int| 0 <= j < 34 ==> #[trigger] c[j] as int == melds_occ(ms, j)
        + if tile_index_spec(p) == j {
            2int
        } else {
            0int
        }
}

/// The decomposition is a standard hand with this pair whose melds hold
/// exactly this multiset.
pub open spec fn matching_standard(s: HandStructure, msv: Multiset<Meld>, p: Tile) -> bool {
    match s {
        HandStructure::Standard { melds, pair } => pair == p && melds@.to_multiset() == msv,
        _ => false,
    }
}

/// Every meld of a standard decomposition was assembled by the player:
/// closed, and never a quad. The other shapes hold no melds at all.
pub open spec fn melds_all_closed(s: HandStructure) -> bool {
    match s {
        HandStructure::Standard { melds, pair } => forall|m: int| 0 <= m < melds@.len()
            ==> !meld_open_spec(#[trigger] melds@[m]) && !(melds@[m] is Kan),
        _ => true,
    }
}

/// A standard decomposition whose melds are the called melds plus newly
/// found ones, the new ones closed and never quads.
pub open spec fn standard_from_calls(s: HandStructure, called: Seq<Meld>) -> bool {
    match s {
        HandStructure::Standard { melds, pair } => exists|found: Seq<Meld>|
            melds@.to_multiset() == called.to_multiset().add(#[trigger] found.to_multiset())
            && found.len() + called.len() == melds@.len()
            && forall|m: int| 0 <= m < found.len() ==> meld_wf(#[trigger] found[m])
                && !meld_open_spec(found[m]) && !(found[m] is Kan),
        _ => false,
    }
}

/// Some listed decomposition is the standard hand (melds up to order, with
/// this pair).
pub open spec fn standard_listed(msv: Multiset<Meld>, p: Tile, r: Seq<HandStructure>) -> bool {
    exists|k: int| 0 <= k < r.len() && matching_standard(#[trigger] r.index(k), msv, p)
}

/// Carrying a listed standard hand into an extension of the list.
proof fn lemma_standard_listed_extend(msv: Multiset<Meld>, p: Tile, a: Seq<HandStructure>,
    b: Seq<HandStructure>)
    requires
        standard_listed(msv, p, a),
        a.len() <= b.len(),
        forall|k: int| 0 <= k < a.len() ==> #[trigger] b[k] == a[k],
    ensures
        standard_listed(msv, p, b),
{
    let k = choose|k: int| 0 <= k < a.len() && matching_standard(#[trigger] a.index(k), msv, p);
    assert(matching_standard(b.index(k), msv, p));
}

/// A witness that the hand tiles split into a pair and exactly the closed
/// melds still to be found beside the called ones.
pub open spec fn called_standard_witness(found: Seq<Meld>, p: Tile, hand: Seq<u8>,
    called: Seq<Meld>) -> bool {
    found.len() == 4 - called.len() && tile_wf(p)
    && (forall|k: int| 0 <= k < found.len() ==> meld_wf(#[trigger] found[k])
        && !meld_open_spec(found[k]) && !(found[k] is Kan))
    && forall|j: int| 0 <= j < 34 ==> #[trigger] hand[j] as int == melds_occ(found, j)
        + if tile_index_spec(p) == j {
            2int
        } else {
            0int
        }
}

/// Some four melds plus a pair rebuild the multiset exactly.
pub open spec fn standard_complete(c: Seq<u8>) -> bool {
    exists|ms: Seq<Meld>, p: Tile| #[trigger] standard_witness(ms, p, c)
}

/// The multiset admits some legal winning configuration.
pub open spec fn winnable(c: Seq<u8>) -> bool {
    chiitoitsu_complete(c) || kokushi_complete_some(c) || standard_complete(c)
}

/// Does canonical index `j` name a terminal or honor?
fn is_kokushi_index(j: usize) -> (r: bool)
    requires
        j < 34,
    ensures
        r == is_kokushi_tile_spec(tile_of_index(j as int)),
{
    if j < 27 {
        j % 9 == 0 || j % 9 == 8
    } else {
        true
    }
}

/// Is the multiset exactly seven distinct pairs?
pub fn is_chiitoitsu(counts: &TileCounts) -> (r: bool)
    requires
        counts.wf(),
    ensures
        r == chiitoitsu_complete(counts@),
{
    let mut pairs: u32 = 0;
    let mut ok = true;
    let mut j: usize = 0;
    while j < 34
        invariant
            counts.wf(),
            j <= 34,
            pairs as int == distinct_counts(counts@, j as int),
            pairs <= j,
            ok == (forall|jj: int| 0 <= jj < j ==> counts@[jj] == 0
                || #[trigger] counts@[jj] == 2),
        decreases 34 - j,
    {
        let c = counts.get_idx(j);
        if c != 0 && c != 2 {
            ok = false;
        }
        if c > 0 {
            pairs = pairs + 1;
        }
        j = j + 1;
    }
    ok && pairs == 7
}

/// If the multiset is thirteen orphans plus one duplicate, name the
/// duplicated tile.
#[verifier::loop_isolation(false)]
fn check_kokushi(counts: &TileCounts) -> (r: Option<Tile>)
    requires
        counts.wf(),
    ensures
        match r {
            Some(p) => kokushi_complete(counts@, p),
            None => forall|p: Tile| !#[trigger] kokushi_complete(counts@, p),
        },
{
    let mut pair_found = false;
    let mut pair_idx: usize = 0;
    let mut j: usize = 0;
    while j < 34
        invariant
            j <= 34,
            pair_found ==> pair_idx < j && counts@[pair_idx as int] == 2
                && is_kokushi_tile_spec(tile_of_index(pair_idx as int)),
            forall|jj: int| 0 <= jj < j ==> #[trigger] counts@[jj] as int
                == (if is_kokushi_tile_spec(tile_of_index(jj)) {
                    1int
                } else {
                    0int
                }) + if pair_found && jj == pair_idx {
                    1int
                } else {
                    0int
                },
        decreases 34 - j,
    {
        let kok = is_kokushi_index(j);
        let c = counts.get_idx(j);
        if kok {
            if c < 1 || c > 2 {
                proof {
                    assert forall|p: Tile| !#[trigger] kokushi_complete(counts@, p) by {
                        if kokushi_complete(counts@, p) {
                            lemma_tile_index_bijective(p);
                            assert(counts@[j as int] as int
                                == 1 + if tile_index_spec(p) == j as int { 1int } else { 0int });
                        }
                    }
                }
                return None;
            }
            if c == 2 {
                if pair_found {
                    proof {
                        assert forall|p: Tile| !#[trigger] kokushi_complete(counts@, p) by {
                            if kokushi_complete(counts@, p) {
                                assert(counts@[pair_idx as int] as int
                                    == 1 + if tile_index_spec(p) == pair_idx as int { 1int } else { 0int });
                                assert(tile_index_spec(p) == pair_idx as int);
                                assert(counts@[j as int] as int
                                    == 1 + if tile_index_spec(p) == j as int { 1int } else { 0int });
                                assert(tile_index_spec(p) == j as int);
                            }
                        }
                    }
                    return None;
                }
                pair_found = true;
                pair_idx = j;
            }
        } else {
            if c != 0 {
                proof {
                    assert forall|p: Tile| !#[trigger] kokushi_complete(counts@, p) by {
                        if kokushi_complete(counts@, p) {
                            lemma_tile_index_bijective(p);
                            assert(counts@[j as int] as int
                                == 0 + if tile_index_spec(p) == j as int { 1int } else { 0int });
                            if tile_index_spec(p) == j as int {
                                assert(tile_of_index(j as int) == p);
                            }
                        }
                    }
                }
                return None;
            }
        }
        j = j + 1;
    }
    if pair_found {
        let p = index_to_tile(pair_idx);
        proof {
            lemma_index_tile_bijective(pair_idx as int);
        }
        Some(p)
    } else {
        proof {
            assert forall|p: Tile| !#[trigger] kokushi_complete(counts@, p) by {
                if kokushi_complete(counts@, p) {
                    lemma_tile_index_bijective(p);
                    let pj = tile_index_spec(p);
                    assert(counts@[pj] as int
                        == (if is_kokushi_tile_spec(tile_of_index(pj)) { 1int } else { 0int }) + 1);
                }
            }
        }
        None
    }
}

/// Is the multiset exactly the thirteen-sided thirteen-orphans wait?
pub fn is_kokushi_13_wait(counts: &TileCounts) -> (r: bool)
    requires
        counts.wf(),
    ensures
        r == kokushi_13_wait_spec(counts@),
{
    let mut ok = true;
    let mut j: usize = 0;
    while j < 34
        invariant
            counts.wf(),
            j <= 34,
            ok == (forall|jj: int| 0 <= jj < j ==> #[trigger] counts@[jj] as int
                == if is_kokushi_tile_spec(tile_of_index(jj)) {
                    1int
                } else {
                    0int
                }),
        decreases 34 - j,
    {
        let kok = is_kokushi_index(j);
        let c = counts.get_idx(j);
        let want: u8 = if kok {
            1
        } else {
            0
        };
        if c != want {
            ok = false;
        }
        j = j + 1;
    }
    ok
}

/// A list of closed melds of the required length that consumes the whole
/// multiset.
pub open spec fn good_meld_list(ms: Seq<Meld>, c: Seq<u8>, needed: int) -> bool {
    ms.len() == needed
    && (forall|k: int| 0 <= k < ms.len() ==> meld_wf(#[trigger] ms[k])
        && !meld_open_spec(ms[k]) && !(ms[k] is Kan))
    && forall|j: int| 0 <= j < 34 ==> #[trigger] c[j] as int == melds_occ(ms, j)
}

/// Some entry of the result list holds exactly this multiset of melds.
pub open spec fn multiset_in(msv: Multiset<Meld>, r: Seq<Vec<Meld>>) -> bool {
    exists|k: int| 0 <= k < r.len() && (#[trigger] r[k])@.to_multiset() == msv
}

/// Inserting an element anywhere inserts it into the sequence's multiset.
proof fn lemma_to_multiset_insert_at(s: Seq<Meld>, p: int, m: Meld)
    requires
        0 <= p <= s.len(),
    ensures
        s.insert(p, m).to_multiset() == s.to_multiset().insert(m),
{
    let t = s.insert(p, m);
    assert(t.remove(p) =~= s);
    assert(t[p] == m);
    assert(t.remove(p).to_multiset() =~= t.to_multiset().remove(t[p]));
    assert(t.contains(m)) by {
        assert(t[p] == m);
    }
    assert(t.to_multiset().count(m) > 0);
    assert forall|e: Meld| t.to_multiset().count(e)
        == s.to_multiset().insert(m).count(e) by {
        if e == m {
            assert(s.to_multiset().count(m) == t.to_multiset().count(m) - 1);
        } else {
            assert(t.to_multiset().remove(m).count(e) == t.to_multiset().count(e));
        }
    }
    assert(t.to_multiset() =~= s.to_multiset().insert(m));
}

/// Prepending an element inserts it into the sequence's multiset.
proof fn lemma_to_multiset_prepend(s: Seq<Meld>, m: Meld)
    ensures
        s.insert(0, m).to_multiset() == s.to_multiset().insert(m),
{
    lemma_to_multiset_insert_at(s, 0, m);
}

/// Enumerate every way to split the tiles at or above `idx` into exactly
/// `needed` closed melds, always consuming the lowest remaining tile first.
/// The enumeration is complete: every list of closed melds that rebuilds
/// the multiset appears in the result, up to the order of its melds.
#[verifier::loop_isolation(false)]
#[verifier::rlimit(100)]
fn find_all_meld_combinations(counts: TileCounts, idx: usize, needed: u8) -> (r: Vec<Vec<Meld>>)
    requires
        counts.wf(),
        idx <= 34,
        forall|j: int| 0 <= j < idx ==> counts@[j] == 0,
        needed <= 4,
    ensures
        forall|k: int| 0 <= k < r@.len() ==>
            good_meld_list(#[trigger] r@[k]@, counts@, needed as int),
        forall|ms: Seq<Meld>| #[trigger] good_meld_list(ms, counts@, needed as int)
            ==> multiset_in(ms.to_multiset(), r@),
    decreases needed, 34 - idx,
{
    if needed == 0 {
        let mut all_zero = true;
        let mut j: usize = idx;
        while j < 34
            invariant
                idx <= j <= 34,
                all_zero == (forall|jj: int| idx <= jj < j ==> counts@[jj] == 0),
            decreases 34 - j,
        {
            if counts.get_idx(j) > 0 {
                all_zero = false;
            }
            j = j + 1;
        }
        let mut r: Vec<Vec<Meld>> = Vec::new();
        if all_zero {
            r.push(Vec::new());
        }
        proof {
            assert forall|ms: Seq<Meld>| #[trigger] good_meld_list(ms, counts@, 0)
                implies multiset_in(ms.to_multiset(), r@) by {
                if all_zero {
                    assert(ms =~= r@[0]@);
                    assert(r@[0]@.to_multiset() == ms.to_multiset());
                } else {
                    let jj = choose|jj: int| idx <= jj < 34 && counts@[jj] != 0;
                    assert(counts@[jj] as int == melds_occ(ms, jj));
                    assert(ms.len() == 0);
                    assert(false);
                }
            }
        }
        return r;
    }
    if idx >= 34 {
        let r: Vec<Vec<Meld>> = Vec::new();
        proof {
            assert forall|ms: Seq<Meld>| #[trigger] good_meld_list(ms, counts@, needed as int)
                implies multiset_in(ms.to_multiset(), r@) by {
                // no tiles remain, yet a meld would need some
                assert(ms.len() >= 1);
                let m0 = ms[0];
                let j0 = tile_index_spec(meld_tile_spec(m0));
                assert(meld_wf(m0));
                lemma_tile_index_bijective(meld_tile_spec(m0));
                assert(meld_occ(m0, j0) > 0);
                lemma_melds_occ_member(ms, 0, j0);
                assert(counts@[j0] == 0);
                assert(false);
            }
        }
        return r;
    }
    let c = counts.get_idx(idx);
    if c == 0 {
        return find_all_meld_combinations(counts, idx + 1, needed);
    }
    let mut results: Vec<Vec<Meld>> = Vec::new();
    let tile = index_to_tile(idx);

    let ghost trip_view = counts@.update(idx as int, (c - 3) as u8);
    let ghost trip_m = Meld::Koutsu(tile_of_index(idx as int), false);
    let ghost mut trip_complete = false;
    let ghost mut trip_enumerated: Seq<Vec<Meld>> = Seq::empty();
    let ghost mut trip_leftover: Seq<Vec<Meld>> = Seq::empty();
    // take three copies of the lowest tile as a triplet
    if c >= 3 {
        let mut after = counts.duplicate();
        after.set_idx(idx, c - 3);
        let m = Meld::Koutsu(tile, false);
        let mut sub = find_all_meld_combinations(after, idx, needed - 1);
        let ghost sub_orig = sub@;
        proof {
            trip_enumerated = sub@;
        }
        while sub.len() > 0
            invariant
                counts.wf(),
                m == trip_m,
                sub_orig == trip_enumerated,
                forall|k: int| 0 <= k < sub@.len() ==>
                    good_meld_list(#[trigger] sub@[k]@, trip_view, needed - 1),
                forall|k: int| 0 <= k < results@.len() ==>
                    good_meld_list(#[trigger] results@[k]@, counts@, needed as int),
                forall|msv: Multiset<Meld>| #[trigger] multiset_in(msv, sub_orig)
                    ==> multiset_in(msv, sub@) || multiset_in(msv.insert(m), results@),
            decreases sub@.len(),
        {
            let ghost sub_old = sub@;
            let list = sub.pop().unwrap();
            proof {
                assert(list == sub_old[sub_old.len() - 1]);
                assert(good_meld_list(list@, trip_view, needed - 1));
            }
            let mut nl: Vec<Meld> = Vec::new();
            nl.push(m);
            let mut q: usize = 0;
            while q < list.len()
                invariant
                    q <= list@.len(),
                    nl@ == seq![m].add(list@.take(q as int)),
                decreases list@.len() - q,
            {
                nl.push(list[q]);
                proof {
                    assert(nl@ =~= seq![m].add(list@.take(q as int + 1)));
                }
                q = q + 1;
            }
            let ghost results_old = results@;
            proof {
                assert(nl@ =~= seq![m].add(list@));
                assert(nl@ =~= list@.insert(0, m));
                assert forall|j: int| 0 <= j < 34 implies
                    #[trigger] counts@[j] as int == melds_occ(nl@, j) by {
                    lemma_melds_occ_insert(list@, 0, m, j);
                    assert(melds_occ(list@, j) == trip_view[j] as int);
                }
                lemma_to_multiset_prepend(list@, m);
            }
            results.push(nl);
            proof {
                assert forall|msv: Multiset<Meld>| #[trigger] multiset_in(msv, sub_orig)
                    implies multiset_in(msv, sub@) || multiset_in(msv.insert(m), results@) by {
                    if multiset_in(msv, sub_old) {
                        let k = choose|k: int| 0 <= k < sub_old.len()
                            && (#[trigger] sub_old[k])@.to_multiset() == msv;
                        if k < sub_old.len() - 1 {
                            assert(sub@[k] == sub_old[k]);
                            assert(multiset_in(msv, sub@));
                        } else {
                            assert(list@.to_multiset() == msv);
                            assert(results@[results@.len() - 1]@.to_multiset()
                                == msv.insert(m));
                            assert(multiset_in(msv.insert(m), results@));
                        }
                    } else {
                        let k = choose|k: int| 0 <= k < results_old.len()
                            && (#[trigger] results_old[k])@.to_multiset() == msv.insert(m);
                        assert(results@[k] == results_old[k]);
                    }
                }
            }
        }
        proof {
            trip_complete = true;
            trip_leftover = sub@;
            assert(trip_leftover.len() == 0);
        }
    }
    let ghost results_mid = results@;

    // take the lowest tile as the start of a sequence
    let ghost seq_view = counts@.update(idx as int, (c - 1) as u8).update(
        idx as int + 1, (counts@[idx as int + 1] - 1) as u8).update(
        idx as int + 2, (counts@[idx as int + 2] - 1) as u8);
    let ghost mut seq_complete = false;
    let ghost seq_m = Meld::Shuntsu(tile_of_index(idx as int), false);
    let ghost mut seq_enumerated: Seq<Vec<Meld>> = Seq::empty();
    let ghost mut seq_leftover: Seq<Vec<Meld>> = Seq::empty();
    if idx < 27 && idx % 9 <= 6 {
        if counts.get_idx(idx + 1) >= 1 && counts.get_idx(idx + 2) >= 1 {
            let mut after = counts.duplicate();
            after.set_idx(idx, c - 1);
            let c1 = after.get_idx(idx + 1);
            after.set_idx(idx + 1, c1 - 1);
            let c2 = after.get_idx(idx + 2);
            after.set_idx(idx + 2, c2 - 1);
            let m = Meld::Shuntsu(tile, false);
            proof {
                assert(meld_wf(m));
                assert(m == seq_m);
            }
            let mut sub = find_all_meld_combinations(after, idx, needed - 1);
            let ghost sub_orig = sub@;
            proof {
                seq_enumerated = sub@;
            }
            while sub.len() > 0
                invariant
                    counts.wf(),
                    m == seq_m,
                    sub_orig == seq_enumerated,
                    forall|k: int| 0 <= k < sub@.len() ==>
                        good_meld_list(#[trigger] sub@[k]@, seq_view, needed - 1),
                    forall|k: int| 0 <= k < results@.len() ==>
                        good_meld_list(#[trigger] results@[k]@, counts@, needed as int),
                    results_mid.len() <= results@.len(),
                    forall|k: int| 0 <= k < results_mid.len()
                        ==> #[trigger] results@[k] == results_mid[k],
                    forall|msv: Multiset<Meld>| #[trigger] multiset_in(msv, sub_orig)
                        ==> multiset_in(msv, sub@) || multiset_in(msv.insert(m), results@),
                decreases sub@.len(),
            {
                let ghost sub_old = sub@;
                let list = sub.pop().unwrap();
                proof {
                    assert(list == sub_old[sub_old.len() - 1]);
                    assert(good_meld_list(list@, seq_view, needed - 1));
                }
                let mut nl: Vec<Meld> = Vec::new();
                nl.push(m);
                let mut q: usize = 0;
                while q < list.len()
                    invariant
                        q <= list@.len(),
                        nl@ == seq![m].add(list@.take(q as int)),
                    decreases list@.len() - q,
                {
                    nl.push(list[q]);
                    proof {
                        assert(nl@ =~= seq![m].add(list@.take(q as int + 1)));
                    }
                    q = q + 1;
                }
                let ghost results_old = results@;
                proof {
                    assert(nl@ =~= seq![m].add(list@));
                    assert(nl@ =~= list@.insert(0, m));
                    assert forall|j: int| 0 <= j < 34 implies
                        #[trigger] counts@[j] as int == melds_occ(nl@, j) by {
                        lemma_melds_occ_insert(list@, 0, m, j);
                        assert(melds_occ(list@, j) == seq_view[j] as int);
                    }
                    lemma_to_multiset_prepend(list@, m);
                }
                results.push(nl);
                proof {
                    assert forall|msv: Multiset<Meld>| #[trigger] multiset_in(msv, sub_orig)
                        implies multiset_in(msv, sub@) || multiset_in(msv.insert(m),
                        results@) by {
                        if multiset_in(msv, sub_old) {
                            let k = choose|k: int| 0 <= k < sub_old.len()
                                && (#[trigger] sub_old[k])@.to_multiset() == msv;
                            if k < sub_old.len() - 1 {
                                assert(sub@[k] == sub_old[k]);
                                assert(multiset_in(msv, sub@));
                            } else {
                                assert(list@.to_multiset() == msv);
                                assert(results@[results@.len() - 1]@.to_multiset()
                                    == msv.insert(m));
                            }
                        } else {
                            let k = choose|k: int| 0 <= k < results_old.len()
                                && (#[trigger] results_old[k])@.to_multiset()
                                    == msv.insert(m);
                            assert(results@[k] == results_old[k]);
                        }
                    }
                }
            }
            proof {
                seq_complete = true;
                seq_leftover = sub@;
                assert(seq_leftover.len() == 0);
            }
        }
    }
    let ghost results_end = results@;

    proof {
        lemma_index_tile_bijective(idx as int);
        // entries present after the triplet branch survive to the end
        assert forall|msv: Multiset<Meld>| #[trigger] multiset_in(msv, results_mid)
            implies multiset_in(msv, results_end) by {
            let k = choose|k: int| 0 <= k < results_mid.len()
                && (#[trigger] results_mid[k])@.to_multiset() == msv;
            assert(results_end[k] == results_mid[k]);
        }
        assert forall|ms: Seq<Meld>| #[trigger] good_meld_list(ms, counts@, needed as int)
            implies multiset_in(ms.to_multiset(), results@) by {
            // the lowest remaining tile must start some meld of the list
            assert(melds_occ(ms, idx as int) == c as int);
            let k = lemma_melds_occ_positive(ms, idx as int);
            let mk = ms[k];
            assert(meld_wf(mk) && !meld_open_spec(mk));
            let start = meld_tile_spec(mk);
            lemma_tile_index_bijective(start);
            let j0 = tile_index_spec(start);
            // a meld starting below `idx` would need tiles that are gone
            assert(j0 >= idx) by {
                if j0 < idx {
                    assert(meld_occ(mk, j0) >= 1);
                    lemma_melds_occ_member(ms, k, j0);
                    assert(counts@[j0] == 0);
                }
            }
            assert(j0 == idx) by {
                if j0 > idx {
                    assert(meld_occ(mk, idx as int) == 0);
                }
            }
            assert(start == tile_of_index(idx as int));
            let rest = ms.remove(k);
            assert(rest.to_multiset() == ms.to_multiset().remove(mk));
            assert(ms.to_multiset().count(mk) > 0) by {
                assert(ms.contains(mk));
            }
            assert(ms.to_multiset() =~= rest.to_multiset().insert(mk));
            assert forall|kk: int| 0 <= kk < rest.len() implies meld_wf(#[trigger] rest[kk])
                && !meld_open_spec(rest[kk]) && !(rest[kk] is Kan) by {
                if kk < k {
                    assert(rest[kk] == ms[kk]);
                } else {
                    assert(rest[kk] == ms[kk + 1]);
                }
            }
            match mk {
                Meld::Koutsu(t, open) => {
                    assert(!open);
                    lemma_melds_occ_member(ms, k, idx as int);
                    assert(c >= 3);
                    assert(trip_complete);
                    assert(good_meld_list(rest, trip_view, needed - 1)) by {
                        assert forall|j: int| 0 <= j < 34 implies #[trigger] trip_view[j] as int
                            == melds_occ(rest, j) by {
                            lemma_melds_occ_remove(ms, k, j);
                        }
                    }
                    assert(mk == trip_m);
                    // the sub-search enumerated the remainder, and the
                    // consuming loop moved it, prefixed, into the results
                    assert(multiset_in(rest.to_multiset(), trip_enumerated));
                    assert(!multiset_in(rest.to_multiset(), trip_leftover));
                    assert(multiset_in(rest.to_multiset().insert(trip_m), results_mid));
                    assert(rest.to_multiset().insert(mk) == ms.to_multiset());
                    assert(multiset_in(ms.to_multiset(), results_end));
                }
                Meld::Shuntsu(t, open) => {
                    assert(!open);
                    // the two following tiles must be present
                    assert(counts@[idx as int + 1] >= 1) by {
                        assert(meld_occ(mk, idx as int + 1) == 1);
                        lemma_melds_occ_member(ms, k, idx as int + 1);
                    }
                    assert(counts@[idx as int + 2] >= 1) by {
                        assert(meld_occ(mk, idx as int + 2) == 1);
                        lemma_melds_occ_member(ms, k, idx as int + 2);
                    }
                    assert(idx < 27 && idx % 9 <= 6) by {
                        assert(tile_wf(t) && t is Suited);
                    }
                    assert(seq_complete);
                    assert(good_meld_list(rest, seq_view, needed - 1)) by {
                        assert forall|j: int| 0 <= j < 34 implies #[trigger] seq_view[j] as int
                            == melds_occ(rest, j) by {
                            lemma_melds_occ_remove(ms, k, j);
                        }
                    }
                    assert(mk == seq_m);
                    assert(multiset_in(rest.to_multiset(), seq_enumerated));
                    assert(!multiset_in(rest.to_multiset(), seq_leftover));
                    assert(multiset_in(rest.to_multiset().insert(seq_m), results_end));
                    assert(rest.to_multiset().insert(mk) == ms.to_multiset());
                }
                Meld::Kan(t, kt) => {
                    // the search enumerates triplets and sequences only
                    assert(false);
                }
            }
            assert(multiset_in(ms.to_multiset(), results_end));
        }
    }
    results
}

pub proof fn lemma_structure_eq_refl(a: HandStructure)
    ensures
        structure_eq_spec(a, a),
{
}

pub proof fn lemma_structure_eq_sym(a: HandStructure, b: HandStructure)
    ensures
        structure_eq_spec(a, b) == structure_eq_spec(b, a),
{
}

pub proof fn lemma_structure_eq_trans(a: HandStructure, b: HandStructure, c: HandStructure)
    requires
        structure_eq_spec(a, b),
        structure_eq_spec(b, c),
    ensures
        structure_eq_spec(a, c),
{
}

/// Melds sorted by (tile index, sequence before triplet before quad, closed
/// before open): the canonical presentation inside a standard decomposition.
pub open spec fn meld_rank(m: Meld) -> int {
    tile_index_spec(meld_tile_spec(m)) * 8 + (match m {
        Meld::Shuntsu(_, _) => 0int,
        Meld::Koutsu(_, _) => 2int,
        Meld::Kan(_, _) => 4int,
    }) + if meld_open_spec(m) {
        1int
    } else {
        0int
    }
}

/// The canonical rank used to sort melds inside a decomposition.
fn meld_rank_exec(m: &Meld) -> (r: usize)
    requires
        meld_wf(*m),
    ensures
        r == meld_rank(*m),
{
    let base: usize = tile_to_index(m.tile()) * 8;
    let kind: usize = match m {
        Meld::Shuntsu(_, _) => 0,
        Meld::Koutsu(_, _) => 2,
        Meld::Kan(_, _) => 4,
    };
    let open: usize = if m.is_open() {
        1
    } else {
        0
    };
    base + kind + open
}

pub open spec fn melds_sorted(ms: Seq<Meld>) -> bool {
    forall|a: int, b: int| 0 <= a < b < ms.len() ==> meld_rank(ms[a]) <= meld_rank(ms[b])
}

/// The first position in `out` whose meld ranks above `mr`.
fn insertion_point(out: &Vec<Meld>, mr: usize) -> (p: usize)
    requires
        forall|k: int| 0 <= k < out@.len() ==> meld_wf(#[trigger] out@[k]),
    ensures
        p <= out@.len(),
        forall|k: int| 0 <= k < p ==> meld_rank(#[trigger] out@[k]) <= mr as int,
        p < out@.len() ==> meld_rank(out@[p as int]) > mr as int,
{
    let mut q: usize = 0;
    while q < out.len()
        invariant
            q <= out@.len(),
            forall|k: int| 0 <= k < out@.len() ==> meld_wf(#[trigger] out@[k]),
            forall|k: int| 0 <= k < q ==> meld_rank(#[trigger] out@[k]) <= mr as int,
        decreases out@.len() - q,
    {
        if meld_rank_exec(&out[q]) > mr {
            return q;
        }
        q = q + 1;
    }
    q
}

/// Sort melds into their canonical order, keeping the same tiles.
pub fn sort_melds(input: &Vec<Meld>) -> (r: Vec<Meld>)
    requires
        forall|k: int| 0 <= k < input@.len() ==> meld_wf(#[trigger] input@[k]),
    ensures
        r@.len() == input@.len(),
        melds_sorted(r@),
        forall|j: int| melds_occ(r@, j) == melds_occ(input@, j),
        forall|k: int| 0 <= k < r@.len() ==> input@.contains(#[trigger] r@[k]),
        r@.to_multiset() == input@.to_multiset(),
{
    let mut out: Vec<Meld> = Vec::new();
    let mut i: usize = 0;
    while i < input.len()
        invariant
            i <= input@.len(),
            out@.len() == i,
            forall|k: int| 0 <= k < input@.len() ==> meld_wf(#[trigger] input@[k]),
            forall|k: int| 0 <= k < out@.len() ==> meld_wf(#[trigger] out@[k]),
            melds_sorted(out@),
            forall|j: int| melds_occ(out@, j) == melds_occ(input@.take(i as int), j),
            forall|k: int| 0 <= k < out@.len() ==> input@.contains(#[trigger] out@[k]),
            out@.to_multiset() == input@.take(i as int).to_multiset(),
        decreases input@.len() - i,
    {
        let m = input[i];
        let mr = meld_rank_exec(&m);
        let p = insertion_point(&out, mr);
        let ghost old_out = out@;
        out.insert(p, m);
        proof {
            lemma_to_multiset_insert_at(old_out, p as int, m);
            assert(input@.take((i + 1) as int) =~= input@.take(i as int).push(m));
            assert(input@.take(i as int).push(m).to_multiset()
                =~= input@.take(i as int).to_multiset().insert(m));
            assert forall|j: int| melds_occ(out@, j)
                == melds_occ(input@.take((i + 1) as int), j) by {
                lemma_melds_occ_insert(old_out, p as int, m, j);
                assert(input@.take((i + 1) as int).drop_last() =~= input@.take(i as int));
                assert(input@.take((i + 1) as int).last() == input@[i as int]);
            }
            // ranks at or above the insertion point exceed the new meld's rank
            assert forall|k: int| p <= k < old_out.len() implies
                meld_rank(#[trigger] old_out[k]) > mr as int by {
                if k > p {
                    assert(meld_rank(old_out[p as int]) <= meld_rank(old_out[k]));
                }
            }
            assert forall|a: int, b: int| 0 <= a < b < out@.len() implies
                meld_rank(out@[a]) <= meld_rank(out@[b]) by {
                if a < p && b < p {
                    assert(out@[a] == old_out[a] && out@[b] == old_out[b]);
                } else if a < p && b == p {
                    assert(out@[a] == old_out[a] && out@[b] == m);
                } else if a < p && b > p {
                    assert(out@[a] == old_out[a] && out@[b] == old_out[b - 1]);
                } else if a == p && b > p {
                    assert(out@[a] == m && out@[b] == old_out[b - 1]);
                } else {
                    assert(out@[a] == old_out[a - 1] && out@[b] == old_out[b - 1]);
                }
            }
        }
        i = i + 1;
    }
    proof {
        assert(input@.take(input@.len() as int) =~= input@);
    }
    out
}

/// All structurally distinct decompositions of the multiset: thirteen
/// orphans, seven pairs, and every standard four-melds-plus-pair split.
/// Each returned decomposition rebuilds the input multiset exactly.
#[verifier::loop_isolation(false)]
pub fn decompose_hand(counts: &TileCounts) -> (r: Vec<HandStructure>)
    requires
        counts.wf(),
    ensures
        forall|k: int| 0 <= k < r@.len() ==> structure_wf(#[trigger] r@[k])
            && structure_matches(r@[k], counts@),
        pairwise_distinct(r@),
        // a seven-pairs multiset is always decomposed
        chiitoitsu_complete(counts@) ==> exists|k: int| 0 <= k < r@.len()
            && (#[trigger] r@[k]) is Chiitoitsu,
        // a thirteen-orphans multiset is always decomposed
        kokushi_complete_some(counts@) ==> exists|k: int| 0 <= k < r@.len()
            && (#[trigger] r@[k]) is Kokushi,
        // every standard split of the multiset is decomposed, its melds
        // listed up to order
        forall|ms: Seq<Meld>, p: Tile| #[trigger] standard_witness(ms, p, counts@)
            ==> standard_listed(ms.to_multiset(), p, r@),
        // so a winnable multiset always decomposes
        winnable(counts@) ==> r@.len() > 0,
        // every meld of every standard decomposition was assembled from the
        // hand: closed, and never a quad
        forall|k: int| 0 <= k < r@.len() ==> melds_all_closed(#[trigger] r@[k]),
{
    let mut results: Vec<HandStructure> = Vec::new();

    let kok = check_kokushi(counts);
    if let Some(pair) = kok {
        results.push(HandStructure::Kokushi { pair });
    }

    if is_chiitoitsu(counts) {
        let mut pairs: Vec<Tile> = Vec::new();
        let mut j: usize = 0;
        while j < 34
            invariant
                j <= 34,
                forall|k: int| 0 <= k < pairs@.len() ==> tile_wf(#[trigger] pairs@[k])
                    && tile_index_spec(pairs@[k]) < j,
                forall|a: int, b: int| 0 <= a < b < pairs@.len() ==>
                    tile_index_spec(pairs@[a]) < tile_index_spec(pairs@[b]),
                forall|jj: int| 0 <= jj < 34 ==> #[trigger] occ(pairs@, jj)
                    == if jj < j && counts@[jj] == 2 {
                        1int
                    } else {
                        0int
                    },
                pairs@.len() as int == distinct_counts(counts@, j as int),
            decreases 34 - j,
        {
            let ghost pairs_old = pairs@;
            if counts.get_idx(j) == 2 {
                pairs.push(index_to_tile(j));
                proof {
                    lemma_index_tile_bijective(j as int);
                    assert forall|jj: int| 0 <= jj < 34 implies #[trigger] occ(pairs@, jj)
                        == if jj < j + 1 && counts@[jj] == 2 {
                            1int
                        } else {
                            0int
                        } by {
                        crate::tile::lemma_occ_push(pairs_old, tile_of_index(j as int), jj);
                    }
                }
            }
            j = j + 1;
        }
        results.push(HandStructure::Chiitoitsu { pairs });
    }
    let ghost head = results@;
    proof {
        if chiitoitsu_complete(counts@) {
            assert(head[head.len() - 1] is Chiitoitsu);
        }
        if kokushi_complete_some(counts@) {
            assert(kok is Some);
            assert(head[0] is Kokushi);
        }
    }

    let mut pi: usize = 0;
    while pi < 34
        invariant
            counts.wf(),
            pi <= 34,
            head.len() <= results@.len(),
            forall|k: int| 0 <= k < head.len() ==> results@[k] == head[k],
            forall|k: int| 0 <= k < results@.len() ==> structure_wf(#[trigger] results@[k])
                && structure_matches(results@[k], counts@) && melds_all_closed(results@[k]),
            forall|ms: Seq<Meld>, p: Tile| #[trigger] standard_witness(ms, p, counts@)
                && tile_index_spec(p) < pi ==> standard_listed(ms.to_multiset(), p, results@),
        decreases 34 - pi,
    {
        let ghost results_at_pi = results@;
        let c2 = counts.get_idx(pi);
        if c2 >= 2 {
            let mut rem = counts.duplicate();
            rem.set_idx(pi, c2 - 2);
            let pair_tile = index_to_tile(pi);
            let ghost rem_view = counts@.update(pi as int, (c2 - 2) as u8);
            let mut combos = find_all_meld_combinations(rem, 0, 4);
            let ghost combos_orig = combos@;
            while combos.len() > 0
                invariant
                    counts.wf(),
                    pi < 34,
                    pair_tile == tile_of_index(pi as int),
                    head.len() <= results@.len(),
                    results_at_pi.len() <= results@.len(),
                    forall|k: int| 0 <= k < head.len() ==> results@[k] == head[k],
                    forall|k: int| 0 <= k < results_at_pi.len()
                        ==> #[trigger] results@[k] == results_at_pi[k],
                    forall|k: int| 0 <= k < combos@.len() ==>
                        good_meld_list(#[trigger] combos@[k]@, rem_view, 4),
                    forall|k: int| 0 <= k < results@.len() ==> structure_wf(#[trigger] results@[k])
                        && structure_matches(results@[k], counts@)
                        && melds_all_closed(results@[k]),
                    forall|msv: Multiset<Meld>| #[trigger] multiset_in(msv, combos_orig)
                        ==> multiset_in(msv, combos@)
                            || standard_listed(msv, pair_tile, results@),
                decreases combos@.len(),
            {
                let ghost combos_old = combos@;
                let ghost results_old = results@;
                let ml = combos.pop().unwrap();
                proof {
                    assert(ml == combos_old[combos_old.len() - 1]);
                    assert(good_meld_list(ml@, rem_view, 4));
                }
                let sorted = sort_melds(&ml);
                let st = HandStructure::Standard { melds: sorted, pair: pair_tile };
                proof {
                    lemma_index_tile_bijective(pi as int);
                    assert forall|j: int| 0 <= j < 34 implies
                        #[trigger] counts@[j] as int == structure_occ(st, j) by {
                        assert(melds_occ(sorted@, j) == melds_occ(ml@, j));
                        assert(melds_occ(ml@, j) == rem_view[j] as int);
                    }
                    assert(melds_all_closed(st)) by {
                        assert forall|m: int| 0 <= m < sorted@.len() implies
                            !meld_open_spec(#[trigger] sorted@[m]) && !(sorted@[m] is Kan) by {
                            assert(ml@.contains(sorted@[m]));
                            let l = choose|l: int| 0 <= l < ml@.len() && ml@[l] == sorted@[m];
                        }
                    }
                }
                results.push(st);
                proof {
                    assert forall|msv: Multiset<Meld>| #[trigger] multiset_in(msv, combos_orig)
                        implies multiset_in(msv, combos@)
                            || standard_listed(msv, pair_tile, results@) by {
                        if multiset_in(msv, combos_old) {
                            let k = choose|k: int| 0 <= k < combos_old.len()
                                && (#[trigger] combos_old[k])@.to_multiset() == msv;
                            if k < combos_old.len() - 1 {
                                assert(combos@[k] == combos_old[k]);
                                assert(multiset_in(msv, combos@));
                            } else {
                                assert(ml@.to_multiset() == msv);
                                assert(matching_standard(results@.index(results@.len() - 1),
                                    msv, pair_tile));
                            }
                        } else {
                            lemma_standard_listed_extend(msv, pair_tile, results_old, results@);
                        }
                    }
                }
            }
            proof {
                // everything the pair on this index admits is now listed
                assert forall|ms: Seq<Meld>, p: Tile| #[trigger] standard_witness(ms, p,
                    counts@) && tile_index_spec(p) <= pi as int implies standard_listed(
                    ms.to_multiset(), p, results@) by {
                    lemma_tile_index_bijective(p);
                    if tile_index_spec(p) < pi as int {
                        lemma_standard_listed_extend(ms.to_multiset(), p, results_at_pi,
                            results@);
                    } else {
                        assert(p == tile_of_index(pi as int));
                        assert(good_meld_list(ms, rem_view, 4)) by {
                            assert forall|j: int| 0 <= j < 34 implies
                                #[trigger] rem_view[j] as int == melds_occ(ms, j) by {
                            }
                        }
                        assert(multiset_in(ms.to_multiset(), combos_orig));
                        assert(!multiset_in(ms.to_multiset(), combos@)) by {
                            if multiset_in(ms.to_multiset(), combos@) {
                                let kk = choose|kk: int| 0 <= kk < combos@.len()
                                    && (#[trigger] combos@[kk])@.to_multiset()
                                        == ms.to_multiset();
                            }
                        }
                    }
                }
            }
        } else {
            proof {
                // no pair fits this index, so nothing new can be owed
                assert forall|ms: Seq<Meld>, p: Tile| #[trigger] standard_witness(ms, p,
                    counts@) && tile_index_spec(p) <= pi as int implies standard_listed(
                    ms.to_multiset(), p, results@) by {
                    lemma_tile_index_bijective(p);
                    if tile_index_spec(p) == pi as int {
                        lemma_melds_occ_nonneg(ms, pi as int);
                        assert(counts@[pi as int] >= 2);
                        assert(false);
                    }
                }
            }
        }
        pi = pi + 1;
    }
    proof {
        assert forall|ms: Seq<Meld>, p: Tile| #[trigger] standard_witness(ms, p, counts@)
            implies standard_listed(ms.to_multiset(), p, results@) by {
            lemma_tile_index_bijective(p);
        }
    }

    let ghost pre = results@;
    let r = dedup_structures_checked(results, Ghost(counts@));

    proof {
        if chiitoitsu_complete(counts@) {
            let l = head.len() - 1;
            assert(pre[l] is Chiitoitsu);
            assert(represented_in(pre[l], r@));
            let k = choose|k: int| 0 <= k < r@.len() && structure_eq_spec(pre[l],
                #[trigger] r@[k]);
            assert(r@[k] is Chiitoitsu);
        }
        if kokushi_complete_some(counts@) {
            assert(pre[0] is Kokushi);
            assert(represented_in(pre[0], r@));
            let k = choose|k: int| 0 <= k < r@.len() && structure_eq_spec(pre[0],
                #[trigger] r@[k]);
            assert(r@[k] is Kokushi);
        }
        // deduplication keeps a structurally equal copy of every standard
        // decomposition that was found
        assert forall|ms: Seq<Meld>, p: Tile| #[trigger] standard_witness(ms, p, counts@)
            implies standard_listed(ms.to_multiset(), p, r@) by {
            assert(standard_listed(ms.to_multiset(), p, pre));
            let l = choose|l: int| 0 <= l < pre.len() && matching_standard(
                #[trigger] pre.index(l), ms.to_multiset(), p);
            assert(represented_in(pre[l], r@));
            let k = choose|k: int| 0 <= k < r@.len() && structure_eq_spec(pre[l],
                #[trigger] r@[k]);
            assert(matching_standard(r@.index(k), ms.to_multiset(), p));
        }
        if standard_complete(counts@) {
            let (ms, p) = choose|ms: Seq<Meld>, p: Tile| standard_witness(ms, p, counts@);
            assert(standard_listed(ms.to_multiset(), p, r@));
            let k = choose|k: int| 0 <= k < r@.len() && matching_standard(
                #[trigger] r@.index(k), ms.to_multiset(), p);
        }
    }
    r
}

/// Deduplicate while carrying well-formedness and reconstruction through.
fn dedup_structures_checked(xs: Vec<HandStructure>, Ghost(c): Ghost<Seq<u8>>) -> (r: Vec<
    HandStructure,
>)
    requires
        forall|k: int| 0 <= k < xs@.len() ==> structure_wf(#[trigger] xs@[k])
            && structure_matches(xs@[k], c) && melds_all_closed(xs@[k]),
    ensures
        pairwise_distinct(r@),
        forall|k: int| 0 <= k < r@.len() ==> structure_wf(#[trigger] r@[k])
            && structure_matches(r@[k], c) && melds_all_closed(r@[k]),
        forall|l: int| 0 <= l < xs@.len() ==> represented_in(#[trigger] xs@[l], r@),
{
    let ghost xs_view = xs@;
    let r = dedup_structures(xs);
    proof {
        assert forall|k: int| 0 <= k < r@.len() implies structure_wf(#[trigger] r@[k])
            && structure_matches(r@[k], c) && melds_all_closed(r@[k]) by {
            let l = choose|l: int| 0 <= l < xs_view.len()
                && structure_eq_spec(r@[k], #[trigger] xs_view[l]);
            lemma_structure_eq_preserves(r@[k], xs_view[l]);
        }
    }
    r
}

/// All decompositions of the hand tiles around a fixed set of called melds.
/// Seven pairs and thirteen orphans are impossible once a meld was called,
/// so only standard shapes are searched. Each returned decomposition
/// rebuilds the hand tiles plus the called melds' tiles exactly.
#[verifier::loop_isolation(false)]
pub fn decompose_hand_with_melds(hand_tiles: &TileCounts, called_melds: &[Meld]) -> (r: Vec<
    HandStructure,
>)
    requires
        hand_tiles.wf(),
        called_melds@.len() <= 4,
        forall|k: int| 0 <= k < called_melds@.len() ==> meld_wf(#[trigger] called_melds@[k]),
    ensures
        forall|k: int| 0 <= k < r@.len() ==> structure_wf(#[trigger] r@[k])
            && forall|j: int| 0 <= j < 34 ==> structure_occ(#[trigger] r@[k], j)
                == hand_tiles@[j] + melds_occ(called_melds@, j),
        pairwise_distinct(r@),
        // every split of the hand tiles around the called melds is listed
        forall|found: Seq<Meld>, p: Tile| #[trigger] called_standard_witness(found, p,
            hand_tiles@, called_melds@) ==> standard_listed(
            called_melds@.to_multiset().add(found.to_multiset()), p, r@),
        // only standard shapes come back once a meld was called, and each
        // keeps every called meld with its provenance beside newly found
        // closed melds
        forall|k: int| 0 <= k < r@.len() ==> (#[trigger] r@[k]) is Standard
            && standard_from_calls(r@[k], called_melds@),
{
    let mut results: Vec<HandStructure> = Vec::new();
    let needed: u8 = (4 - called_melds.len()) as u8;

    let mut pi: usize = 0;
    while pi < 34
        invariant
            hand_tiles.wf(),
            pi <= 34,
            needed as int == 4 - called_melds@.len(),
            forall|k: int| 0 <= k < results@.len() ==> structure_wf(#[trigger] results@[k])
                && forall|j: int| 0 <= j < 34 ==> structure_occ(#[trigger] results@[k], j)
                    == hand_tiles@[j] + melds_occ(called_melds@, j),
            forall|k: int| 0 <= k < results@.len() ==> (#[trigger] results@[k]) is Standard
                && standard_from_calls(results@[k], called_melds@),
            forall|found: Seq<Meld>, p: Tile| #[trigger] called_standard_witness(found, p,
                hand_tiles@, called_melds@) && tile_index_spec(p) < pi ==> standard_listed(
                called_melds@.to_multiset().add(found.to_multiset()), p, results@),
        decreases 34 - pi,
    {
        let ghost results_at_pi = results@;
        let c2 = hand_tiles.get_idx(pi);
        if c2 >= 2 {
            let mut rem = hand_tiles.duplicate();
            rem.set_idx(pi, c2 - 2);
            let pair_tile = index_to_tile(pi);
            let ghost rem_view = hand_tiles@.update(pi as int, (c2 - 2) as u8);
            let mut combos = find_all_meld_combinations(rem, 0, needed);
            let ghost combos_orig = combos@;
            while combos.len() > 0
                invariant
                    hand_tiles.wf(),
                    pi < 34,
                    needed as int == 4 - called_melds@.len(),
                    pair_tile == tile_of_index(pi as int),
                    results_at_pi.len() <= results@.len(),
                    forall|k: int| 0 <= k < results_at_pi.len()
                        ==> #[trigger] results@[k] == results_at_pi[k],
                    forall|k: int| 0 <= k < combos@.len() ==>
                        good_meld_list(#[trigger] combos@[k]@, rem_view, needed as int),
                    forall|k: int| 0 <= k < results@.len() ==> structure_wf(#[trigger] results@[k])
                        && forall|j: int| 0 <= j < 34 ==> structure_occ(#[trigger] results@[k], j)
                            == hand_tiles@[j] + melds_occ(called_melds@, j),
                    forall|k: int| 0 <= k < results@.len() ==> (#[trigger] results@[k]) is Standard
                        && standard_from_calls(results@[k], called_melds@),
                    forall|msv: Multiset<Meld>| #[trigger] multiset_in(msv, combos_orig)
                        ==> multiset_in(msv, combos@) || standard_listed(
                            called_melds@.to_multiset().add(msv), pair_tile, results@),
                decreases combos@.len(),
            {
                let ghost combos_old = combos@;
                let ghost results_old = results@;
                let ml = combos.pop().unwrap();
                proof {
                    assert(ml == combos_old[combos_old.len() - 1]);
                    assert(good_meld_list(ml@, rem_view, needed as int));
                }
                // the called melds keep their provenance; found melds are closed
                let mut all: Vec<Meld> = Vec::new();
                let mut q: usize = 0;
                while q < called_melds.len()
                    invariant
                        q <= called_melds@.len(),
                        all@ == called_melds@.take(q as int),
                    decreases called_melds@.len() - q,
                {
                    all.push(called_melds[q]);
                    proof {
                        assert(all@ =~= called_melds@.take(q as int + 1));
                    }
                    q = q + 1;
                }
                proof {
                    assert(all@ =~= called_melds@);
                }
                let ghost called_view = all@;
                let mut q2: usize = 0;
                while q2 < ml.len()
                    invariant
                        q2 <= ml@.len(),
                        all@ == called_view.add(ml@.take(q2 as int)),
                    decreases ml@.len() - q2,
                {
                    all.push(ml[q2]);
                    proof {
                        assert(all@ =~= called_view.add(ml@.take(q2 as int + 1)));
                    }
                    q2 = q2 + 1;
                }
                proof {
                    assert(all@ =~= called_melds@.add(ml@));
                    assert forall|j: int| melds_occ(all@, j)
                        == melds_occ(called_melds@, j) + melds_occ(ml@, j) by {
                        lemma_melds_occ_concat(called_melds@, ml@, j);
                    }
                }
                let sorted = sort_melds(&all);
                let st = HandStructure::Standard { melds: sorted, pair: pair_tile };
                proof {
                    lemma_index_tile_bijective(pi as int);
                    assert forall|j: int| 0 <= j < 34 implies structure_occ(st, j)
                        == hand_tiles@[j] + melds_occ(called_melds@, j) by {
                        assert(melds_occ(sorted@, j) == melds_occ(all@, j));
                        assert(melds_occ(ml@, j) == rem_view[j] as int);
                    }
                }
                results.push(st);
                proof {
                    vstd::seq_lib::lemma_multiset_commutative(called_melds@, ml@);
                    assert(sorted@.to_multiset()
                        == called_melds@.to_multiset().add(ml@.to_multiset()));
                    assert(standard_from_calls(st, called_melds@)) by {
                        assert(ml@.to_multiset() == ml@.to_multiset());
                        assert(sorted@.to_multiset() == called_melds@.to_multiset().add(
                            ml@.to_multiset()));
                        assert(ml@.len() + called_melds@.len() == sorted@.len());
                    }
                    assert forall|msv: Multiset<Meld>| #[trigger] multiset_in(msv, combos_orig)
                        implies multiset_in(msv, combos@) || standard_listed(
                            called_melds@.to_multiset().add(msv), pair_tile, results@) by {
                        if multiset_in(msv, combos_old) {
                            let k = choose|k: int| 0 <= k < combos_old.len()
                                && (#[trigger] combos_old[k])@.to_multiset() == msv;
                            if k < combos_old.len() - 1 {
                                assert(combos@[k] == combos_old[k]);
                                assert(multiset_in(msv, combos@));
                            } else {
                                assert(ml@.to_multiset() == msv);
                                assert(matching_standard(results@.index(results@.len() - 1),
                                    called_melds@.to_multiset().add(msv), pair_tile));
                            }
                        } else {
                            lemma_standard_listed_extend(called_melds@.to_multiset().add(msv),
                                pair_tile, results_old, results@);
                        }
                    }
                }
            }
            proof {
                assert forall|found: Seq<Meld>, p: Tile| #[trigger] called_standard_witness(
                    found, p, hand_tiles@, called_melds@) && tile_index_spec(p) <= pi as int
                    implies standard_listed(called_melds@.to_multiset().add(
                    found.to_multiset()), p, results@) by {
                    lemma_tile_index_bijective(p);
                    if tile_index_spec(p) < pi as int {
                        lemma_standard_listed_extend(called_melds@.to_multiset().add(
                            found.to_multiset()), p, results_at_pi, results@);
                    } else {
                        assert(p == tile_of_index(pi as int));
                        assert(good_meld_list(found, rem_view, needed as int)) by {
                            assert forall|j: int| 0 <= j < 34 implies
                                #[trigger] rem_view[j] as int == melds_occ(found, j) by {
                            }
                        }
                        assert(multiset_in(found.to_multiset(), combos_orig));
                        assert(!multiset_in(found.to_multiset(), combos@)) by {
                            if multiset_in(found.to_multiset(), combos@) {
                                let kk = choose|kk: int| 0 <= kk < combos@.len()
                                    && (#[trigger] combos@[kk])@.to_multiset()
                                        == found.to_multiset();
                            }
                        }
                    }
                }
            }
        } else {
            proof {
                assert forall|found: Seq<Meld>, p: Tile| #[trigger] called_standard_witness(
                    found, p, hand_tiles@, called_melds@) && tile_index_spec(p) <= pi as int
                    implies standard_listed(called_melds@.to_multiset().add(
                    found.to_multiset()), p, results@) by {
                    lemma_tile_index_bijective(p);
                    if tile_index_spec(p) == pi as int {
                        lemma_melds_occ_nonneg(found, pi as int);
                        assert(hand_tiles@[pi as int] >= 2);
                        assert(false);
                    }
                }
            }
        }
        pi = pi + 1;
    }
    proof {
        assert forall|found: Seq<Meld>, p: Tile| #[trigger] called_standard_witness(found, p,
            hand_tiles@, called_melds@) implies standard_listed(
            called_melds@.to_multiset().add(found.to_multiset()), p, results@) by {
            lemma_tile_index_bijective(p);
        }
    }

    let ghost pre = results@;
    let r = dedup_structures(results);
    proof {
        assert forall|k: int| 0 <= k < r@.len() implies structure_wf(#[trigger] r@[k])
            && forall|j: int| 0 <= j < 34 ==> structure_occ(#[trigger] r@[k], j)
                == hand_tiles@[j] + melds_occ(called_melds@, j) by {
            let l = choose|l: int| 0 <= l < pre.len()
                && structure_eq_spec(r@[k], #[trigger] pre[l]);
            lemma_structure_eq_preserves(r@[k], pre[l]);
        }
        assert forall|k: int| 0 <= k < r@.len() implies (#[trigger] r@[k]) is Standard
            && standard_from_calls(r@[k], called_melds@) by {
            let l = choose|l: int| 0 <= l < pre.len()
                && structure_eq_spec(r@[k], #[trigger] pre[l]);
            lemma_structure_eq_preserves_calls(r@[k], pre[l], called_melds@);
        }
        assert forall|found: Seq<Meld>, p: Tile| #[trigger] called_standard_witness(found, p,
            hand_tiles@, called_melds@) implies standard_listed(
            called_melds@.to_multiset().add(found.to_multiset()), p, r@) by {
            let msv = called_melds@.to_multiset().add(found.to_multiset());
            assert(standard_listed(msv, p, pre));
            let l = choose|l: int| 0 <= l < pre.len() && matching_standard(
                #[trigger] pre.index(l), msv, p);
            assert(represented_in(pre[l], r@));
            let k = choose|k: int| 0 <= k < r@.len() && structure_eq_spec(pre[l],
                #[trigger] r@[k]);
            assert(matching_standard(r@.index(k), msv, p));
        }
    }
    r
}

pub proof fn lemma_melds_occ_concat(a: Seq<Meld>, b: Seq<Meld>, j: int)
    ensures
        melds_occ(a.add(b), j) == melds_occ(a, j) + melds_occ(b, j),
    decreases b.len(),
{
    if b.len() == 0 {
        assert(a.add(b) =~= a);
    } else {
        assert(a.add(b).drop_last() =~= a.add(b.drop_last()));
        assert(a.add(b).last() == b.last());
        lemma_melds_occ_concat(a, b.drop_last(), j);
    }
}

/// Can the multiset stand as four closed melds plus a pair?
#[verifier::loop_isolation(false)]
pub fn is_standard_hand(counts: &TileCounts) -> (r: bool)
    requires
        counts.wf(),
    ensures
        r == standard_complete(counts@),
{
    let mut pi: usize = 0;
    while pi < 34
        invariant
            counts.wf(),
            pi <= 34,
            forall|ms: Seq<Meld>, p: Tile| #[trigger] standard_witness(ms, p, counts@)
                ==> !(tile_index_spec(p) < pi),
        decreases 34 - pi,
    {
        let c2 = counts.get_idx(pi);
        if c2 >= 2 {
            let mut rem = counts.duplicate();
            rem.set_idx(pi, c2 - 2);
            let ghost rem_view = counts@.update(pi as int, (c2 - 2) as u8);
            let combos = find_all_meld_combinations(rem, 0, 4);
            if combos.len() > 0 {
                proof {
                    lemma_index_tile_bijective(pi as int);
                    let ms = combos@[0]@;
                    let p = tile_of_index(pi as int);
                    assert(good_meld_list(ms, rem_view, 4));
                    assert forall|j: int| 0 <= j < 34 implies #[trigger] counts@[j] as int
                        == melds_occ(ms, j) + if tile_index_spec(p) == j {
                            2int
                        } else {
                            0int
                        } by {
                        assert(melds_occ(ms, j) == rem_view[j] as int);
                    }
                    assert(standard_witness(ms, p, counts@));
                }
                return true;
            }
            proof {
                // an empty enumeration rules the pair on this index out
                assert forall|ms: Seq<Meld>, p: Tile| #[trigger] standard_witness(ms, p,
                    counts@) implies !(tile_index_spec(p) < pi + 1) by {
                    lemma_tile_index_bijective(p);
                    if tile_index_spec(p) == pi as int {
                        assert(good_meld_list(ms, rem_view, 4)) by {
                            assert forall|j: int| 0 <= j < 34 implies
                                #[trigger] rem_view[j] as int == melds_occ(ms, j) by {
                            }
                        }
                        assert(multiset_in(ms.to_multiset(), combos@));
                        let kk = choose|kk: int| 0 <= kk < combos@.len()
                            && (#[trigger] combos@[kk])@.to_multiset() == ms.to_multiset();
                        assert(false);
                    }
                }
            }
        } else {
            proof {
                assert forall|ms: Seq<Meld>, p: Tile| #[trigger] standard_witness(ms, p,
                    counts@) implies !(tile_index_spec(p) < pi + 1) by {
                    lemma_tile_index_bijective(p);
                    if tile_index_spec(p) == pi as int {
                        lemma_melds_occ_nonneg(ms, pi as int);
                        assert(counts@[pi as int] >= 2);
                        assert(false);
                    }
                }
            }
        }
        pi = pi + 1;
    }
    proof {
        if standard_complete(counts@) {
            let (ms, p) = choose|ms: Seq<Meld>, p: Tile| standard_witness(ms, p, counts@);
            lemma_tile_index_bijective(p);
            assert(false);
        }
    }
    false
}

/// Does the multiset admit some legal winning configuration: thirteen
/// orphans, seven pairs, or four closed melds with a pair?
pub fn is_winning_hand(counts: &TileCounts) -> (r: bool)
    requires
        counts.wf(),
    ensures
        r == winnable(counts@),
{
    let kok = check_kokushi(counts);
    if kok.is_some() {
        proof {
            let p = kok->Some_0;
            assert(kokushi_complete(counts@, p));
        }
        return true;
    }
    if is_chiitoitsu(counts) {
        return true;
    }
    let r = is_standard_hand(counts);
    proof {
        if kokushi_complete_some(counts@) {
            let p = choose|p: Tile| kokushi_complete(counts@, p);
            assert(false);
        }
    }
    r
}

/// Does the tile stand inside some closed (uncalled) sequence of the list?
/// This is the shared test behind the rule that a triplet completed by a
/// discard stays concealed when the winning tile could have extended a
/// closed sequence instead; called sequences never trigger it.
pub open spec fn tile_in_closed_sequence_spec(t: Tile, ms: Seq<Meld>) -> bool {
    exists|k: int| 0 <= k < ms.len() && (#[trigger] ms[k] matches Meld::Shuntsu(start, open)
        && !open && (match (start, t) {
            (Tile::Suited { suit: ss, value: sv }, Tile::Suited { suit: ts, value: tv }) =>
                ss == ts && sv <= tv <= sv + 2,
            _ => false,
        }))
}

/// Is the tile part of a closed sequence of the hand?
pub fn tile_in_closed_sequence(tile: Tile, melds: &Vec<Meld>) -> (r: bool)
    ensures
        r == tile_in_closed_sequence_spec(tile, melds@),
{
    let (suit, value) = match tile {
        Tile::Suited { suit, value } => (suit, value),
        Tile::Honor(_) => {
            return false;
        }
    };
    let mut i: usize = 0;
    while i < melds.len()
        invariant
            i <= melds@.len(),
            tile == (Tile::Suited { suit, value }),
            forall|k: int| 0 <= k < i ==> !(#[trigger] melds@[k] matches Meld::Shuntsu(start, open)
                && !open && (match start {
                    Tile::Suited { suit: ss, value: sv } => ss == suit && sv <= value <= sv + 2,
                    _ => false,
                })),
        decreases melds@.len() - i,
    {
        match &melds[i] {
            Meld::Shuntsu(start, is_open) => {
                if !*is_open {
                    if let Tile::Suited { suit: ss, value: sv } = start {
                        if *ss == suit && *sv <= value && value as u16 <= *sv as u16 + 2 {
                            proof {
                                assert(melds@[i as int] matches Meld::Shuntsu(st, op)
                                    && !op && (match (st, tile) {
                                        (Tile::Suited { suit: s2, value: v2 },
                                         Tile::Suited { suit: ts, value: tv }) =>
                                            s2 == ts && v2 <= tv <= v2 + 2,
                                        _ => false,
                                    }));
                            }
                            return true;
                        }
                    }
                }
            }
            _ => {}
        }
        i = i + 1;
    }
    false
}

} // verus!
