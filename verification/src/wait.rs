use vstd::prelude::*;

use crate::context::GameContext;
use crate::hand::{meld_open_spec, HandStructure, Meld};
use crate::tile::{Honor, Tile};

verus! {

/// The shape the hand was waiting in when the winning tile completed it.
#[derive(Debug, Clone, Copy, PartialEq, Eq, Hash, Structural)]
pub enum WaitType {
    /// Two-sided sequence wait, e.g. 2-3 waiting on 1 or 4. No fu.
    Ryanmen,
    /// Closed-gap wait on the middle of a sequence, e.g. 1-3 waiting on 2.
    Kanchan,
    /// Edge wait, 1-2 waiting on 3 or 8-9 waiting on 7.
    Penchan,
    /// Dual-pair wait: two pairs, either of which becomes the triplet.
    Shanpon,
    /// Waiting on the pair itself.
    Tanki,
    /// The thirteen-sided thirteen-orphans wait.
    Kokushi13,
}

pub open spec fn wait_fu_spec(w: WaitType) -> int {
    match w {
        WaitType::Ryanmen => 0,
        WaitType::Shanpon => 0,
        WaitType::Kanchan => 2,
        WaitType::Penchan => 2,
        WaitType::Tanki => 2,
        WaitType::Kokushi13 => 0,
    }
}

/// The order used to pick the scoring wait: lowest fu first, and among
/// zero-fu waits the two-sided wait first so that pinfu stays possible.
pub open spec fn wait_order_spec(w: WaitType) -> int {
    match w {
        WaitType::Ryanmen => 0,
        WaitType::Shanpon => 1,
        WaitType::Kokushi13 => 2,
        WaitType::Kanchan => 3,
        WaitType::Penchan => 4,
        WaitType::Tanki => 5,
    }
}

impl WaitType {
    /// The minor points the wait contributes.
    pub fn fu(&self) -> (r: u8)
        ensures
            r as int == wait_fu_spec(*self),
    {
        match self {
            WaitType::Ryanmen => 0,
            WaitType::Shanpon => 0,
            WaitType::Kanchan => 2,
            WaitType::Penchan => 2,
            WaitType::Tanki => 2,
            WaitType::Kokushi13 => 0,
        }
    }

    /// Does the wait have more than one winning tile?
    pub fn is_good_wait(&self) -> (r: bool)
        ensures
            r == (*self == WaitType::Ryanmen || *self == WaitType::Shanpon
                || *self == WaitType::Kokushi13),
    {
        match self {
            WaitType::Ryanmen => true,
            WaitType::Shanpon => true,
            WaitType::Kokushi13 => true,
            _ => false,
        }
    }
}

/// The wait a sequence had before its tile at `winning_val` arrived:
/// the middle tile closes a gap; an end tile is two-sided unless the
/// sequence is pinned to 1-2-3 or 7-8-9, which makes an edge wait.
pub open spec fn shuntsu_position_wait(start_val: int, winning_val: int) -> WaitType {
    if winning_val == start_val {
        if start_val + 2 == 9 {
            WaitType::Penchan
        } else {
            WaitType::Ryanmen
        }
    } else if winning_val == start_val + 1 {
        WaitType::Kanchan
    } else {
        if start_val == 1 {
            WaitType::Penchan
        } else {
            WaitType::Ryanmen
        }
    }
}

/// The wait kind by which `winning_tile` can have completed this meld,
/// if it belongs to the meld at all. Quads are complete already and honors
/// never stand in sequences.
pub open spec fn meld_wait_spec(m: Meld, winning_tile: Tile) -> Option<WaitType> {
    match m {
        Meld::Koutsu(t, _) => if t == winning_tile {
            Some(WaitType::Shanpon)
        } else {
            None
        },
        Meld::Shuntsu(start, _) => match (start, winning_tile) {
            (Tile::Suited { suit: ss, value: sv }, Tile::Suited { suit: ws, value: wv }) =>
                if ss == ws && sv <= wv <= sv + 2 {
                    Some(shuntsu_position_wait(sv as int, wv as int))
                } else {
                    None
                },
            _ => None,
        },
        Meld::Kan(_, _) => None,
    }
}

/// Every wait kind by which `winning_tile` can have completed the hand.
pub open spec fn wait_matches(s: HandStructure, winning_tile: Tile, w: WaitType) -> bool {
    match s {
        HandStructure::Chiitoitsu { pairs } => w == WaitType::Tanki
            && pairs@.contains(winning_tile),
        HandStructure::Kokushi { pair } => if pair == winning_tile {
            w == WaitType::Tanki
        } else {
            w == WaitType::Kokushi13
        },
        HandStructure::Standard { melds, pair } => (w == WaitType::Tanki && pair == winning_tile)
            || exists|k: int| 0 <= k < melds@.len()
                && meld_wait_spec(#[trigger] melds@[k], winning_tile) == Some(w),
    }
}

/// The wait kinds for a sequence position, in executable form.
pub fn wait_type_for_shuntsu_position(start_val: u8, winning_val: u8) -> (r: WaitType)
    ensures
        r == shuntsu_position_wait(start_val as int, winning_val as int),
{
    if winning_val == start_val {
        if start_val as u16 + 2 == 9 {
            WaitType::Penchan
        } else {
            WaitType::Ryanmen
        }
    } else if winning_val as u16 == start_val as u16 + 1 {
        WaitType::Kanchan
    } else {
        if start_val == 1 {
            WaitType::Penchan
        } else {
            WaitType::Ryanmen
        }
    }
}

/// The wait kind by which the winning tile completes one sequence meld.
fn check_shuntsu_wait(start_tile: Tile, winning_tile: Tile) -> (r: Option<WaitType>)
    ensures
        r == meld_wait_spec(Meld::Shuntsu(start_tile, false), winning_tile),
{
    let (suit, start_val) = match start_tile {
        Tile::Suited { suit, value } => (suit, value),
        Tile::Honor(_) => {
            return None;
        }
    };
    let (w_suit, w_val) = match winning_tile {
        Tile::Suited { suit, value } => (suit, value),
        Tile::Honor(_) => {
            return None;
        }
    };
    if suit != w_suit {
        return None;
    }
    if w_val < start_val || w_val as u16 > start_val as u16 + 2 {
        return None;
    }
    Some(wait_type_for_shuntsu_position(start_val, w_val))
}

/// Every wait kind by which the winning tile can have completed the hand.
/// The same kind is reported once even when two melds admit it.
#[verifier::loop_isolation(false)]
pub fn detect_wait_types(structure: &HandStructure, winning_tile: Tile) -> (r: Vec<WaitType>)
    ensures
        forall|w: WaitType| r@.contains(w) == wait_matches(*structure, winning_tile, w),
{
    match structure {
        HandStructure::Chiitoitsu { pairs } => {
            let mut has = false;
            let mut i: usize = 0;
            while i < pairs.len()
                invariant
                    i <= pairs@.len(),
                    has == pairs@.take(i as int).contains(winning_tile),
                decreases pairs@.len() - i,
            {
                if pairs[i] == winning_tile {
                    has = true;
                    proof {
                        assert(pairs@.take(i as int + 1)[i as int] == winning_tile);
                    }
                } else {
                    proof {
                        assert(pairs@.take(i as int + 1).drop_last() =~= pairs@.take(i as int));
                        if pairs@.take(i as int + 1).contains(winning_tile) {
                            let k = choose|k: int| 0 <= k < i + 1
                                && #[trigger] pairs@.take(i as int + 1).index(k) == winning_tile;
                            if k < i {
                                assert(pairs@.take(i as int)[k] == winning_tile);
                            }
                        }
                    }
                }
                i = i + 1;
            }
            proof {
                assert(pairs@.take(pairs@.len() as int) =~= pairs@);
            }
            let mut r: Vec<WaitType> = Vec::new();
            if has {
                r.push(WaitType::Tanki);
                proof {
                    assert(r@[0] == WaitType::Tanki);
                }
            }
            proof {
                assert forall|w: WaitType| r@.contains(w)
                    == wait_matches(*structure, winning_tile, w) by {
                    if r@.contains(w) {
                        assert(w == WaitType::Tanki);
                    }
                    if wait_matches(*structure, winning_tile, w) {
                        assert(r@.len() == 1 && r@[0] == WaitType::Tanki);
                    }
                }
            }
            r
        }
        HandStructure::Kokushi { pair } => {
            let mut r: Vec<WaitType> = Vec::new();
            if *pair == winning_tile {
                r.push(WaitType::Tanki);
                proof {
                    assert(r@[0] == WaitType::Tanki);
                }
            } else {
                r.push(WaitType::Kokushi13);
                proof {
                    assert(r@[0] == WaitType::Kokushi13);
                }
            }
            proof {
                assert forall|w: WaitType| r@.contains(w)
                    == wait_matches(*structure, winning_tile, w) by {
                    if r@.contains(w) {
                        assert(w == r@[0]);
                    }
                }
            }
            r
        }
        HandStructure::Standard { melds, pair } => {
            let mut r: Vec<WaitType> = Vec::new();
            if *pair == winning_tile {
                r.push(WaitType::Tanki);
            }
            proof {
                assert forall|w: WaitType| r@.contains(w) == (*pair == winning_tile
                    && w == WaitType::Tanki) by {
                    if r@.contains(w) {
                        let k = choose|k: int| 0 <= k < r@.len() && r@.index(k) == w;
                        assert(w == WaitType::Tanki && *pair == winning_tile);
                    }
                    if *pair == winning_tile && w == WaitType::Tanki {
                        assert(r@[0] == WaitType::Tanki);
                    }
                }
            }
            let mut i: usize = 0;
            while i < melds.len()
                invariant
                    i <= melds@.len(),
                    forall|w: WaitType| r@.contains(w) == ((*pair == winning_tile
                        && w == WaitType::Tanki) || exists|k: int| 0 <= k < i
                        && meld_wait_spec(#[trigger] melds@[k], winning_tile) == Some(w)),
                decreases melds@.len() - i,
            {
                let ghost r_old = r@;
                let found: Option<WaitType> = match &melds[i] {
                    Meld::Koutsu(t, _) => {
                        if *t == winning_tile {
                            Some(WaitType::Shanpon)
                        } else {
                            None
                        }
                    }
                    Meld::Shuntsu(start, _) => check_shuntsu_wait(*start, winning_tile),
                    Meld::Kan(_, _) => None,
                };
                proof {
                    assert(found == meld_wait_spec(melds@[i as int], winning_tile));
                }
                if let Some(w0) = found {
                    // record the kind once
                    let mut seen = false;
                    let mut q: usize = 0;
                    while q < r.len()
                        invariant
                            q <= r@.len(),
                            seen == r@.take(q as int).contains(w0),
                        decreases r@.len() - q,
                    {
                        if r[q] == w0 {
                            seen = true;
                            proof {
                                assert(r@.take(q as int + 1)[q as int] == w0);
                            }
                        } else {
                            proof {
                                assert(r@.take(q as int + 1).drop_last() =~= r@.take(q as int));
                                if r@.take(q as int + 1).contains(w0) {
                                    let k = choose|k: int| 0 <= k < q + 1
                                        && #[trigger] r@.take(q as int + 1).index(k) == w0;
                                    if k < q {
                                        assert(r@.take(q as int)[k] == w0);
                                    }
                                }
                            }
                        }
                        q = q + 1;
                    }
                    proof {
                        assert(r@.take(r@.len() as int) =~= r@);
                    }
                    if !seen {
                        r.push(w0);
                    }
                    proof {
                        assert(r@.contains(w0)) by {
                            if seen {
                            } else {
                                assert(r@[r@.len() - 1] == w0);
                            }
                        }
                        assert forall|w: WaitType| r@.contains(w) == ((*pair == winning_tile
                            && w == WaitType::Tanki) || exists|k: int| 0 <= k < i + 1
                            && meld_wait_spec(#[trigger] melds@[k], winning_tile) == Some(w)) by {
                            if r@.contains(w) {
                                if w == w0 {
                                    assert(meld_wait_spec(melds@[i as int], winning_tile)
                                        == Some(w));
                                } else {
                                    assert(r_old.contains(w)) by {
                                        let k = choose|k: int| 0 <= k < r@.len() && r@[k] == w;
                                        if k < r_old.len() {
                                            assert(r_old[k] == w);
                                        }
                                    }
                                }
                            } else {
                                assert(!r_old.contains(w)) by {
                                    if r_old.contains(w) {
                                        let k = choose|k: int| 0 <= k < r_old.len()
                                            && r_old[k] == w;
                                        assert(r@[k] == w);
                                    }
                                }
                            }
                        }
                    }
                } else {
                    proof {
                        assert forall|w: WaitType| r@.contains(w) == ((*pair == winning_tile
                            && w == WaitType::Tanki) || exists|k: int| 0 <= k < i + 1
                            && meld_wait_spec(#[trigger] melds@[k], winning_tile) == Some(w)) by {
                        }
                    }
                }
                i = i + 1;
            }
            r
        }
    }
}

/// Is the pair one that would score on its own: a dragon, or a wind that
/// matches the round or seat wind?
pub open spec fn yakuhai_pair_spec(pair: Tile, ctx: GameContext) -> bool {
    match pair {
        Tile::Honor(h) => h == Honor::White || h == Honor::Green || h == Honor::Red
            || h == ctx.round_wind || h == ctx.seat_wind,
        Tile::Suited { .. } => false,
    }
}

fn is_yakuhai_pair(pair: Tile, context: &GameContext) -> (r: bool)
    ensures
        r == yakuhai_pair_spec(pair, *context),
{
    match pair {
        Tile::Honor(honor) => match honor {
            Honor::White => true,
            Honor::Green => true,
            Honor::Red => true,
            wind => wind == context.round_wind || wind == context.seat_wind,
        },
        Tile::Suited { .. } => false,
    }
}

/// The pinfu conditions: a closed standard hand of four sequences, a pair
/// with no scoring value, and a two-sided wait on the winning tile.
pub open spec fn pinfu_spec(s: HandStructure, winning_tile: Tile, ctx: GameContext) -> bool {
    !ctx.is_open && match s {
        HandStructure::Standard { melds, pair } => (forall|k: int|
            0 <= k < melds@.len() ==> #[trigger] melds@[k] is Shuntsu)
            && !yakuhai_pair_spec(pair, ctx)
            && wait_matches(s, winning_tile, WaitType::Ryanmen),
        _ => false,
    }
}

/// Does the hand qualify for pinfu with this winning tile?
#[verifier::loop_isolation(false)]
pub fn is_pinfu(structure: &HandStructure, winning_tile: Tile, context: &GameContext) -> (r: bool)
    ensures
        r == pinfu_spec(*structure, winning_tile, *context),
{
    if context.is_open {
        return false;
    }
    match structure {
        HandStructure::Chiitoitsu { .. } => false,
        HandStructure::Kokushi { .. } => false,
        HandStructure::Standard { melds, pair } => {
            let mut i: usize = 0;
            while i < melds.len()
                invariant
                    i <= melds@.len(),
                    forall|k: int| 0 <= k < i ==> #[trigger] melds@[k] is Shuntsu,
                decreases melds@.len() - i,
            {
                if !melds[i].is_sequence() {
                    return false;
                }
                i = i + 1;
            }
            if is_yakuhai_pair(*pair, context) {
                return false;
            }
            let wait_types = detect_wait_types(structure, winning_tile);
            let mut q: usize = 0;
            while q < wait_types.len()
                invariant
                    q <= wait_types@.len(),
                    forall|k: int| 0 <= k < q ==> wait_types@[k] != WaitType::Ryanmen,
                decreases wait_types@.len() - q,
            {
                if wait_types[q] == WaitType::Ryanmen {
                    proof {
                        assert(wait_types@.contains(WaitType::Ryanmen));
                    }
                    return true;
                }
                q = q + 1;
            }
            proof {
                if wait_types@.contains(WaitType::Ryanmen) {
                    let k = choose|k: int| 0 <= k < wait_types@.len()
                        && wait_types@[k] == WaitType::Ryanmen;
                    assert(false);
                }
            }
            false
        }
    }
}

/// The wait the fu computation uses: the lowest-fu wait among the matches,
/// ties broken toward the two-sided wait.
#[verifier::loop_isolation(false)]
pub fn best_wait_type(structure: &HandStructure, winning_tile: Tile) -> (r: Option<WaitType>)
    ensures
        match r {
            Some(w) => wait_matches(*structure, winning_tile, w) && forall|w2: WaitType|
                #[trigger] wait_matches(*structure, winning_tile, w2)
                    ==> wait_order_spec(w) <= wait_order_spec(w2),
            None => forall|w: WaitType| !#[trigger] wait_matches(*structure, winning_tile, w),
        },
{
    let wait_types = detect_wait_types(structure, winning_tile);
    let mut best: Option<WaitType> = None;
    let mut i: usize = 0;
    while i < wait_types.len()
        invariant
            i <= wait_types@.len(),
            match best {
                Some(w) => wait_types@.contains(w) && forall|k: int| 0 <= k < i ==>
                    wait_order_spec(w) <= wait_order_spec(#[trigger] wait_types@[k]),
                None => i == 0,
            },
        decreases wait_types@.len() - i,
    {
        let w = wait_types[i];
        let replace = match &best {
            None => true,
            Some(b) => wait_order_exec(&w) < wait_order_exec(b),
        };
        if replace {
            best = Some(w);
            proof {
                assert(wait_types@.contains(w)) by {
                    assert(wait_types@[i as int] == w);
                }
            }
        }
        i = i + 1;
    }
    proof {
        match best {
            Some(w) => {
                assert forall|w2: WaitType| #[trigger] wait_matches(*structure, winning_tile, w2)
                    implies wait_order_spec(w) <= wait_order_spec(w2) by {
                    assert(wait_types@.contains(w2));
                    let k = choose|k: int| 0 <= k < wait_types@.len() && wait_types@[k] == w2;
                }
            }
            None => {
                assert forall|w: WaitType| !#[trigger] wait_matches(*structure, winning_tile, w) by {
                    if wait_matches(*structure, winning_tile, w) {
                        assert(wait_types@.contains(w));
                        assert(wait_types@.len() > 0);
                    }
                }
            }
        }
    }
    best
}

fn wait_order_exec(w: &WaitType) -> (r: u8)
    ensures
        r as int == wait_order_spec(*w),
{
    match w {
        WaitType::Ryanmen => 0,
        WaitType::Shanpon => 1,
        WaitType::Kokushi13 => 2,
        WaitType::Kanchan => 3,
        WaitType::Penchan => 4,
        WaitType::Tanki => 5,
    }
}

} // verus!
