use vstd::prelude::*;

use crate::context::{ctx_wf, dora_sum, count_dora_detailed, GameContext, WinType};
use crate::hand::{
    meld_open_spec, meld_tile_spec, kan_open_spec, HandStructure, KanType, Meld,
};
use crate::tile::{
    is_dragon_spec, is_green_spec, is_honor_spec, is_simple_spec, is_terminal_or_honor_spec,
    is_terminal_spec, is_wind_spec, tile_index_spec, tile_wf, Honor, Suit, Tile, TileCounts,
};
use crate::wait::{is_pinfu, pinfu_spec};

verus! {

broadcast use vstd::seq_lib::lemma_seq_contains_after_push;

/// A scoring pattern. The groups follow the base han values for a closed
/// hand; limit patterns stand at the end.
#[derive(Debug, Clone, Copy, PartialEq, Eq, Hash, Structural)]
pub enum Yaku {
    // one han
    Riichi,
    Ippatsu,
    MenzenTsumo,
    Tanyao,
    Pinfu,
    Iipeikou,
    Yakuhai(Honor),
    RinshanKaihou,
    Chankan,
    HaiteiRaoyue,
    HouteiRaoyui,
    // two han
    DoubleRiichi,
    Toitoi,
    SanshokuDoujun,
    SanshokuDoukou,
    Ittsu,
    Chiitoitsu,
    Chanta,
    SanAnkou,
    SanKantsu,
    Honroutou,
    Shousangen,
    // three han
    Honitsu,
    Junchan,
    Ryanpeikou,
    // six han
    Chinitsu,
    // limit patterns
    Tenhou,
    Chiihou,
    KokushiMusou,
    Suuankou,
    Daisangen,
    Shousuushii,
    Daisuushii,
    Tsuuiisou,
    Chinroutou,
    Ryuuiisou,
    ChuurenPoutou,
    // double limit patterns
    Kokushi13Wait,
    SuuankouTanki,
    JunseiChuurenPoutou,
}

/// Base han value for a closed hand; limit patterns count as 13, their
/// doubled forms as 26.
pub open spec fn han_spec(y: Yaku) -> int {
    match y {
        Yaku::Riichi => 1,
        Yaku::Ippatsu => 1,
        Yaku::MenzenTsumo => 1,
        Yaku::Tanyao => 1,
        Yaku::Pinfu => 1,
        Yaku::Iipeikou => 1,
        Yaku::Yakuhai(_) => 1,
        Yaku::RinshanKaihou => 1,
        Yaku::Chankan => 1,
        Yaku::HaiteiRaoyue => 1,
        Yaku::HouteiRaoyui => 1,
        Yaku::DoubleRiichi => 2,
        Yaku::Toitoi => 2,
        Yaku::SanshokuDoujun => 2,
        Yaku::SanshokuDoukou => 2,
        Yaku::Ittsu => 2,
        Yaku::Chiitoitsu => 2,
        Yaku::Chanta => 2,
        Yaku::SanAnkou => 2,
        Yaku::SanKantsu => 2,
        Yaku::Honroutou => 2,
        Yaku::Shousangen => 2,
        Yaku::Honitsu => 3,
        Yaku::Junchan => 3,
        Yaku::Ryanpeikou => 3,
        Yaku::Chinitsu => 6,
        Yaku::Tenhou => 13,
        Yaku::Chiihou => 13,
        Yaku::KokushiMusou => 13,
        Yaku::Suuankou => 13,
        Yaku::Daisangen => 13,
        Yaku::Shousuushii => 13,
        Yaku::Daisuushii => 13,
        Yaku::Tsuuiisou => 13,
        Yaku::Chinroutou => 13,
        Yaku::Ryuuiisou => 13,
        Yaku::ChuurenPoutou => 13,
        Yaku::Kokushi13Wait => 26,
        Yaku::SuuankouTanki => 26,
        Yaku::JunseiChuurenPoutou => 26,
    }
}

/// Han value for an open hand; `None` for patterns that need a closed hand.
/// Half flush, terminal patterns and full flush lose han when open.
pub open spec fn han_open_spec(y: Yaku) -> Option<u8> {
    match y {
        Yaku::Riichi => None,
        Yaku::DoubleRiichi => None,
        Yaku::Ippatsu => None,
        Yaku::MenzenTsumo => None,
        Yaku::Pinfu => None,
        Yaku::Iipeikou => None,
        Yaku::Ryanpeikou => None,
        Yaku::Tenhou => None,
        Yaku::Chiihou => None,
        Yaku::Suuankou => None,
        Yaku::SuuankouTanki => None,
        Yaku::ChuurenPoutou => None,
        Yaku::JunseiChuurenPoutou => None,
        Yaku::KokushiMusou => None,
        Yaku::Kokushi13Wait => None,
        Yaku::SanshokuDoujun => Some(1u8),
        Yaku::Ittsu => Some(1u8),
        Yaku::Chanta => Some(1u8),
        Yaku::Honitsu => Some(2u8),
        Yaku::Junchan => Some(2u8),
        Yaku::Chinitsu => Some(5u8),
        Yaku::Tanyao => Some(1u8),
        Yaku::Yakuhai(_) => Some(1u8),
        Yaku::RinshanKaihou => Some(1u8),
        Yaku::Chankan => Some(1u8),
        Yaku::HaiteiRaoyue => Some(1u8),
        Yaku::HouteiRaoyui => Some(1u8),
        Yaku::Toitoi => Some(2u8),
        Yaku::SanshokuDoukou => Some(2u8),
        Yaku::Chiitoitsu => Some(2u8),
        Yaku::SanAnkou => Some(2u8),
        Yaku::SanKantsu => Some(2u8),
        Yaku::Honroutou => Some(2u8),
        Yaku::Shousangen => Some(2u8),
        Yaku::Daisangen => Some(13u8),
        Yaku::Shousuushii => Some(13u8),
        Yaku::Daisuushii => Some(13u8),
        Yaku::Tsuuiisou => Some(13u8),
        Yaku::Chinroutou => Some(13u8),
        Yaku::Ryuuiisou => Some(13u8),
    }
}

pub open spec fn is_yakuman_spec(y: Yaku) -> bool {
    han_spec(y) >= 13
}

/// The han a pattern is worth given the hand's openness. A closed-only
/// pattern contributes nothing to an open hand.
pub open spec fn yaku_han_value(y: Yaku, open: bool) -> int {
    if open {
        match han_open_spec(y) {
            Some(h) => h as int,
            None => 0,
        }
    } else {
        han_spec(y)
    }
}

/// Total han of a pattern list given the hand's openness.
pub open spec fn han_sum(list: Seq<Yaku>, open: bool) -> int
    decreases list.len(),
{
    if list.len() == 0 {
        0
    } else {
        han_sum(list.drop_last(), open) + yaku_han_value(list.last(), open)
    }
}

pub proof fn lemma_han_sum_push(list: Seq<Yaku>, y: Yaku, open: bool)
    ensures
        han_sum(list.push(y), open) == han_sum(list, open) + yaku_han_value(y, open),
{
    assert(list.push(y).drop_last() =~= list);
}

impl Yaku {
    /// Base han for a closed hand; limit patterns report 13 (doubled: 26).
    pub fn han(&self) -> (r: u8)
        ensures
            r as int == han_spec(*self),
    {
        match self {
            Yaku::Riichi => 1,
            Yaku::Ippatsu => 1,
            Yaku::MenzenTsumo => 1,
            Yaku::Tanyao => 1,
            Yaku::Pinfu => 1,
            Yaku::Iipeikou => 1,
            Yaku::Yakuhai(_) => 1,
            Yaku::RinshanKaihou => 1,
            Yaku::Chankan => 1,
            Yaku::HaiteiRaoyue => 1,
            Yaku::HouteiRaoyui => 1,
            Yaku::DoubleRiichi => 2,
            Yaku::Toitoi => 2,
            Yaku::SanshokuDoujun => 2,
            Yaku::SanshokuDoukou => 2,
            Yaku::Ittsu => 2,
            Yaku::Chiitoitsu => 2,
            Yaku::Chanta => 2,
            Yaku::SanAnkou => 2,
            Yaku::SanKantsu => 2,
            Yaku::Honroutou => 2,
            Yaku::Shousangen => 2,
            Yaku::Honitsu => 3,
            Yaku::Junchan => 3,
            Yaku::Ryanpeikou => 3,
            Yaku::Chinitsu => 6,
            Yaku::Tenhou => 13,
            Yaku::Chiihou => 13,
            Yaku::KokushiMusou => 13,
            Yaku::Suuankou => 13,
            Yaku::Daisangen => 13,
            Yaku::Shousuushii => 13,
            Yaku::Daisuushii => 13,
            Yaku::Tsuuiisou => 13,
            Yaku::Chinroutou => 13,
            Yaku::Ryuuiisou => 13,
            Yaku::ChuurenPoutou => 13,
            Yaku::Kokushi13Wait => 26,
            Yaku::SuuankouTanki => 26,
            Yaku::JunseiChuurenPoutou => 26,
        }
    }

    /// Han when the hand is open; `None` when the pattern needs a closed
    /// hand.
    pub fn han_open(&self) -> (r: Option<u8>)
        ensures
            r == han_open_spec(*self),
    {
        match self {
            Yaku::Riichi => None,
            Yaku::DoubleRiichi => None,
            Yaku::Ippatsu => None,
            Yaku::MenzenTsumo => None,
            Yaku::Pinfu => None,
            Yaku::Iipeikou => None,
            Yaku::Ryanpeikou => None,
            Yaku::Tenhou => None,
            Yaku::Chiihou => None,
            Yaku::Suuankou => None,
            Yaku::SuuankouTanki => None,
            Yaku::ChuurenPoutou => None,
            Yaku::JunseiChuurenPoutou => None,
            Yaku::KokushiMusou => None,
            Yaku::Kokushi13Wait => None,
            Yaku::SanshokuDoujun => Some(1),
            Yaku::Ittsu => Some(1),
            Yaku::Chanta => Some(1),
            Yaku::Honitsu => Some(2),
            Yaku::Junchan => Some(2),
            Yaku::Chinitsu => Some(5),
            Yaku::Tanyao => Some(1),
            Yaku::Yakuhai(_) => Some(1),
            Yaku::RinshanKaihou => Some(1),
            Yaku::Chankan => Some(1),
            Yaku::HaiteiRaoyue => Some(1),
            Yaku::HouteiRaoyui => Some(1),
            Yaku::Toitoi => Some(2),
            Yaku::SanshokuDoukou => Some(2),
            Yaku::Chiitoitsu => Some(2),
            Yaku::SanAnkou => Some(2),
            Yaku::SanKantsu => Some(2),
            Yaku::Honroutou => Some(2),
            Yaku::Shousangen => Some(2),
            Yaku::Daisangen => Some(13),
            Yaku::Shousuushii => Some(13),
            Yaku::Daisuushii => Some(13),
            Yaku::Tsuuiisou => Some(13),
            Yaku::Chinroutou => Some(13),
            Yaku::Ryuuiisou => Some(13),
        }
    }

    /// Does the pattern still count when the hand is open?
    pub fn valid_when_open(&self) -> (r: bool)
        ensures
            r == (han_open_spec(*self) is Some),
    {
        self.han_open().is_some()
    }

    /// Is this a limit pattern?
    pub fn is_yakuman(&self) -> (r: bool)
        ensures
            r == is_yakuman_spec(*self),
    {
        match self {
            Yaku::Tenhou => true,
            Yaku::Chiihou => true,
            Yaku::KokushiMusou => true,
            Yaku::Kokushi13Wait => true,
            Yaku::Suuankou => true,
            Yaku::SuuankouTanki => true,
            Yaku::Daisangen => true,
            Yaku::Shousuushii => true,
            Yaku::Daisuushii => true,
            Yaku::Tsuuiisou => true,
            Yaku::Chinroutou => true,
            Yaku::Ryuuiisou => true,
            Yaku::ChuurenPoutou => true,
            Yaku::JunseiChuurenPoutou => true,
            _ => false,
        }
    }
}

/// An English name for each pattern.
pub fn yaku_name(yaku: &Yaku) -> (r: &'static str) {
    match yaku {
        Yaku::Riichi => "Riichi",
        Yaku::Ippatsu => "Ippatsu",
        Yaku::MenzenTsumo => "Menzen Tsumo",
        Yaku::Tanyao => "Tanyao (All Simples)",
        Yaku::Pinfu => "Pinfu",
        Yaku::Iipeikou => "Iipeikou (Pure Double Sequence)",
        Yaku::Yakuhai(h) => match h {
            Honor::East => "Yakuhai: East Wind",
            Honor::South => "Yakuhai: South Wind",
            Honor::West => "Yakuhai: West Wind",
            Honor::North => "Yakuhai: North Wind",
            Honor::White => "Yakuhai: White Dragon (Haku)",
            Honor::Green => "Yakuhai: Green Dragon (Hatsu)",
            Honor::Red => "Yakuhai: Red Dragon (Chun)",
        },
        Yaku::RinshanKaihou => "Rinshan Kaihou (After Kan)",
        Yaku::Chankan => "Chankan (Robbing the Kan)",
        Yaku::HaiteiRaoyue => "Haitei Raoyue (Last Tile Draw)",
        Yaku::HouteiRaoyui => "Houtei Raoyui (Last Tile Discard)",
        Yaku::DoubleRiichi => "Double Riichi",
        Yaku::Toitoi => "Toitoi (All Triplets)",
        Yaku::SanshokuDoujun => "Sanshoku Doujun (Mixed Triple Sequence)",
        Yaku::SanshokuDoukou => "Sanshoku Doukou (Triple Triplets)",
        Yaku::Ittsu => "Ittsu (Pure Straight)",
        Yaku::Chiitoitsu => "Chiitoitsu (Seven Pairs)",
        Yaku::Chanta => "Chanta (Outside Hand)",
        Yaku::SanAnkou => "San Ankou (Three Concealed Triplets)",
        Yaku::SanKantsu => "San Kantsu (Three Kans)",
        Yaku::Honroutou => "Honroutou (All Terminals and Honors)",
        Yaku::Shousangen => "Shousangen (Little Three Dragons)",
        Yaku::Honitsu => "Honitsu (Half Flush)",
        Yaku::Junchan => "Junchan (Terminals in All Groups)",
        Yaku::Ryanpeikou => "Ryanpeikou (Twice Pure Double Sequence)",
        Yaku::Chinitsu => "Chinitsu (Full Flush)",
        Yaku::Tenhou => "Tenhou (Heavenly Hand)",
        Yaku::Chiihou => "Chiihou (Earthly Hand)",
        Yaku::KokushiMusou => "Kokushi Musou (Thirteen Orphans)",
        Yaku::Suuankou => "Suuankou (Four Concealed Triplets)",
        Yaku::Daisangen => "Daisangen (Big Three Dragons)",
        Yaku::Shousuushii => "Shousuushii (Little Four Winds)",
        Yaku::Daisuushii => "Daisuushii (Big Four Winds)",
        Yaku::Tsuuiisou => "Tsuuiisou (All Honors)",
        Yaku::Chinroutou => "Chinroutou (All Terminals)",
        Yaku::Ryuuiisou => "Ryuuiisou (All Green)",
        Yaku::ChuurenPoutou => "Chuuren Poutou (Nine Gates)",
        Yaku::Kokushi13Wait => "Kokushi Juusanmen (Kokushi Musou 13-wait)",
        Yaku::SuuankouTanki => "Suuankou Tanki",
        Yaku::JunseiChuurenPoutou => "Junsei Chuuren Poutou",
    }
}

/// The detected patterns with their aggregate han and the bonus breakdown.
#[derive(Debug)]
pub struct YakuResult {
    pub yaku_list: Vec<Yaku>,
    /// Total han of the listed patterns (open-hand values when open).
    pub total_han: u8,
    /// All bonus tiles together.
    pub dora_count: u8,
    pub regular_dora: u8,
    pub ura_dora: u8,
    pub aka_dora: u8,
    /// Whether a limit pattern fired.
    pub is_yakuman: bool,
}

impl YakuResult {
    /// Reported han: bonus tiles count only for non-limit hands.
    pub fn total_han_with_dora(&self) -> (r: u8)
        requires
            self.total_han + self.dora_count <= 255,
        ensures
            r == if self.is_yakuman {
                self.total_han
            } else {
                (self.total_han + self.dora_count) as u8
            },
    {
        if self.is_yakuman {
            self.total_han
        } else {
            self.total_han + self.dora_count
        }
    }
}

// ===== helper predicates over a standard decomposition =====

/// Is the meld a triplet or quad of the given tile?
pub open spec fn is_set_of(m: Meld, t: Tile) -> bool {
    (m is Koutsu || m is Kan) && meld_tile_spec(m) == t
}

/// Does some meld hold this tile (a sequence holds three tiles)?
pub open spec fn meld_has_tile(m: Meld, t: Tile) -> bool {
    match m {
        Meld::Shuntsu(start, _) => match (start, t) {
            (Tile::Suited { suit: ss, value: sv }, Tile::Suited { suit: ts, value: tv }) =>
                ss == ts && sv <= tv <= sv + 2,
            _ => false,
        },
        Meld::Koutsu(mt, _) => mt == t,
        Meld::Kan(mt, _) => mt == t,
    }
}

/// How many melds are triplets or quads of a dragon.
pub open spec fn dragon_set_count(ms: Seq<Meld>) -> int
    decreases ms.len(),
{
    if ms.len() == 0 {
        0
    } else {
        dragon_set_count(ms.drop_last()) + if (ms.last() is Koutsu || ms.last() is Kan)
            && is_dragon_spec(meld_tile_spec(ms.last())) {
            1int
        } else {
            0int
        }
    }
}

/// How many melds are triplets or quads of a wind.
pub open spec fn wind_set_count(ms: Seq<Meld>) -> int
    decreases ms.len(),
{
    if ms.len() == 0 {
        0
    } else {
        wind_set_count(ms.drop_last()) + if (ms.last() is Koutsu || ms.last() is Kan)
            && is_wind_spec(meld_tile_spec(ms.last())) {
            1int
        } else {
            0int
        }
    }
}

/// How many melds are quads.
pub open spec fn kan_count_spec(ms: Seq<Meld>) -> int
    decreases ms.len(),
{
    if ms.len() == 0 {
        0
    } else {
        kan_count_spec(ms.drop_last()) + if ms.last() is Kan {
            1int
        } else {
            0int
        }
    }
}

/// How many sequences in the list start on this tile.
pub open spec fn seq_count_of(ms: Seq<Meld>, t: Tile) -> int
    decreases ms.len(),
{
    if ms.len() == 0 {
        0
    } else {
        seq_count_of(ms.drop_last(), t) + if ms.last() is Shuntsu
            && meld_tile_spec(ms.last()) == t {
            1int
        } else {
            0int
        }
    }
}

/// Count one meld into a running dragon/wind/kan/sequence census.
fn count_set_melds(melds: &Vec<Meld>) -> (r: (usize, usize, usize))
    ensures
        r.0 as int == dragon_set_count(melds@),
        r.1 as int == wind_set_count(melds@),
        r.2 as int == kan_count_spec(melds@),
{
    let mut dragons: usize = 0;
    let mut winds: usize = 0;
    let mut kans: usize = 0;
    let mut i: usize = 0;
    while i < melds.len()
        invariant
            i <= melds@.len(),
            dragons as int == dragon_set_count(melds@.take(i as int)),
            winds as int == wind_set_count(melds@.take(i as int)),
            kans as int == kan_count_spec(melds@.take(i as int)),
            dragons <= i,
            winds <= i,
            kans <= i,
        decreases melds@.len() - i,
    {
        let m = melds[i];
        let is_set = m.is_triplet_or_kan();
        if is_set && m.tile().is_dragon() {
            dragons = dragons + 1;
        }
        if is_set && m.tile().is_wind() {
            winds = winds + 1;
        }
        match m {
            Meld::Kan(_, _) => {
                kans = kans + 1;
            }
            _ => {}
        }
        proof {
            assert(melds@.take(i as int + 1).drop_last() =~= melds@.take(i as int));
            assert(melds@.take(i as int + 1).last() == melds@[i as int]);
        }
        i = i + 1;
    }
    proof {
        assert(melds@.take(melds@.len() as int) =~= melds@);
    }
    (dragons, winds, kans)
}

/// Does some meld in the list satisfy `is_set_of` for this tile?
fn has_set_of(melds: &Vec<Meld>, t: Tile) -> (r: bool)
    ensures
        r == exists|k: int| 0 <= k < melds@.len() && is_set_of(#[trigger] melds@[k], t),
{
    let mut i: usize = 0;
    while i < melds.len()
        invariant
            i <= melds@.len(),
            forall|k: int| 0 <= k < i ==> !is_set_of(#[trigger] melds@[k], t),
        decreases melds@.len() - i,
    {
        let m = melds[i];
        if m.is_triplet_or_kan() && m.tile() == t {
            proof {
                assert(is_set_of(melds@[i as int], t));
            }
            return true;
        }
        i = i + 1;
    }
    false
}

/// How many sequences in the list start on the given tile.
fn count_seq_of(melds: &Vec<Meld>, t: Tile) -> (r: usize)
    ensures
        r as int == seq_count_of(melds@, t),
        r <= melds@.len(),
{
    let mut n: usize = 0;
    let mut i: usize = 0;
    while i < melds.len()
        invariant
            i <= melds@.len(),
            n as int == seq_count_of(melds@.take(i as int), t),
            n <= i,
        decreases melds@.len() - i,
    {
        let m = melds[i];
        if m.is_sequence() && m.tile() == t {
            n = n + 1;
        }
        proof {
            assert(melds@.take(i as int + 1).drop_last() =~= melds@.take(i as int));
            assert(melds@.take(i as int + 1).last() == melds@[i as int]);
        }
        i = i + 1;
    }
    proof {
        assert(melds@.take(melds@.len() as int) =~= melds@);
    }
    n
}

/// All four melds plus the pair, each as the tiles it holds.
pub open spec fn structure_tile_present(melds: Seq<Meld>, pair: Tile, t: Tile) -> bool {
    t == pair || exists|k: int| 0 <= k < melds.len() && meld_has_tile(#[trigger] melds[k], t)
}

/// Big three dragons: three dragon triplets or quads.
pub open spec fn daisangen_spec(ms: Seq<Meld>) -> bool {
    dragon_set_count(ms) == 3
}

/// Little three dragons: two dragon sets and a dragon pair.
pub open spec fn shousangen_spec(ms: Seq<Meld>, pair: Tile) -> bool {
    dragon_set_count(ms) == 2 && is_dragon_spec(pair)
}

/// Three quads.
pub open spec fn sankantsu_spec(ms: Seq<Meld>) -> bool {
    kan_count_spec(ms) == 3
}

/// All-honors: honor pair and every meld a set of honors.
pub open spec fn tsuuiisou_spec(ms: Seq<Meld>, pair: Tile) -> bool {
    is_honor_spec(pair) && forall|k: int| 0 <= k < ms.len()
        ==> (#[trigger] ms[k] is Koutsu || ms[k] is Kan) && is_honor_spec(meld_tile_spec(ms[k]))
}

/// All-terminals: terminal pair and every meld a set of terminals.
pub open spec fn chinroutou_spec(ms: Seq<Meld>, pair: Tile) -> bool {
    is_terminal_spec(pair) && forall|k: int| 0 <= k < ms.len()
        ==> (#[trigger] ms[k] is Koutsu || ms[k] is Kan) && is_terminal_spec(meld_tile_spec(ms[k]))
}

/// All-green: green pair, and every meld either a set of a green tile or
/// the 2-3-4 of sou, the only all-green sequence.
pub open spec fn ryuuiisou_spec(ms: Seq<Meld>, pair: Tile) -> bool {
    is_green_spec(pair) && forall|k: int| 0 <= k < ms.len() ==> (match #[trigger] ms[k] {
        Meld::Koutsu(t, _) => is_green_spec(t),
        Meld::Kan(t, _) => is_green_spec(t),
        Meld::Shuntsu(start, _) => start == (Tile::Suited { suit: Suit::Sou, value: 2u8 }),
    })
}

/// All terminals and honors, no sequences.
pub open spec fn honroutou_spec(ms: Seq<Meld>, pair: Tile) -> bool {
    is_terminal_or_honor_spec(pair) && forall|k: int| 0 <= k < ms.len()
        ==> (#[trigger] ms[k] is Koutsu || ms[k] is Kan)
            && is_terminal_or_honor_spec(meld_tile_spec(ms[k]))
}

/// All triplets or quads.
pub open spec fn toitoi_spec(ms: Seq<Meld>) -> bool {
    forall|k: int| 0 <= k < ms.len() ==> #[trigger] ms[k] is Koutsu || ms[k] is Kan
}

fn check_daisangen(melds: &Vec<Meld>) -> (r: bool)
    ensures
        r == daisangen_spec(melds@),
{
    let (dragons, _, _) = count_set_melds(melds);
    dragons == 3
}

fn check_shousangen(melds: &Vec<Meld>, pair: Tile) -> (r: bool)
    ensures
        r == shousangen_spec(melds@, pair),
{
    let (dragons, _, _) = count_set_melds(melds);
    dragons == 2 && pair.is_dragon()
}

/// Big or little four winds, if either applies.
fn check_four_winds(melds: &Vec<Meld>, pair: Tile) -> (r: Option<Yaku>)
    ensures
        r == if wind_set_count(melds@) == 4 {
            Some(Yaku::Daisuushii)
        } else if wind_set_count(melds@) == 3 && is_wind_spec(pair)
            && !exists|k: int| 0 <= k < melds@.len() && is_set_of(#[trigger] melds@[k], pair) {
            Some(Yaku::Shousuushii)
        } else {
            None::<Yaku>
        },
{
    let (_, winds, _) = count_set_melds(melds);
    if winds == 4 {
        return Some(Yaku::Daisuushii);
    }
    if winds == 3 && pair.is_wind() && !has_set_of(melds, pair) {
        return Some(Yaku::Shousuushii);
    }
    None
}

fn check_tsuuiisou(melds: &Vec<Meld>, pair: Tile) -> (r: bool)
    ensures
        r == tsuuiisou_spec(melds@, pair),
{
    if !pair.is_honor() {
        return false;
    }
    let mut i: usize = 0;
    while i < melds.len()
        invariant
            i <= melds@.len(),
            forall|k: int| 0 <= k < i ==> (#[trigger] melds@[k] is Koutsu || melds@[k] is Kan)
                && is_honor_spec(meld_tile_spec(melds@[k])),
        decreases melds@.len() - i,
    {
        let m = melds[i];
        if !m.is_triplet_or_kan() || !m.tile().is_honor() {
            return false;
        }
        i = i + 1;
    }
    true
}

fn check_chinroutou(melds: &Vec<Meld>, pair: Tile) -> (r: bool)
    ensures
        r == chinroutou_spec(melds@, pair),
{
    if !pair.is_terminal() {
        return false;
    }
    let mut i: usize = 0;
    while i < melds.len()
        invariant
            i <= melds@.len(),
            forall|k: int| 0 <= k < i ==> (#[trigger] melds@[k] is Koutsu || melds@[k] is Kan)
                && is_terminal_spec(meld_tile_spec(melds@[k])),
        decreases melds@.len() - i,
    {
        let m = melds[i];
        if !m.is_triplet_or_kan() || !m.tile().is_terminal() {
            return false;
        }
        i = i + 1;
    }
    true
}

fn check_ryuuiisou(melds: &Vec<Meld>, pair: Tile) -> (r: bool)
    ensures
        r == ryuuiisou_spec(melds@, pair),
{
    if !pair.is_green() {
        return false;
    }
    let mut i: usize = 0;
    while i < melds.len()
        invariant
            i <= melds@.len(),
            forall|k: int| 0 <= k < i ==> (match #[trigger] melds@[k] {
                Meld::Koutsu(t, _) => is_green_spec(t),
                Meld::Kan(t, _) => is_green_spec(t),
                Meld::Shuntsu(start, _) => start == (Tile::Suited { suit: Suit::Sou, value: 2u8 }),
            }),
        decreases melds@.len() - i,
    {
        let ok = match &melds[i] {
            Meld::Koutsu(t, _) => t.is_green(),
            Meld::Kan(t, _) => t.is_green(),
            Meld::Shuntsu(start, _) => *start == Tile::Suited { suit: Suit::Sou, value: 2 },
        };
        if !ok {
            return false;
        }
        i = i + 1;
    }
    true
}

fn check_honroutou(melds: &Vec<Meld>, pair: Tile) -> (r: bool)
    ensures
        r == honroutou_spec(melds@, pair),
{
    if !pair.is_terminal_or_honor() {
        return false;
    }
    let mut i: usize = 0;
    while i < melds.len()
        invariant
            i <= melds@.len(),
            forall|k: int| 0 <= k < i ==> (#[trigger] melds@[k] is Koutsu || melds@[k] is Kan)
                && is_terminal_or_honor_spec(meld_tile_spec(melds@[k])),
        decreases melds@.len() - i,
    {
        let m = melds[i];
        if !m.is_triplet_or_kan() || !m.tile().is_terminal_or_honor() {
            return false;
        }
        i = i + 1;
    }
    true
}

fn check_toitoi(melds: &Vec<Meld>) -> (r: bool)
    ensures
        r == toitoi_spec(melds@),
{
    let mut i: usize = 0;
    while i < melds.len()
        invariant
            i <= melds@.len(),
            forall|k: int| 0 <= k < i ==> #[trigger] melds@[k] is Koutsu || melds@[k] is Kan,
        decreases melds@.len() - i,
    {
        if !melds[i].is_triplet_or_kan() {
            return false;
        }
        i = i + 1;
    }
    true
}

/// Same-start sequence in all three suits.
pub open spec fn sanshoku_spec(ms: Seq<Meld>) -> bool {
    exists|v: u8| 1 <= v <= 7 && seq_count_of(ms, Tile::Suited { suit: Suit::Man, value: v }) > 0
        && seq_count_of(ms, Tile::Suited { suit: Suit::Pin, value: v }) > 0
        && #[trigger] seq_count_of(ms, Tile::Suited { suit: Suit::Sou, value: v }) > 0
}

fn check_sanshoku(melds: &Vec<Meld>) -> (r: bool)
    ensures
        r == sanshoku_spec(melds@),
{
    let mut v: u8 = 1;
    while v <= 7
        invariant
            1 <= v <= 8,
            forall|v2: u8| 1 <= v2 < v ==> !(seq_count_of(melds@,
                Tile::Suited { suit: Suit::Man, value: v2 }) > 0 && seq_count_of(melds@,
                Tile::Suited { suit: Suit::Pin, value: v2 }) > 0 && #[trigger] seq_count_of(
                melds@, Tile::Suited { suit: Suit::Sou, value: v2 }) > 0),
        decreases 8 - v,
    {
        let man = count_seq_of(melds, Tile::Suited { suit: Suit::Man, value: v });
        let pin = count_seq_of(melds, Tile::Suited { suit: Suit::Pin, value: v });
        let sou = count_seq_of(melds, Tile::Suited { suit: Suit::Sou, value: v });
        if man > 0 && pin > 0 && sou > 0 {
            proof {
                assert(seq_count_of(melds@, Tile::Suited { suit: Suit::Sou, value: v }) > 0);
            }
            return true;
        }
        v = v + 1;
    }
    false
}

/// Same-value triplet in all three suits.
pub open spec fn triplet_of_value(ms: Seq<Meld>, suit: Suit, v: u8) -> bool {
    exists|k: int| 0 <= k < ms.len() && is_set_of(#[trigger] ms[k],
        Tile::Suited { suit, value: v })
}

pub open spec fn sanshoku_doukou_spec(ms: Seq<Meld>) -> bool {
    exists|v: u8| 1 <= v <= 9 && triplet_of_value(ms, Suit::Man, v)
        && triplet_of_value(ms, Suit::Pin, v) && #[trigger] triplet_of_value(ms, Suit::Sou, v)
}

fn check_sanshoku_doukou(melds: &Vec<Meld>) -> (r: bool)
    ensures
        r == sanshoku_doukou_spec(melds@),
{
    let mut v: u8 = 1;
    while v <= 9
        invariant
            1 <= v <= 10,
            forall|v2: u8| 1 <= v2 < v ==> !(triplet_of_value(melds@, Suit::Man, v2)
                && triplet_of_value(melds@, Suit::Pin, v2)
                && #[trigger] triplet_of_value(melds@, Suit::Sou, v2)),
        decreases 10 - v,
    {
        let man = has_set_of(melds, Tile::Suited { suit: Suit::Man, value: v });
        let pin = has_set_of(melds, Tile::Suited { suit: Suit::Pin, value: v });
        let sou = has_set_of(melds, Tile::Suited { suit: Suit::Sou, value: v });
        if man && pin && sou {
            proof {
                assert(triplet_of_value(melds@, Suit::Man, v));
                assert(triplet_of_value(melds@, Suit::Pin, v));
                assert(triplet_of_value(melds@, Suit::Sou, v));
            }
            return true;
        }
        v = v + 1;
    }
    false
}

/// The 1-9 straight: sequences starting at 1, 4 and 7 in one suit.
pub open spec fn ittsu_in_suit(ms: Seq<Meld>, suit: Suit) -> bool {
    seq_count_of(ms, Tile::Suited { suit, value: 1u8 }) > 0
    && seq_count_of(ms, Tile::Suited { suit, value: 4u8 }) > 0
    && seq_count_of(ms, Tile::Suited { suit, value: 7u8 }) > 0
}

pub open spec fn ittsu_spec(ms: Seq<Meld>) -> bool {
    ittsu_in_suit(ms, Suit::Man) || ittsu_in_suit(ms, Suit::Pin) || ittsu_in_suit(ms, Suit::Sou)
}

fn check_ittsu_suit(melds: &Vec<Meld>, suit: Suit) -> (r: bool)
    ensures
        r == ittsu_in_suit(melds@, suit),
{
    let a = count_seq_of(melds, Tile::Suited { suit, value: 1 });
    let b = count_seq_of(melds, Tile::Suited { suit, value: 4 });
    let c = count_seq_of(melds, Tile::Suited { suit, value: 7 });
    a > 0 && b > 0 && c > 0
}

fn check_ittsu(melds: &Vec<Meld>) -> (r: bool)
    ensures
        r == ittsu_spec(melds@),
{
    check_ittsu_suit(melds, Suit::Man) || check_ittsu_suit(melds, Suit::Pin)
        || check_ittsu_suit(melds, Suit::Sou)
}

/// Does every group touch a terminal or honor, with at least one sequence?
pub open spec fn chanta_meld_ok(m: Meld) -> bool {
    match m {
        Meld::Koutsu(t, _) => is_terminal_or_honor_spec(t),
        Meld::Kan(t, _) => is_terminal_or_honor_spec(t),
        Meld::Shuntsu(t, _) => match t {
            Tile::Suited { suit, value } => value == 1 || value == 7,
            Tile::Honor(_) => true,
        },
    }
}

pub open spec fn has_sequence_spec(ms: Seq<Meld>) -> bool {
    exists|k: int| 0 <= k < ms.len() && #[trigger] ms[k] is Shuntsu
}

pub open spec fn chanta_spec(ms: Seq<Meld>, pair: Tile) -> bool {
    is_terminal_or_honor_spec(pair) && has_sequence_spec(ms)
    && forall|k: int| 0 <= k < ms.len() ==> chanta_meld_ok(#[trigger] ms[k])
}

/// Every group touches a terminal and no honors appear at all.
pub open spec fn junchan_meld_ok(m: Meld) -> bool {
    match m {
        Meld::Koutsu(t, _) => is_terminal_spec(t),
        Meld::Kan(t, _) => is_terminal_spec(t),
        Meld::Shuntsu(t, _) => match t {
            Tile::Suited { suit, value } => value == 1 || value == 7,
            Tile::Honor(_) => false,
        },
    }
}

pub open spec fn junchan_spec(ms: Seq<Meld>, pair: Tile) -> bool {
    is_terminal_spec(pair) && has_sequence_spec(ms)
    && forall|k: int| 0 <= k < ms.len() ==> junchan_meld_ok(#[trigger] ms[k])
}

fn has_sequence(melds: &Vec<Meld>) -> (r: bool)
    ensures
        r == has_sequence_spec(melds@),
{
    let mut i: usize = 0;
    while i < melds.len()
        invariant
            i <= melds@.len(),
            forall|k: int| 0 <= k < i ==> !(#[trigger] melds@[k] is Shuntsu),
        decreases melds@.len() - i,
    {
        if melds[i].is_sequence() {
            proof {
                assert(melds@[i as int] is Shuntsu);
            }
            return true;
        }
        i = i + 1;
    }
    false
}

fn check_chanta(melds: &Vec<Meld>, pair: Tile) -> (r: bool)
    ensures
        r == chanta_spec(melds@, pair),
{
    if !pair.is_terminal_or_honor() {
        return false;
    }
    if !has_sequence(melds) {
        return false;
    }
    let mut i: usize = 0;
    while i < melds.len()
        invariant
            i <= melds@.len(),
            forall|k: int| 0 <= k < i ==> chanta_meld_ok(#[trigger] melds@[k]),
        decreases melds@.len() - i,
    {
        let ok = match &melds[i] {
            Meld::Koutsu(t, _) => t.is_terminal_or_honor(),
            Meld::Kan(t, _) => t.is_terminal_or_honor(),
            Meld::Shuntsu(t, _) => match t {
                Tile::Suited { value, .. } => *value == 1 || *value == 7,
                Tile::Honor(_) => true,
            },
        };
        if !ok {
            return false;
        }
        i = i + 1;
    }
    true
}

fn check_junchan(melds: &Vec<Meld>, pair: Tile) -> (r: bool)
    ensures
        r == junchan_spec(melds@, pair),
{
    let pair_ok = match pair {
        Tile::Suited { value, .. } => value == 1 || value == 9,
        Tile::Honor(_) => false,
    };
    if !pair_ok {
        return false;
    }
    if !has_sequence(melds) {
        return false;
    }
    let mut i: usize = 0;
    while i < melds.len()
        invariant
            i <= melds@.len(),
            forall|k: int| 0 <= k < i ==> junchan_meld_ok(#[trigger] melds@[k]),
        decreases melds@.len() - i,
    {
        let ok = match &melds[i] {
            Meld::Koutsu(t, _) => t.is_terminal(),
            Meld::Kan(t, _) => t.is_terminal(),
            Meld::Shuntsu(t, _) => match t {
                Tile::Suited { value, .. } => *value == 1 || *value == 7,
                Tile::Honor(_) => false,
            },
        };
        if !ok {
            return false;
        }
        i = i + 1;
    }
    true
}

/// How many distinct start tiles carry at least two identical sequences.
pub open spec fn peikou_pairs(ms: Seq<Meld>, upto: int) -> int
    decreases upto,
{
    if upto <= 0 {
        0
    } else {
        peikou_pairs(ms, upto - 1) + if seq_count_of(ms,
            crate::tile::tile_of_index(upto - 1)) >= 2 {
            1int
        } else {
            0int
        }
    }
}

/// One pair of identical sequences, or two.
fn check_peikou(melds: &Vec<Meld>) -> (r: Option<Yaku>)
    requires
        forall|k: int| 0 <= k < melds@.len() ==> crate::hand::meld_wf(#[trigger] melds@[k]),
    ensures
        r == if peikou_pairs(melds@, 34) >= 2 {
            Some(Yaku::Ryanpeikou)
        } else if peikou_pairs(melds@, 34) == 1 {
            Some(Yaku::Iipeikou)
        } else {
            None::<Yaku>
        },
{
    let mut pairs: u32 = 0;
    let mut j: usize = 0;
    while j < 34
        invariant
            j <= 34,
            pairs as int == peikou_pairs(melds@, j as int),
            pairs <= j,
        decreases 34 - j,
    {
        let t = crate::tile::index_to_tile(j);
        let n = count_seq_of(melds, t);
        if n >= 2 {
            pairs = pairs + 1;
        }
        j = j + 1;
    }
    if pairs >= 2 {
        Some(Yaku::Ryanpeikou)
    } else if pairs == 1 {
        Some(Yaku::Iipeikou)
    } else {
        None
    }
}

/// How many times the pattern list should name this honor: once per
/// triplet or quad of it when it is a dragon, and once per matching wind
/// role (round, seat — both when it matches both) when it is a wind.
pub open spec fn yakuhai_weight(h: Honor, ctx: GameContext) -> int {
    if h == Honor::White || h == Honor::Green || h == Honor::Red {
        1
    } else {
        (if h == ctx.round_wind {
            1int
        } else {
            0int
        }) + if h == ctx.seat_wind {
            1int
        } else {
            0int
        }
    }
}

/// The value-honor entries owed to the melds, in meld order.
pub open spec fn yakuhai_expected(ms: Seq<Meld>, ctx: GameContext) -> Seq<Yaku>
    decreases ms.len(),
{
    if ms.len() == 0 {
        Seq::empty()
    } else {
        yakuhai_expected(ms.drop_last(), ctx) + (match ms.last() {
            Meld::Koutsu(Tile::Honor(h), _) => yakuhai_entries(h, ctx),
            Meld::Kan(Tile::Honor(h), _) => yakuhai_entries(h, ctx),
            _ => Seq::empty(),
        })
    }
}

/// The entries one honor set earns: dragons always, winds per matching role.
pub open spec fn yakuhai_entries(h: Honor, ctx: GameContext) -> Seq<Yaku> {
    if h == Honor::White || h == Honor::Green || h == Honor::Red {
        seq![Yaku::Yakuhai(h)]
    } else {
        (if h == ctx.round_wind {
            seq![Yaku::Yakuhai(h)]
        } else {
            Seq::empty()
        }) + if h == ctx.seat_wind {
            seq![Yaku::Yakuhai(h)]
        } else {
            Seq::empty()
        }
    }
}

/// Every value-honor set contributes its pattern entries: dragon sets
/// always, wind sets once per matching role, twice when the wind is both
/// the round and the seat wind.
#[verifier::loop_isolation(false)]
pub fn check_yakuhai(melds: &Vec<Meld>, context: &GameContext) -> (r: Vec<Yaku>)
    ensures
        r@ == yakuhai_expected(melds@, *context),
{
    let mut result: Vec<Yaku> = Vec::new();
    let mut i: usize = 0;
    while i < melds.len()
        invariant
            i <= melds@.len(),
            result@ == yakuhai_expected(melds@.take(i as int), *context),
        decreases melds@.len() - i,
    {
        let honor: Option<Honor> = match &melds[i] {
            Meld::Koutsu(Tile::Honor(h), _) => Some(*h),
            Meld::Kan(Tile::Honor(h), _) => Some(*h),
            _ => None,
        };
        let ghost pre = result@;
        if let Some(h) = honor {
            match h {
                Honor::White => {
                    result.push(Yaku::Yakuhai(h));
                }
                Honor::Green => {
                    result.push(Yaku::Yakuhai(h));
                }
                Honor::Red => {
                    result.push(Yaku::Yakuhai(h));
                }
                _ => {
                    if h == context.round_wind {
                        result.push(Yaku::Yakuhai(h));
                    }
                    if h == context.seat_wind {
                        result.push(Yaku::Yakuhai(h));
                    }
                }
            }
        }
        proof {
            assert(melds@.take(i as int + 1).drop_last() =~= melds@.take(i as int));
            assert(melds@.take(i as int + 1).last() == melds@[i as int]);
            assert(result@ =~= yakuhai_expected(melds@.take(i as int + 1), *context));
        }
        i = i + 1;
    }
    proof {
        assert(melds@.take(melds@.len() as int) =~= melds@);
    }
    result
}

/// Does some listed pattern reach the limit?
pub open spec fn has_yakuman(list: Seq<Yaku>) -> bool {
    exists|k: int| 0 <= k < list.len() && is_yakuman_spec(#[trigger] list[k])
}

/// Concealed triplets for the three-concealed-triplets count: a closed
/// triplet counts unless the winning tile arrived by discard and completed
/// it with no closed-sequence alternative; closed quads always count.
pub open spec fn sanankou_counts_meld(m: Meld, all: Seq<Meld>, ctx: GameContext) -> bool {
    match m {
        Meld::Koutsu(t, open) => !open && (ctx.win_type == WinType::Tsumo
            || (match ctx.winning_tile {
                Some(wt) => t != wt || crate::hand::tile_in_closed_sequence_spec(wt, all),
                None => false,
            })),
        Meld::Kan(_, k) => !kan_open_spec(k),
        Meld::Shuntsu(_, _) => false,
    }
}

pub open spec fn sanankou_count_spec(ms: Seq<Meld>, all: Seq<Meld>, ctx: GameContext) -> int
    decreases ms.len(),
{
    if ms.len() == 0 {
        0
    } else {
        sanankou_count_spec(ms.drop_last(), all, ctx) + if sanankou_counts_meld(ms.last(), all,
            ctx) {
            1int
        } else {
            0int
        }
    }
}

/// Count the concealed triplets and quads under the discard rule.
fn count_concealed_sets(melds: &Vec<Meld>, context: &GameContext) -> (r: usize)
    ensures
        r as int == sanankou_count_spec(melds@, melds@, *context),
{
    let mut n: usize = 0;
    let mut i: usize = 0;
    while i < melds.len()
        invariant
            i <= melds@.len(),
            n as int == sanankou_count_spec(melds@.take(i as int), melds@, *context),
            n <= i,
        decreases melds@.len() - i,
    {
        let counted: bool = match &melds[i] {
            Meld::Koutsu(t, open) => {
                if *open {
                    false
                } else if matches!(context.win_type, WinType::Tsumo) {
                    true
                } else {
                    match context.winning_tile {
                        Some(wt) => {
                            if *t == wt {
                                crate::hand::tile_in_closed_sequence(wt, melds)
                            } else {
                                true
                            }
                        }
                        None => false,
                    }
                }
            }
            Meld::Kan(_, k) => !k.is_open(),
            Meld::Shuntsu(_, _) => false,
        };
        if counted {
            n = n + 1;
        }
        proof {
            assert(melds@.take(i as int + 1).drop_last() =~= melds@.take(i as int));
            assert(melds@.take(i as int + 1).last() == melds@[i as int]);
            assert(counted == sanankou_counts_meld(melds@[i as int], melds@, *context));
        }
        i = i + 1;
    }
    proof {
        assert(melds@.take(melds@.len() as int) =~= melds@);
    }
    n
}

/// Concealed sets for the four-concealed-triplets limit pattern: a closed
/// triplet does not count when a discard completed it; closed quads count.
pub open spec fn suuankou_counts_meld(m: Meld, ctx: GameContext) -> bool {
    match m {
        Meld::Koutsu(t, open) => !open && !(ctx.win_type == WinType::Ron
            && ctx.winning_tile == Some(t)),
        Meld::Kan(_, k) => !kan_open_spec(k),
        Meld::Shuntsu(_, _) => false,
    }
}

pub open spec fn suuankou_count_spec(ms: Seq<Meld>, ctx: GameContext) -> int
    decreases ms.len(),
{
    if ms.len() == 0 {
        0
    } else {
        suuankou_count_spec(ms.drop_last(), ctx) + if suuankou_counts_meld(ms.last(), ctx) {
            1int
        } else {
            0int
        }
    }
}

/// Four concealed triplets: all four sets concealed under the discard rule,
/// no sequences, and a known winning tile when won by discard.
pub open spec fn suuankou_spec(ms: Seq<Meld>, ctx: GameContext) -> bool {
    !(ctx.win_type == WinType::Ron && ctx.winning_tile is None)
    && !has_sequence_spec(ms) && suuankou_count_spec(ms, ctx) == 4
}

fn check_suuankou(melds: &Vec<Meld>, context: &GameContext) -> (r: bool)
    ensures
        r == suuankou_spec(melds@, *context),
{
    if matches!(context.win_type, WinType::Ron) && context.winning_tile.is_none() {
        return false;
    }
    if has_sequence(melds) {
        return false;
    }
    let mut n: usize = 0;
    let mut i: usize = 0;
    while i < melds.len()
        invariant
            i <= melds@.len(),
            n as int == suuankou_count_spec(melds@.take(i as int), *context),
            n <= i,
        decreases melds@.len() - i,
    {
        let counted: bool = match &melds[i] {
            Meld::Koutsu(t, open) => {
                if *open {
                    false
                } else if matches!(context.win_type, WinType::Ron)
                    && context.winning_tile == Some(*t) {
                    false
                } else {
                    true
                }
            }
            Meld::Kan(_, k) => !k.is_open(),
            Meld::Shuntsu(_, _) => false,
        };
        if counted {
            n = n + 1;
        }
        proof {
            assert(melds@.take(i as int + 1).drop_last() =~= melds@.take(i as int));
            assert(melds@.take(i as int + 1).last() == melds@[i as int]);
            assert(counted == suuankou_counts_meld(melds@[i as int], *context));
        }
        i = i + 1;
    }
    proof {
        assert(melds@.take(melds@.len() as int) =~= melds@);
    }
    n == 4
}

/// The first index of each suit's block in the dense counts.
pub open spec fn suit_base(s: Suit) -> int {
    match s {
        Suit::Man => 0,
        Suit::Pin => 9,
        Suit::Sou => 18,
    }
}

/// Each count the nine-gates base pattern needs: three of the 1 and 9,
/// one of everything between.
pub open spec fn chuuren_required(v: int) -> int {
    if v == 1 || v == 9 {
        3
    } else {
        1
    }
}

/// All tiles stand in the single suit `s`.
pub open spec fn counts_only_suit(c: Seq<u8>, s: Suit) -> bool {
    forall|j: int| 0 <= j < 34 && !(suit_base(s) <= j < suit_base(s) + 9) ==> #[trigger] c[j] == 0
}

/// The nine-gates shape in suit `s`: the base pattern plus one extra tile,
/// fourteen tiles in all.
pub open spec fn chuuren_pattern(c: Seq<u8>, s: Suit) -> bool {
    counts_only_suit(c, s)
    && (forall|v: int| 1 <= v <= 9 ==> #[trigger] c[suit_base(s) + v - 1] as int
        >= chuuren_required(v))
    && crate::tile::sum_counts(c, 34) == 14
}

/// Nine gates fires in this suit with this context; the pure form fires
/// when the winning tile is the extra copy beyond the base pattern.
pub open spec fn chuuren_junsei(c: Seq<u8>, s: Suit, ctx: GameContext) -> bool {
    match ctx.winning_tile {
        Some(Tile::Suited { suit: ws, value: wv }) => ws == s && 1 <= wv <= 9
            && c[suit_base(s) + wv - 1] as int == chuuren_required(wv as int) + 1,
        _ => false,
    }
}

/// The suit of the nine-gates hand, when the multiset is a nine-gates shape.
pub open spec fn chuuren_suit_of(c: Seq<u8>) -> Option<Suit> {
    if chuuren_pattern(c, Suit::Man) {
        Some(Suit::Man)
    } else if chuuren_pattern(c, Suit::Pin) {
        Some(Suit::Pin)
    } else if chuuren_pattern(c, Suit::Sou) {
        Some(Suit::Sou)
    } else {
        None
    }
}

/// Check one suit for the nine-gates shape.
#[verifier::loop_isolation(false)]
fn check_chuuren_suit(counts: &TileCounts, s: Suit) -> (r: bool)
    requires
        counts.wf(),
    ensures
        r == chuuren_pattern(counts@, s),
{
    let base: usize = match s {
        Suit::Man => 0,
        Suit::Pin => 9,
        Suit::Sou => 18,
    };
    let mut j: usize = 0;
    while j < 34
        invariant
            j <= 34,
            forall|jj: int| 0 <= jj < j && !(base <= jj < base + 9) ==> #[trigger] counts@[jj]
                == 0,
        decreases 34 - j,
    {
        if (j < base || j >= base + 9) && counts.get_idx(j) != 0 {
            return false;
        }
        j = j + 1;
    }
    let mut v: usize = 1;
    while v <= 9
        invariant
            1 <= v <= 10,
            forall|vv: int| 1 <= vv < v ==> #[trigger] counts@[base + vv - 1] as int
                >= chuuren_required(vv),
        decreases 10 - v,
    {
        let need: u8 = if v == 1 || v == 9 {
            3
        } else {
            1
        };
        if counts.get_idx(base + v - 1) < need {
            proof {
                assert(base as int == suit_base(s));
                assert(!(counts@[suit_base(s) + (v as int) - 1] as int
                    >= chuuren_required(v as int)));
            }
            return false;
        }
        v = v + 1;
    }
    let total = counts.total();
    total == 14
}

/// Nine gates, distinguishing the pure nine-sided form.
fn check_chuuren_poutou(counts: &TileCounts, context: &GameContext) -> (r: Option<Yaku>)
    requires
        counts.wf(),
    ensures
        r == (match chuuren_suit_of(counts@) {
            Some(s) => if !context.is_open {
                if chuuren_junsei(counts@, s, *context) {
                    Some(Yaku::JunseiChuurenPoutou)
                } else {
                    Some(Yaku::ChuurenPoutou)
                }
            } else {
                None::<Yaku>
            },
            None => None::<Yaku>,
        }),
{
    if context.is_open {
        proof {
            // the result is None whatever the shape is
            match chuuren_suit_of(counts@) {
                Some(_) => {}
                None => {}
            }
        }
        return None;
    }
    let mut found: Option<Suit> = None;
    if check_chuuren_suit(counts, Suit::Man) {
        found = Some(Suit::Man);
    } else if check_chuuren_suit(counts, Suit::Pin) {
        found = Some(Suit::Pin);
    } else if check_chuuren_suit(counts, Suit::Sou) {
        found = Some(Suit::Sou);
    }
    match found {
        None => None,
        Some(s) => {
            let base: usize = match s {
                Suit::Man => 0,
                Suit::Pin => 9,
                Suit::Sou => 18,
            };
            let junsei = match context.winning_tile {
                Some(Tile::Suited { suit: ws, value: wv }) => {
                    if ws == s && wv >= 1 && wv <= 9 {
                        let need: u8 = if wv == 1 || wv == 9 {
                            3
                        } else {
                            1
                        };
                        counts.get_idx(base + wv as usize - 1) == need + 1
                    } else {
                        false
                    }
                }
                _ => false,
            };
            proof {
                // a winning value outside 1..=9 cannot reach the required
                // count plus one inside a well-formed shape
                if !junsei && chuuren_junsei(counts@, s, *context) {
                    assert(false);
                }
            }
            if junsei {
                Some(Yaku::JunseiChuurenPoutou)
            } else {
                Some(Yaku::ChuurenPoutou)
            }
        }
    }
}

/// Every tile of the meld is a simple.
pub open spec fn meld_all_simple(m: Meld) -> bool {
    match m {
        Meld::Shuntsu(t, _) => match t {
            Tile::Suited { suit, value } => 2 <= value && value + 2 <= 8,
            Tile::Honor(_) => false,
        },
        Meld::Koutsu(t, _) => is_simple_spec(t),
        Meld::Kan(t, _) => is_simple_spec(t),
    }
}

/// All simples over a whole standard decomposition.
pub open spec fn tanyao_spec(ms: Seq<Meld>, pair: Tile) -> bool {
    is_simple_spec(pair) && forall|k: int| 0 <= k < ms.len() ==> meld_all_simple(#[trigger] ms[k])
}

fn check_tanyao(melds: &Vec<Meld>, pair: Tile) -> (r: bool)
    ensures
        r == tanyao_spec(melds@, pair),
{
    if !pair.is_simple() {
        return false;
    }
    let mut i: usize = 0;
    while i < melds.len()
        invariant
            i <= melds@.len(),
            forall|k: int| 0 <= k < i ==> meld_all_simple(#[trigger] melds@[k]),
        decreases melds@.len() - i,
    {
        let ok = match &melds[i] {
            Meld::Shuntsu(t, _) => match t {
                Tile::Suited { value, .. } => *value >= 2 && *value as u16 + 2 <= 8,
                Tile::Honor(_) => false,
            },
            Meld::Koutsu(t, _) => t.is_simple(),
            Meld::Kan(t, _) => t.is_simple(),
        };
        if !ok {
            return false;
        }
        i = i + 1;
    }
    true
}

/// Is every tile of the meld either an honor or of suit `s`?
pub open spec fn meld_in_suit_or_honor(m: Meld, s: Suit) -> bool {
    match meld_tile_spec(m) {
        Tile::Suited { suit, .. } => suit == s,
        Tile::Honor(_) => !(m is Shuntsu),
    }
}

pub open spec fn meld_is_suited(m: Meld) -> bool {
    meld_tile_spec(m) is Suited
}

pub open spec fn meld_is_honor(m: Meld) -> bool {
    meld_tile_spec(m) is Honor
}

/// Half or full flush over a standard decomposition.
pub open spec fn flush_melds_result(ms: Seq<Meld>, pair: Tile) -> Option<Yaku> {
    if exists|s: Suit| #[trigger] flush_in_suit(ms, pair, s) {
        if (pair is Honor) || exists|k: int| 0 <= k < ms.len() && meld_is_honor(#[trigger] ms[k]) {
            Some(Yaku::Honitsu)
        } else {
            Some(Yaku::Chinitsu)
        }
    } else {
        None
    }
}

/// All suited tiles stand in suit `s`, and some suited tile exists.
pub open spec fn flush_in_suit(ms: Seq<Meld>, pair: Tile, s: Suit) -> bool {
    (forall|k: int| 0 <= k < ms.len() ==> meld_in_suit_or_honor(#[trigger] ms[k], s))
    && (match pair {
        Tile::Suited { suit, .. } => suit == s,
        Tile::Honor(_) => true,
    })
    && ((pair is Suited) || exists|k: int| 0 <= k < ms.len() && meld_is_suited(#[trigger] ms[k]))
}

/// Half flush or full flush of a standard decomposition, if either holds.
#[verifier::loop_isolation(false)]
fn check_flush_melds(melds: &Vec<Meld>, pair: Tile) -> (r: Option<Yaku>)
    ensures
        r == flush_melds_result(melds@, pair),
{
    // find the suit, reject a second one, note honors
    let mut found_suit: Option<Suit> = None;
    let mut has_honor = false;
    let pair_suit: Option<Suit> = match pair {
        Tile::Suited { suit, .. } => Some(suit),
        Tile::Honor(_) => {
            has_honor = true;
            None
        }
    };
    if let Some(s) = pair_suit {
        found_suit = Some(s);
    }
    let mut i: usize = 0;
    let mut ok = true;
    while i < melds.len()
        invariant
            i <= melds@.len(),
            has_honor == ((pair is Honor) || exists|k: int| 0 <= k < i
                && meld_is_honor(#[trigger] melds@[k])),
            match found_suit {
                Some(s) => ((pair matches Tile::Suited { suit, .. } ==> suit == s))
                    && ((pair is Suited) || exists|k: int| 0 <= k < i
                        && meld_is_suited(#[trigger] melds@[k]))
                    && (ok ==> forall|k: int| 0 <= k < i ==> meld_in_suit_or_honor(
                        #[trigger] melds@[k], s)),
                None => (pair is Honor) && forall|k: int| 0 <= k < i
                    ==> meld_is_honor(#[trigger] melds@[k]),
            },
            !ok ==> forall|s: Suit| !flush_in_suit(melds@, pair, s),
            ok ==> forall|k: int| 0 <= k < i ==> ((#[trigger] melds@[k] is Shuntsu)
                ==> meld_is_suited(melds@[k])),
        decreases melds@.len() - i,
    {
        let m = melds[i];
        let mt = m.tile();
        match mt {
            Tile::Suited { suit, .. } => {
                match found_suit {
                    None => {
                        found_suit = Some(suit);
                    }
                    Some(s0) => {
                        if suit != s0 && ok {
                            ok = false;
                            proof {
                                assert forall|s: Suit| !flush_in_suit(melds@, pair, s) by {
                                    // two different suits are present, so no
                                    // single suit can cover every suited tile
                                    if flush_in_suit(melds@, pair, s) {
                                        assert(meld_in_suit_or_honor(melds@[i as int], s));
                                        if pair is Suited {
                                        } else {
                                            let k0 = choose|k0: int| 0 <= k0 < i
                                                && meld_is_suited(#[trigger] melds@[k0]);
                                            assert(meld_in_suit_or_honor(melds@[k0], s));
                                        }
                                    }
                                }
                            }
                        }
                    }
                }
            }
            Tile::Honor(_) => {
                has_honor = true;
                if m.is_sequence() {
                    // a sequence on an honor tile cannot stand in any flush
                    if ok {
                        ok = false;
                        proof {
                            assert forall|s: Suit| !flush_in_suit(melds@, pair, s) by {
                                if flush_in_suit(melds@, pair, s) {
                                    assert(meld_in_suit_or_honor(melds@[i as int], s));
                                }
                            }
                        }
                    }
                }
            }
        }
        i = i + 1;
    }
    if !ok {
        return None;
    }
    match found_suit {
        None => {
            proof {
                assert forall|s: Suit| !flush_in_suit(melds@, pair, s) by {
                    if flush_in_suit(melds@, pair, s) {
                        if pair is Suited {
                        } else {
                            let k0 = choose|k0: int| 0 <= k0 < melds@.len()
                                && meld_is_suited(#[trigger] melds@[k0]);
                        }
                    }
                }
            }
            None
        }
        Some(s0) => {
            proof {
                assert(flush_in_suit(melds@, pair, s0));
            }
            if has_honor {
                Some(Yaku::Honitsu)
            } else {
                proof {
                    assert(!(pair is Honor));
                    assert(!exists|k: int| 0 <= k < melds@.len()
                        && meld_is_honor(#[trigger] melds@[k]));
                }
                Some(Yaku::Chinitsu)
            }
        }
    }
}

/// Flush over a plain tile list (the seven-pairs case).
pub open spec fn flush_tiles_result(tiles: Seq<Tile>) -> Option<Yaku> {
    if exists|s: Suit| #[trigger] tiles_flush_in_suit(tiles, s) {
        if exists|k: int| 0 <= k < tiles.len() && (#[trigger] tiles[k]) is Honor {
            Some(Yaku::Honitsu)
        } else {
            Some(Yaku::Chinitsu)
        }
    } else {
        None
    }
}

pub open spec fn tiles_flush_in_suit(tiles: Seq<Tile>, s: Suit) -> bool {
    (forall|k: int| 0 <= k < tiles.len() ==> (match #[trigger] tiles[k] {
        Tile::Suited { suit, .. } => suit == s,
        Tile::Honor(_) => true,
    })) && exists|k: int| 0 <= k < tiles.len() && (#[trigger] tiles[k]) is Suited
}

/// Half or full flush over a list of tiles.
#[verifier::loop_isolation(false)]
pub fn check_flush_tiles(tiles: &Vec<Tile>) -> (r: Option<Yaku>)
    ensures
        r == flush_tiles_result(tiles@),
{
    let mut found_suit: Option<Suit> = None;
    let mut has_honor = false;
    let mut i: usize = 0;
    while i < tiles.len()
        invariant
            i <= tiles@.len(),
            has_honor == exists|k: int| 0 <= k < i && (#[trigger] tiles@[k]) is Honor,
            match found_suit {
                Some(s) => (forall|k: int| 0 <= k < i ==> (match #[trigger] tiles@[k] {
                    Tile::Suited { suit, .. } => suit == s,
                    Tile::Honor(_) => true,
                })) && exists|k: int| 0 <= k < i && (#[trigger] tiles@[k]) is Suited,
                None => forall|k: int| 0 <= k < i ==> (#[trigger] tiles@[k]) is Honor,
            },
        decreases tiles@.len() - i,
    {
        match tiles[i] {
            Tile::Suited { suit, .. } => {
                match found_suit {
                    None => {
                        found_suit = Some(suit);
                        proof {
                            assert(tiles@[i as int] is Suited);
                        }
                    }
                    Some(s0) => {
                        if suit != s0 {
                            proof {
                                assert forall|s: Suit| !tiles_flush_in_suit(tiles@, s) by {
                                    if tiles_flush_in_suit(tiles@, s) {
                                        let k0 = choose|k0: int| 0 <= k0 < i
                                            && (#[trigger] tiles@[k0]) is Suited;
                                    }
                                }
                            }
                            return None;
                        }
                    }
                }
            }
            Tile::Honor(_) => {
                has_honor = true;
            }
        }
        i = i + 1;
    }
    match found_suit {
        None => {
            proof {
                assert forall|s: Suit| !tiles_flush_in_suit(tiles@, s) by {
                    if tiles_flush_in_suit(tiles@, s) {
                        let k0 = choose|k0: int| 0 <= k0 < tiles@.len()
                            && (#[trigger] tiles@[k0]) is Suited;
                    }
                }
            }
            None
        }
        Some(s0) => {
            proof {
                assert(tiles_flush_in_suit(tiles@, s0));
            }
            if has_honor {
                Some(Yaku::Honitsu)
            } else {
                Some(Yaku::Chinitsu)
            }
        }
    }
}

pub proof fn lemma_yakuhai_expected_len(ms: Seq<Meld>, ctx: GameContext)
    ensures
        0 <= yakuhai_expected(ms, ctx).len() <= 2 * ms.len(),
    decreases ms.len(),
{
    if ms.len() > 0 {
        lemma_yakuhai_expected_len(ms.drop_last(), ctx);
    }
}

/// Append one pattern and add its han to the running total.
fn push_yaku(list: &mut Vec<Yaku>, total: &mut u8, y: Yaku, open: bool)
    requires
        open ==> han_open_spec(y) is Some,
        *old(total) as int == han_sum(old(list)@, open),
        *old(total) + yaku_han_value(y, open) <= 255,
        forall|k: int| 0 <= k < old(list)@.len() ==> (open
            ==> han_open_spec(#[trigger] old(list)@[k]) is Some),
    ensures
        final(list)@ == old(list)@.push(y),
        *final(total) as int == *old(total) + yaku_han_value(y, open),
        *final(total) as int == han_sum(final(list)@, open),
        forall|k: int| 0 <= k < final(list)@.len() ==> (open
            ==> han_open_spec(#[trigger] final(list)@[k]) is Some),
        has_yakuman(final(list)@) == (has_yakuman(old(list)@) || is_yakuman_spec(y)),
        forall|y2: Yaku| old(list)@.contains(y2) ==> final(list)@.contains(y2),
        final(list)@.contains(y),
{
    let v: u8 = if open {
        match y.han_open() {
            Some(h) => h,
            None => 0,
        }
    } else {
        y.han()
    };
    *total = *total + v;
    list.push(y);
    proof {
        lemma_han_sum_push(old(list)@, y, open);
        assert(has_yakuman(list@) == (has_yakuman(old(list)@) || is_yakuman_spec(y))) by {
            if has_yakuman(list@) {
                let k = choose|k: int| 0 <= k < list@.len()
                    && is_yakuman_spec(#[trigger] list@[k]);
                if k < old(list)@.len() {
                    assert(is_yakuman_spec(old(list)@[k]));
                }
            }
            if has_yakuman(old(list)@) {
                let k = choose|k: int| 0 <= k < old(list)@.len()
                    && is_yakuman_spec(#[trigger] old(list)@[k]);
                assert(is_yakuman_spec(list@[k]));
            }
            if is_yakuman_spec(y) {
                assert(is_yakuman_spec(list@[list@.len() - 1]));
            }
        }
        assert forall|y2: Yaku| old(list)@.contains(y2) implies list@.contains(y2) by {
        }
        assert(list@.contains(y)) by {
            assert(list@[list@.len() - 1] == y);
        }
    }
}

/// The dealer's first-draw pattern applies to this context.
pub open spec fn tenhou_fires(ctx: GameContext) -> bool {
    ctx.is_tenhou && ctx.win_type == WinType::Tsumo && !ctx.is_open
        && ctx.seat_wind == Honor::East
}

/// A non-dealer's first-draw pattern applies to this context.
pub open spec fn chiihou_fires(ctx: GameContext) -> bool {
    ctx.is_chiihou && ctx.win_type == WinType::Tsumo && !ctx.is_open
        && ctx.seat_wind != Honor::East
}

/// Big or little four winds applies.
pub open spec fn four_winds_fires(ms: Seq<Meld>, pair: Tile) -> bool {
    wind_set_count(ms) == 4 || (wind_set_count(ms) == 3 && is_wind_spec(pair)
        && !exists|k: int| 0 <= k < ms.len() && is_set_of(#[trigger] ms[k], pair))
}

/// Some limit pattern of a standard decomposition fires.
pub open spec fn standard_limit_fires(ms: Seq<Meld>, pair: Tile, c: Seq<u8>,
    ctx: GameContext) -> bool {
    suuankou_spec(ms, ctx) || daisangen_spec(ms) || four_winds_fires(ms, pair)
        || tsuuiisou_spec(ms, pair) || chinroutou_spec(ms, pair) || ryuuiisou_spec(ms, pair)
        || (!ctx.is_open && chuuren_suit_of(c) is Some)
}

/// Some limit pattern of a standard decomposition is listed.
pub open spec fn standard_limit_listed(ms: Seq<Meld>, pair: Tile, c: Seq<u8>,
    ctx: GameContext) -> bool {
    (!ctx.is_open && suuankou_spec(ms, ctx)) || daisangen_spec(ms)
        || four_winds_fires(ms, pair) || tsuuiisou_spec(ms, pair) || chinroutou_spec(ms, pair)
        || ryuuiisou_spec(ms, pair) || (!ctx.is_open && chuuren_suit_of(c) is Some)
}

/// Some limit pattern fires for this decomposition and context.
pub open spec fn limit_fires(s: HandStructure, c: Seq<u8>, ctx: GameContext) -> bool {
    tenhou_fires(ctx) || chiihou_fires(ctx) || match s {
        HandStructure::Kokushi { .. } => true,
        HandStructure::Chiitoitsu { pairs } => (forall|k: int| 0 <= k < pairs@.len()
            ==> is_honor_spec(#[trigger] pairs@[k])) || (forall|k: int| 0 <= k < pairs@.len()
            ==> is_terminal_spec(#[trigger] pairs@[k])),
        HandStructure::Standard { melds, pair } => standard_limit_fires(melds@, pair, c, ctx),
    }
}

/// Some limit pattern is actually listed: a closed-only limit pattern is
/// left off the list of an open hand even though it fired.
pub open spec fn limit_listed(s: HandStructure, c: Seq<u8>, ctx: GameContext) -> bool {
    tenhou_fires(ctx) || chiihou_fires(ctx) || match s {
        HandStructure::Kokushi { .. } => !ctx.is_open,
        HandStructure::Chiitoitsu { pairs } => (forall|k: int| 0 <= k < pairs@.len()
            ==> is_honor_spec(#[trigger] pairs@[k])) || (forall|k: int| 0 <= k < pairs@.len()
            ==> is_terminal_spec(#[trigger] pairs@[k])),
        HandStructure::Standard { melds, pair } => standard_limit_listed(melds@, pair, c, ctx),
    }
}

/// Some table-state pattern fires: riichi or a closed self-draw, the
/// after-quad or robbed-quad win, or the round's last tile.
pub open spec fn context_regular_fires(ctx: GameContext) -> bool {
    (ctx.is_riichi && !ctx.is_open) || (ctx.win_type == WinType::Tsumo && !ctx.is_open)
        || (ctx.is_rinshan && ctx.win_type == WinType::Tsumo)
        || (ctx.is_chankan && ctx.win_type == WinType::Ron) || ctx.is_last_tile
}

/// Some pattern of the terminal, dragon-pair or flush families fires.
pub open spec fn standard_terminal_fires(ms: Seq<Meld>, pair: Tile) -> bool {
    honroutou_spec(ms, pair) || shousangen_spec(ms, pair) || junchan_spec(ms, pair)
        || flush_melds_result(ms, pair) is Some
}

/// Some pattern of the triplet, straight, terminal or flush families fires.
pub open spec fn standard_tail_fires(ms: Seq<Meld>, pair: Tile, ctx: GameContext) -> bool {
    toitoi_spec(ms) || sanshoku_spec(ms) || sanshoku_doukou_spec(ms) || ittsu_spec(ms)
        || (chanta_spec(ms, pair) && !junchan_spec(ms, pair))
        || sanankou_count_spec(ms, ms, ctx) == 3 || kan_count_spec(ms) == 3
        || standard_terminal_fires(ms, pair)
}

/// Some ordinary structure-driven pattern of a standard hand fires.
pub open spec fn standard_regular_fires(s: HandStructure, ctx: GameContext) -> bool {
    match s {
        HandStructure::Standard { melds, pair } => tanyao_spec(melds@, pair)
            || (match ctx.winning_tile {
                Some(wt) => pinfu_spec(s, wt, ctx),
                None => false,
            }) || (!ctx.is_open && peikou_pairs(melds@, 34) >= 1)
            || yakuhai_expected(melds@, ctx).len() > 0 || standard_tail_fires(melds@, pair, ctx),
        _ => false,
    }
}

/// Some ordinary pattern fires when no limit pattern does.
pub open spec fn regular_fires(s: HandStructure, ctx: GameContext) -> bool {
    context_regular_fires(ctx) || match s {
        HandStructure::Kokushi { .. } => false,
        HandStructure::Chiitoitsu { .. } => true,
        HandStructure::Standard { .. } => standard_regular_fires(s, ctx),
    }
}

/// The hand has at least one listed pattern under this context: a limit
/// hand lists its valid limit patterns; any other hand lists its ordinary
/// patterns. A decomposition with no listed pattern cannot win.
pub open spec fn some_yaku(s: HandStructure, c: Seq<u8>, ctx: GameContext) -> bool {
    if limit_fires(s, c, ctx) {
        limit_listed(s, c, ctx)
    } else {
        regular_fires(s, ctx)
    }
}

/// Which pattern the terminal, dragon-pair and flush family step adds.
pub open spec fn terminal_yaku_added(y: Yaku, ms: Seq<Meld>, pair: Tile) -> bool {
    match y {
        Yaku::Honroutou => honroutou_spec(ms, pair),
        Yaku::Shousangen => shousangen_spec(ms, pair),
        Yaku::Junchan => junchan_spec(ms, pair),
        Yaku::Honitsu => flush_melds_result(ms, pair) == Some(Yaku::Honitsu),
        Yaku::Chinitsu => flush_melds_result(ms, pair) == Some(Yaku::Chinitsu),
        _ => false,
    }
}

/// Which pattern the triplet and straight family step adds.
pub open spec fn tail_yaku_added(y: Yaku, ms: Seq<Meld>, pair: Tile, ctx: GameContext) -> bool {
    match y {
        Yaku::Toitoi => toitoi_spec(ms),
        Yaku::SanshokuDoujun => sanshoku_spec(ms),
        Yaku::SanshokuDoukou => sanshoku_doukou_spec(ms),
        Yaku::Ittsu => ittsu_spec(ms),
        Yaku::Chanta => chanta_spec(ms, pair) && !junchan_spec(ms, pair),
        Yaku::SanAnkou => sanankou_count_spec(ms, ms, ctx) == 3,
        Yaku::SanKantsu => kan_count_spec(ms) == 3,
        _ => terminal_yaku_added(y, ms, pair),
    }
}

/// Which ordinary pattern a standard decomposition lists.
pub open spec fn standard_yaku_added(y: Yaku, s: HandStructure, ctx: GameContext) -> bool {
    match s {
        HandStructure::Standard { melds, pair } => match y {
            Yaku::Tanyao => tanyao_spec(melds@, pair),
            Yaku::Pinfu => match ctx.winning_tile {
                Some(wt) => pinfu_spec(s, wt, ctx),
                None => false,
            },
            Yaku::Iipeikou => !ctx.is_open && peikou_pairs(melds@, 34) == 1,
            Yaku::Ryanpeikou => !ctx.is_open && peikou_pairs(melds@, 34) >= 2,
            Yaku::Yakuhai(h) => yakuhai_expected(melds@, ctx).contains(Yaku::Yakuhai(h)),
            _ => tail_yaku_added(y, melds@, pair, ctx),
        },
        _ => false,
    }
}

/// Which pattern the table state alone lists.
pub open spec fn context_yaku_added(y: Yaku, ctx: GameContext) -> bool {
    match y {
        Yaku::Riichi => ctx.is_riichi && !ctx.is_open && !ctx.is_double_riichi,
        Yaku::DoubleRiichi => ctx.is_riichi && !ctx.is_open && ctx.is_double_riichi,
        Yaku::Ippatsu => ctx.is_riichi && !ctx.is_open && ctx.is_ippatsu,
        Yaku::MenzenTsumo => ctx.win_type == WinType::Tsumo && !ctx.is_open,
        Yaku::RinshanKaihou => ctx.is_rinshan && ctx.win_type == WinType::Tsumo,
        Yaku::Chankan => ctx.is_chankan && ctx.win_type == WinType::Ron,
        Yaku::HaiteiRaoyue => ctx.is_last_tile && ctx.win_type == WinType::Tsumo,
        Yaku::HouteiRaoyui => ctx.is_last_tile && ctx.win_type == WinType::Ron,
        _ => false,
    }
}

/// Which ordinary pattern a seven-pairs decomposition lists.
pub open spec fn chiitoi_yaku_added(y: Yaku, pairs: Seq<Tile>) -> bool {
    match y {
        Yaku::Chiitoitsu => true,
        Yaku::Tanyao => forall|k: int| 0 <= k < pairs.len()
            ==> is_simple_spec(#[trigger] pairs[k]),
        Yaku::Honroutou => forall|k: int| 0 <= k < pairs.len()
            ==> is_terminal_or_honor_spec(#[trigger] pairs[k]),
        Yaku::Honitsu => flush_tiles_result(pairs) == Some(Yaku::Honitsu),
        Yaku::Chinitsu => flush_tiles_result(pairs) == Some(Yaku::Chinitsu),
        _ => false,
    }
}

/// The ordinary patterns listed when no limit pattern fires.
pub open spec fn regular_yaku_listed(y: Yaku, s: HandStructure, ctx: GameContext) -> bool {
    context_yaku_added(y, ctx) || match s {
        HandStructure::Kokushi { .. } => false,
        HandStructure::Chiitoitsu { pairs } => chiitoi_yaku_added(y, pairs@),
        HandStructure::Standard { .. } => standard_yaku_added(y, s, ctx),
    }
}

/// The limit patterns listed when one fires. A closed-only limit pattern
/// is left off the list of an open hand.
pub open spec fn limit_yaku_listed(y: Yaku, s: HandStructure, c: Seq<u8>,
    ctx: GameContext) -> bool {
    match y {
        Yaku::Tenhou => tenhou_fires(ctx),
        Yaku::Chiihou => chiihou_fires(ctx),
        Yaku::KokushiMusou => !ctx.is_open && (match s {
            HandStructure::Kokushi { pair } => ctx.winning_tile != Some(pair),
            _ => false,
        }),
        Yaku::Kokushi13Wait => !ctx.is_open && (match s {
            HandStructure::Kokushi { pair } => ctx.winning_tile == Some(pair),
            _ => false,
        }),
        Yaku::Tsuuiisou => match s {
            HandStructure::Chiitoitsu { pairs } => forall|k: int| 0 <= k < pairs@.len()
                ==> is_honor_spec(#[trigger] pairs@[k]),
            HandStructure::Standard { melds, pair } => tsuuiisou_spec(melds@, pair),
            _ => false,
        },
        Yaku::Chinroutou => match s {
            HandStructure::Chiitoitsu { pairs } => !(forall|k: int| 0 <= k < pairs@.len()
                ==> is_honor_spec(#[trigger] pairs@[k])) && (forall|k: int|
                0 <= k < pairs@.len() ==> is_terminal_spec(#[trigger] pairs@[k])),
            HandStructure::Standard { melds, pair } => chinroutou_spec(melds@, pair),
            _ => false,
        },
        Yaku::Suuankou => !ctx.is_open && (match s {
            HandStructure::Standard { melds, pair } => suuankou_spec(melds@, ctx),
            _ => false,
        }),
        Yaku::Daisangen => match s {
            HandStructure::Standard { melds, pair } => daisangen_spec(melds@),
            _ => false,
        },
        Yaku::Daisuushii => match s {
            HandStructure::Standard { melds, pair } => wind_set_count(melds@) == 4,
            _ => false,
        },
        Yaku::Shousuushii => match s {
            HandStructure::Standard { melds, pair } => wind_set_count(melds@) == 3
                && is_wind_spec(pair) && !exists|k: int| 0 <= k < melds@.len()
                && is_set_of(#[trigger] melds@[k], pair),
            _ => false,
        },
        Yaku::Ryuuiisou => match s {
            HandStructure::Standard { melds, pair } => ryuuiisou_spec(melds@, pair),
            _ => false,
        },
        Yaku::ChuurenPoutou => !ctx.is_open && s is Standard
            && (match chuuren_suit_of(c) {
            Some(su) => !chuuren_junsei(c, su, ctx),
            None => false,
        }),
        Yaku::JunseiChuurenPoutou => !ctx.is_open && s is Standard
            && (match chuuren_suit_of(c) {
            Some(su) => chuuren_junsei(c, su, ctx),
            None => false,
        }),
        _ => false,
    }
}

/// The han one pattern contributes when its condition holds.
pub open spec fn cond_han(b: bool, y: Yaku, open: bool) -> int {
    if b {
        yaku_han_value(y, open)
    } else {
        0
    }
}

/// The han total of the terminal, dragon-pair and flush family.
pub open spec fn terminal_total(ms: Seq<Meld>, pair: Tile, open: bool) -> int {
    cond_han(honroutou_spec(ms, pair), Yaku::Honroutou, open)
        + cond_han(shousangen_spec(ms, pair), Yaku::Shousangen, open)
        + cond_han(junchan_spec(ms, pair), Yaku::Junchan, open)
        + (match flush_melds_result(ms, pair) {
        Some(f) => yaku_han_value(f, open),
        None => 0,
    })
}

/// The han total of the triplet and straight family.
pub open spec fn tail_total(ms: Seq<Meld>, pair: Tile, ctx: GameContext) -> int {
    cond_han(toitoi_spec(ms), Yaku::Toitoi, ctx.is_open)
        + cond_han(sanshoku_spec(ms), Yaku::SanshokuDoujun, ctx.is_open)
        + cond_han(sanshoku_doukou_spec(ms), Yaku::SanshokuDoukou, ctx.is_open)
        + cond_han(ittsu_spec(ms), Yaku::Ittsu, ctx.is_open)
        + cond_han(chanta_spec(ms, pair) && !junchan_spec(ms, pair), Yaku::Chanta, ctx.is_open)
        + cond_han(sanankou_count_spec(ms, ms, ctx) == 3, Yaku::SanAnkou, ctx.is_open)
        + cond_han(kan_count_spec(ms) == 3, Yaku::SanKantsu, ctx.is_open)
        + terminal_total(ms, pair, ctx.is_open)
}

/// The han total of the ordinary patterns of a standard decomposition.
/// Each value-honor entry is worth one han, so the census contributes its
/// length.
pub open spec fn standard_total(s: HandStructure, ctx: GameContext) -> int {
    match s {
        HandStructure::Standard { melds, pair } => cond_han(tanyao_spec(melds@, pair),
            Yaku::Tanyao, ctx.is_open) + cond_han(match ctx.winning_tile {
            Some(wt) => pinfu_spec(s, wt, ctx),
            None => false,
        }, Yaku::Pinfu, ctx.is_open) + cond_han(!ctx.is_open && peikou_pairs(melds@, 34) >= 2,
            Yaku::Ryanpeikou, ctx.is_open) + cond_han(!ctx.is_open
            && peikou_pairs(melds@, 34) == 1, Yaku::Iipeikou, ctx.is_open)
            + yakuhai_expected(melds@, ctx).len() + tail_total(melds@, pair, ctx),
        _ => 0,
    }
}

/// The han total of the table-state patterns.
pub open spec fn context_total(ctx: GameContext) -> int {
    cond_han(ctx.is_riichi && !ctx.is_open && ctx.is_double_riichi, Yaku::DoubleRiichi, ctx.is_open)
        + cond_han(ctx.is_riichi && !ctx.is_open && !ctx.is_double_riichi, Yaku::Riichi,
            ctx.is_open)
        + cond_han(ctx.is_riichi && !ctx.is_open && ctx.is_ippatsu, Yaku::Ippatsu, ctx.is_open)
        + cond_han(ctx.win_type == WinType::Tsumo && !ctx.is_open, Yaku::MenzenTsumo,
            ctx.is_open)
        + cond_han(ctx.is_rinshan && ctx.win_type == WinType::Tsumo, Yaku::RinshanKaihou,
            ctx.is_open)
        + cond_han(ctx.is_chankan && ctx.win_type == WinType::Ron, Yaku::Chankan, ctx.is_open)
        + cond_han(ctx.is_last_tile && ctx.win_type == WinType::Tsumo, Yaku::HaiteiRaoyue,
            ctx.is_open)
        + cond_han(ctx.is_last_tile && ctx.win_type == WinType::Ron, Yaku::HouteiRaoyui,
            ctx.is_open)
}

/// The han total of a seven-pairs decomposition's ordinary patterns.
pub open spec fn chiitoi_total(pairs: Seq<Tile>, open: bool) -> int {
    yaku_han_value(Yaku::Chiitoitsu, open) + cond_han(forall|k: int| 0 <= k < pairs.len()
        ==> is_simple_spec(#[trigger] pairs[k]), Yaku::Tanyao, open)
        + cond_han(forall|k: int| 0 <= k < pairs.len()
            ==> is_terminal_or_honor_spec(#[trigger] pairs[k]), Yaku::Honroutou, open)
        + (match flush_tiles_result(pairs) {
        Some(f) => yaku_han_value(f, open),
        None => 0,
    })
}

/// The han total of the listed limit patterns.
pub open spec fn limit_total(s: HandStructure, c: Seq<u8>, ctx: GameContext) -> int {
    cond_han(tenhou_fires(ctx), Yaku::Tenhou, ctx.is_open)
        + cond_han(chiihou_fires(ctx), Yaku::Chiihou, ctx.is_open)
        + (match s {
        HandStructure::Kokushi { pair } => cond_han(!ctx.is_open
            && ctx.winning_tile == Some(pair), Yaku::Kokushi13Wait, ctx.is_open)
            + cond_han(!ctx.is_open && ctx.winning_tile != Some(pair), Yaku::KokushiMusou,
                ctx.is_open),
        HandStructure::Chiitoitsu { pairs } => cond_han(forall|k: int| 0 <= k < pairs@.len()
            ==> is_honor_spec(#[trigger] pairs@[k]), Yaku::Tsuuiisou, ctx.is_open)
            + cond_han(!(forall|k: int| 0 <= k < pairs@.len()
                ==> is_honor_spec(#[trigger] pairs@[k])) && (forall|k: int|
                0 <= k < pairs@.len() ==> is_terminal_spec(#[trigger] pairs@[k])),
                Yaku::Chinroutou, ctx.is_open),
        HandStructure::Standard { melds, pair } => standard_limit_total(melds@, pair, c, ctx),
    })
}

/// The han total of a standard decomposition's listed limit patterns.
pub open spec fn standard_limit_total(ms: Seq<Meld>, pair: Tile, c: Seq<u8>,
    ctx: GameContext) -> int {
    cond_han(!ctx.is_open && suuankou_spec(ms, ctx), Yaku::Suuankou, ctx.is_open)
        + cond_han(daisangen_spec(ms), Yaku::Daisangen, ctx.is_open)
        + cond_han(wind_set_count(ms) == 4, Yaku::Daisuushii, ctx.is_open)
        + cond_han(wind_set_count(ms) != 4 && four_winds_fires(ms, pair), Yaku::Shousuushii,
            ctx.is_open)
        + cond_han(tsuuiisou_spec(ms, pair), Yaku::Tsuuiisou, ctx.is_open)
        + cond_han(chinroutou_spec(ms, pair), Yaku::Chinroutou, ctx.is_open)
        + cond_han(ryuuiisou_spec(ms, pair), Yaku::Ryuuiisou, ctx.is_open)
        + (if !ctx.is_open {
        match chuuren_suit_of(c) {
            Some(su) => if chuuren_junsei(c, su, ctx) {
                yaku_han_value(Yaku::JunseiChuurenPoutou, ctx.is_open)
            } else {
                yaku_han_value(Yaku::ChuurenPoutou, ctx.is_open)
            },
            None => 0int,
        }
    } else {
        0int
    })
}

/// Exactly the han total the detector reports, before bonus tiles.
pub open spec fn detected_total(s: HandStructure, c: Seq<u8>, ctx: GameContext) -> int {
    if limit_fires(s, c, ctx) {
        limit_total(s, c, ctx)
    } else {
        context_total(ctx) + (match s {
            HandStructure::Kokushi { .. } => 0int,
            HandStructure::Chiitoitsu { pairs } => chiitoi_total(pairs@, ctx.is_open),
            HandStructure::Standard { .. } => standard_total(s, ctx),
        })
    }
}

/// Which pattern the triplet-and-run step adds.
pub open spec fn run_yaku_added(y: Yaku, ms: Seq<Meld>) -> bool {
    match y {
        Yaku::Toitoi => toitoi_spec(ms),
        Yaku::SanshokuDoujun => sanshoku_spec(ms),
        Yaku::SanshokuDoukou => sanshoku_doukou_spec(ms),
        Yaku::Ittsu => ittsu_spec(ms),
        _ => false,
    }
}

/// The han total of the triplet-and-run step.
pub open spec fn run_total(ms: Seq<Meld>, open: bool) -> int {
    cond_han(toitoi_spec(ms), Yaku::Toitoi, open)
        + cond_han(sanshoku_spec(ms), Yaku::SanshokuDoujun, open)
        + cond_han(sanshoku_doukou_spec(ms), Yaku::SanshokuDoukou, open)
        + cond_han(ittsu_spec(ms), Yaku::Ittsu, open)
}

/// Which limit pattern the standard limit step adds.
pub open spec fn standard_limit_added(y: Yaku, ms: Seq<Meld>, pair: Tile, c: Seq<u8>,
    ctx: GameContext) -> bool {
    match y {
        Yaku::Suuankou => !ctx.is_open && suuankou_spec(ms, ctx),
        Yaku::Daisangen => daisangen_spec(ms),
        Yaku::Daisuushii => wind_set_count(ms) == 4,
        Yaku::Shousuushii => wind_set_count(ms) == 3 && is_wind_spec(pair)
            && !exists|k: int| 0 <= k < ms.len() && is_set_of(#[trigger] ms[k], pair),
        Yaku::Tsuuiisou => tsuuiisou_spec(ms, pair),
        Yaku::Chinroutou => chinroutou_spec(ms, pair),
        Yaku::Ryuuiisou => ryuuiisou_spec(ms, pair),
        Yaku::ChuurenPoutou => !ctx.is_open && (match chuuren_suit_of(c) {
            Some(su) => !chuuren_junsei(c, su, ctx),
            None => false,
        }),
        Yaku::JunseiChuurenPoutou => !ctx.is_open && (match chuuren_suit_of(c) {
            Some(su) => chuuren_junsei(c, su, ctx),
            None => false,
        }),
        _ => false,
    }
}

/// Exactly which patterns the detector lists for a hand and context.
pub open spec fn yaku_listed(y: Yaku, s: HandStructure, c: Seq<u8>, ctx: GameContext) -> bool {
    if limit_fires(s, c, ctx) {
        limit_yaku_listed(y, s, c, ctx)
    } else {
        regular_yaku_listed(y, s, ctx)
    }
}

/// The limit patterns the hand and context satisfy. The returned flag
/// records that some limit pattern fired even when, for an open hand, a
/// closed-only limit pattern is left off the list.
#[verifier::loop_isolation(false)]
#[verifier::rlimit(100)]
fn detect_limit_patterns(
    structure: &HandStructure,
    counts: &TileCounts,
    context: &GameContext,
) -> (r: (Vec<Yaku>, u8, bool))
    requires
        counts.wf(),
        crate::hand::structure_wf(*structure),
    ensures
        r.1 as int == han_sum(r.0@, context.is_open),
        r.1 <= 150,
        forall|k: int| 0 <= k < r.0@.len() ==> (context.is_open
            ==> han_open_spec(#[trigger] r.0@[k]) is Some),
        has_yakuman(r.0@) ==> r.2,
        has_yakuman(r.0@) ==> r.1 >= 13,
        !context.is_open ==> r.2 == has_yakuman(r.0@),
        !context.is_open && r.2 ==> r.1 >= 13,
        !r.2 ==> r.0@.len() == 0,
        r.2 == limit_fires(*structure, counts@, *context),
        (r.0@.len() > 0) == limit_listed(*structure, counts@, *context),
        forall|y: Yaku| #[trigger] r.0@.contains(y)
            == limit_yaku_listed(y, *structure, counts@, *context),
        r.1 as int == limit_total(*structure, counts@, *context),
{
    let open = context.is_open;
    let mut list: Vec<Yaku> = Vec::new();
    let mut total: u8 = 0;
    let mut yakuman_hit = false;

    // limit patterns from the table state
    if context.is_tenhou && matches!(context.win_type, WinType::Tsumo) && !open
        && context.is_dealer() {
        push_yaku(&mut list, &mut total, Yaku::Tenhou, open);
        yakuman_hit = true;
    }
    if context.is_chiihou && matches!(context.win_type, WinType::Tsumo) && !open
        && !context.is_dealer() {
        push_yaku(&mut list, &mut total, Yaku::Chiihou, open);
        yakuman_hit = true;
    }

    // limit patterns from the decomposition
    match structure {
        HandStructure::Kokushi { pair } => {
            let thirteen_sided = match context.winning_tile {
                Some(wt) => wt == *pair,
                None => false,
            };
            if !open {
                if thirteen_sided {
                    push_yaku(&mut list, &mut total, Yaku::Kokushi13Wait, open);
                } else {
                    push_yaku(&mut list, &mut total, Yaku::KokushiMusou, open);
                }
            }
            yakuman_hit = true;
        }
        HandStructure::Chiitoitsu { pairs } => {
            let mut all_honor = true;
            let mut all_terminal = true;
            let mut i: usize = 0;
            while i < pairs.len()
                invariant
                    i <= pairs@.len(),
                    all_honor == (forall|k: int| 0 <= k < i
                        ==> is_honor_spec(#[trigger] pairs@[k])),
                    all_terminal == (forall|k: int| 0 <= k < i
                        ==> is_terminal_spec(#[trigger] pairs@[k])),
                decreases pairs@.len() - i,
            {
                if !pairs[i].is_honor() {
                    all_honor = false;
                }
                if !pairs[i].is_terminal() {
                    all_terminal = false;
                }
                i = i + 1;
            }
            if all_honor {
                push_yaku(&mut list, &mut total, Yaku::Tsuuiisou, open);
                yakuman_hit = true;
            } else if all_terminal {
                push_yaku(&mut list, &mut total, Yaku::Chinroutou, open);
                yakuman_hit = true;
            }
        }
        HandStructure::Standard { melds, pair } => {
            let hit = add_standard_limit_patterns(&mut list, &mut total, melds, *pair, counts,
                context);
            if hit {
                yakuman_hit = true;
            }
        }
    }
    (list, total, yakuman_hit)
}

/// The limit patterns of a standard decomposition. The returned flag says
/// whether any fired, even when an open hand lists none of them.
#[verifier::loop_isolation(false)]
#[verifier::rlimit(100)]
fn add_standard_limit_patterns(
    list: &mut Vec<Yaku>,
    total: &mut u8,
    melds: &Vec<Meld>,
    pair: Tile,
    counts: &TileCounts,
    context: &GameContext,
) -> (hit: bool)
    requires
        counts.wf(),
        *old(total) as int == han_sum(old(list)@, context.is_open),
        *old(total) <= 26,
        forall|k: int| 0 <= k < old(list)@.len() ==> (context.is_open
            ==> han_open_spec(#[trigger] old(list)@[k]) is Some),
    ensures
        *final(total) as int == han_sum(final(list)@, context.is_open),
        *final(total) as int == *old(total) + standard_limit_total(melds@, pair, counts@,
            *context),
        *final(total) <= *old(total) + 120,
        forall|k: int| 0 <= k < final(list)@.len() ==> (context.is_open
            ==> han_open_spec(#[trigger] final(list)@[k]) is Some),
        hit == standard_limit_fires(melds@, pair, counts@, *context),
        (final(list)@.len() > old(list)@.len()) == standard_limit_listed(melds@, pair, counts@,
            *context),
        final(list)@.len() >= old(list)@.len(),
        has_yakuman(final(list)@) == (has_yakuman(old(list)@) || standard_limit_listed(melds@,
            pair, counts@, *context)),
        forall|y: Yaku| #[trigger] final(list)@.contains(y) == (old(list)@.contains(y)
            || standard_limit_added(y, melds@, pair, counts@, *context)),
{
    let open = context.is_open;
    let mut hit = false;
    if check_suuankou(melds, context) {
        if !open {
            push_yaku(list, total, Yaku::Suuankou, open);
        }
        hit = true;
    }
    if check_daisangen(melds) {
        push_yaku(list, total, Yaku::Daisangen, open);
        hit = true;
    }
    if let Some(y) = check_four_winds(melds, pair) {
        push_yaku(list, total, y, open);
        hit = true;
    }
    if check_tsuuiisou(melds, pair) {
        push_yaku(list, total, Yaku::Tsuuiisou, open);
        hit = true;
    }
    if check_chinroutou(melds, pair) {
        push_yaku(list, total, Yaku::Chinroutou, open);
        hit = true;
    }
    if check_ryuuiisou(melds, pair) {
        push_yaku(list, total, Yaku::Ryuuiisou, open);
        hit = true;
    }
    if !open {
        if let Some(y) = check_chuuren_poutou(counts, context) {
            proof {
                assert(y == Yaku::ChuurenPoutou || y == Yaku::JunseiChuurenPoutou);
            }
            push_yaku(list, total, y, open);
            hit = true;
        }
    }
    hit
}

/// The triplet and run families of patterns.
#[verifier::loop_isolation(false)]
#[verifier::rlimit(100)]
fn add_standard_run_patterns(
    list: &mut Vec<Yaku>,
    total: &mut u8,
    melds: &Vec<Meld>,
    context: &GameContext,
)
    requires
        *old(total) as int == han_sum(old(list)@, context.is_open),
        *old(total) <= 40,
        forall|k: int| 0 <= k < old(list)@.len() ==> (context.is_open
            ==> han_open_spec(#[trigger] old(list)@[k]) is Some),
        !has_yakuman(old(list)@),
    ensures
        *final(total) as int == han_sum(final(list)@, context.is_open),
        *final(total) as int == *old(total) + run_total(melds@, context.is_open),
        *final(total) <= *old(total) + 8,
        forall|k: int| 0 <= k < final(list)@.len() ==> (context.is_open
            ==> han_open_spec(#[trigger] final(list)@[k]) is Some),
        !has_yakuman(final(list)@),
        final(list)@.len() >= old(list)@.len(),
        (final(list)@.len() > old(list)@.len()) == (toitoi_spec(melds@)
            || sanshoku_spec(melds@) || sanshoku_doukou_spec(melds@) || ittsu_spec(melds@)),
        forall|y: Yaku| #[trigger] final(list)@.contains(y) == (old(list)@.contains(y)
            || run_yaku_added(y, melds@)),
{
    let open = context.is_open;
    if check_toitoi(melds) {
        push_yaku(list, total, Yaku::Toitoi, open);
    }
    if check_sanshoku(melds) {
        push_yaku(list, total, Yaku::SanshokuDoujun, open);
    }
    if check_sanshoku_doukou(melds) {
        push_yaku(list, total, Yaku::SanshokuDoukou, open);
    }
    if check_ittsu(melds) {
        push_yaku(list, total, Yaku::Ittsu, open);
    }
}

/// The remaining structure-driven patterns: triplet, straight, terminal
/// and flush families.
#[verifier::loop_isolation(false)]
#[verifier::rlimit(100)]
fn add_standard_tail_patterns(
    list: &mut Vec<Yaku>,
    total: &mut u8,
    melds: &Vec<Meld>,
    pair: Tile,
    context: &GameContext,
)
    requires
        *old(total) as int == han_sum(old(list)@, context.is_open),
        *old(total) <= 40,
        forall|k: int| 0 <= k < old(list)@.len() ==> (context.is_open
            ==> han_open_spec(#[trigger] old(list)@[k]) is Some),
        !has_yakuman(old(list)@),
    ensures
        *final(total) as int == han_sum(final(list)@, context.is_open),
        *final(total) <= *old(total) + 30,
        forall|k: int| 0 <= k < final(list)@.len() ==> (context.is_open
            ==> han_open_spec(#[trigger] final(list)@[k]) is Some),
        !has_yakuman(final(list)@),
        final(list)@.len() >= old(list)@.len(),
        (final(list)@.len() > old(list)@.len()) == standard_tail_fires(melds@, pair, *context),
        forall|y: Yaku| #[trigger] final(list)@.contains(y) == (old(list)@.contains(y)
            || tail_yaku_added(y, melds@, pair, *context)),
        *final(total) as int == *old(total) + tail_total(melds@, pair, *context),
{
    let open = context.is_open;
    add_standard_run_patterns(list, total, melds, context);
    if check_chanta(melds, pair) && !check_junchan(melds, pair) {
        push_yaku(list, total, Yaku::Chanta, open);
    }
    if count_concealed_sets(melds, context) == 3 {
        push_yaku(list, total, Yaku::SanAnkou, open);
    }
    let (_, _, kans) = count_set_melds(melds);
    if kans == 3 {
        push_yaku(list, total, Yaku::SanKantsu, open);
    }
    add_standard_terminal_patterns(list, total, melds, pair, context);
}

/// The terminal, dragon-pair and flush families of patterns.
#[verifier::loop_isolation(false)]
#[verifier::rlimit(100)]
fn add_standard_terminal_patterns(
    list: &mut Vec<Yaku>,
    total: &mut u8,
    melds: &Vec<Meld>,
    pair: Tile,
    context: &GameContext,
)
    requires
        *old(total) as int == han_sum(old(list)@, context.is_open),
        *old(total) <= 56,
        forall|k: int| 0 <= k < old(list)@.len() ==> (context.is_open
            ==> han_open_spec(#[trigger] old(list)@[k]) is Some),
        !has_yakuman(old(list)@),
    ensures
        *final(total) as int == han_sum(final(list)@, context.is_open),
        *final(total) <= *old(total) + 13,
        forall|k: int| 0 <= k < final(list)@.len() ==> (context.is_open
            ==> han_open_spec(#[trigger] final(list)@[k]) is Some),
        !has_yakuman(final(list)@),
        forall|y2: Yaku| old(list)@.contains(y2) ==> final(list)@.contains(y2),
        final(list)@.len() >= old(list)@.len(),
        (final(list)@.len() > old(list)@.len()) == standard_terminal_fires(melds@, pair),
        forall|y: Yaku| #[trigger] final(list)@.contains(y) == (old(list)@.contains(y)
            || terminal_yaku_added(y, melds@, pair)),
        *final(total) as int == *old(total) + terminal_total(melds@, pair, context.is_open),
{
    let open = context.is_open;
    if check_honroutou(melds, pair) {
        push_yaku(list, total, Yaku::Honroutou, open);
    }
    if check_shousangen(melds, pair) {
        push_yaku(list, total, Yaku::Shousangen, open);
    }
    if check_junchan(melds, pair) {
        push_yaku(list, total, Yaku::Junchan, open);
    }
    if let Some(f) = check_flush_melds(melds, pair) {
        proof {
            assert(f == Yaku::Honitsu || f == Yaku::Chinitsu);
        }
        push_yaku(list, total, f, open);
    }
}

/// The ordinary structure-driven patterns of a standard decomposition.
#[verifier::loop_isolation(false)]
#[verifier::rlimit(100)]
fn add_standard_patterns(
    list: &mut Vec<Yaku>,
    total: &mut u8,
    structure: &HandStructure,
    context: &GameContext,
)
    requires
        *structure is Standard,
        crate::hand::structure_wf(*structure),
        *old(total) as int == han_sum(old(list)@, context.is_open),
        *old(total) <= 10,
        forall|k: int| 0 <= k < old(list)@.len() ==> (context.is_open
            ==> han_open_spec(#[trigger] old(list)@[k]) is Some),
        !has_yakuman(old(list)@),
    ensures
        *final(total) as int == han_sum(final(list)@, context.is_open),
        *final(total) <= 90,
        forall|k: int| 0 <= k < final(list)@.len() ==> (context.is_open
            ==> han_open_spec(#[trigger] final(list)@[k]) is Some),
        !has_yakuman(final(list)@),
        match context.winning_tile {
            Some(wt) => pinfu_spec(*structure, wt, *context)
                ==> final(list)@.contains(Yaku::Pinfu),
            None => true,
        },
        match *structure {
            HandStructure::Standard { melds, pair } => forall|y: Yaku|
                yakuhai_expected(melds@, *context).contains(y) ==> final(list)@.contains(y),
            _ => true,
        },
        final(list)@.len() >= old(list)@.len(),
        (final(list)@.len() > old(list)@.len()) == standard_regular_fires(*structure, *context),
        forall|y: Yaku| #[trigger] final(list)@.contains(y) == (old(list)@.contains(y)
            || standard_yaku_added(y, *structure, *context)),
        *final(total) as int == *old(total) + standard_total(*structure, *context),
{
    let open = context.is_open;
    match structure {
        HandStructure::Standard { melds, pair } => {
            if check_tanyao(melds, *pair) {
                push_yaku(list, total, Yaku::Tanyao, open);
            }
            if let Some(wt) = context.winning_tile {
                if is_pinfu(structure, wt, context) {
                    push_yaku(list, total, Yaku::Pinfu, open);
                }
            }
            if !open {
                if let Some(p) = check_peikou(melds) {
                    proof {
                        assert(p == Yaku::Iipeikou || p == Yaku::Ryanpeikou);
                    }
                    push_yaku(list, total, p, open);
                }
            }
            let yakuhai = check_yakuhai(melds, context);
            proof {
                lemma_yakuhai_expected_len(melds@, *context);
            }
            let ghost total_before = *total as int;
            let ghost len_before = list@.len();
            let ghost list_before_yakuhai = list@;
            let mut q: usize = 0;
            while q < yakuhai.len()
                invariant
                    q <= yakuhai@.len(),
                    yakuhai@.len() <= 8,
                    total_before <= 17,
                    *total as int == total_before + q,
                    list@.len() == len_before + q,
                    *total as int == han_sum(list@, open),
                    forall|k: int| 0 <= k < list@.len() ==> (open
                        ==> han_open_spec(#[trigger] list@[k]) is Some),
                    !has_yakuman(list@),
                    forall|y: Yaku| #[trigger] list@.contains(y)
                        == (list_before_yakuhai.contains(y)
                            || yakuhai@.take(q as int).contains(y)),
                    (match context.winning_tile {
                        Some(wt) => pinfu_spec(*structure, wt, *context)
                            ==> list@.contains(Yaku::Pinfu),
                        None => true,
                    }),
                decreases yakuhai@.len() - q,
            {
                let y = yakuhai[q];
                proof {
                    assert(yakuhai_expected(melds@, *context)[q as int] == y);
                    lemma_yakuhai_entries_shape(melds@, *context, q as int);
                }
                push_yaku(list, total, y, open);
                proof {
                    assert(yakuhai@.take(q as int + 1) =~= yakuhai@.take(q as int).push(y));
                }
                q = q + 1;
            }
            proof {
                assert(yakuhai@.take(yakuhai@.len() as int) =~= yakuhai@);
                // the census lists nothing but value-honor entries
                assert forall|k: int| 0 <= k < yakuhai@.len() implies
                    (#[trigger] yakuhai@[k]) is Yakuhai by {
                    lemma_yakuhai_entries_shape(melds@, *context, k);
                }
            }
            let ghost after_yakuhai = list@;
            add_standard_tail_patterns(list, total, melds, *pair, context);
            proof {
                assert forall|y: Yaku| #[trigger] list@.contains(y)
                    == (old(list)@.contains(y)
                        || standard_yaku_added(y, *structure, *context)) by {
                    assert(after_yakuhai.contains(y) == (list_before_yakuhai.contains(y)
                        || yakuhai@.contains(y)));
                    assert(list@.contains(y) == (after_yakuhai.contains(y)
                        || tail_yaku_added(y, melds@, *pair, *context)));
                    if yakuhai@.contains(y) {
                        let k = choose|k: int| 0 <= k < yakuhai@.len()
                            && #[trigger] yakuhai@.index(k) == y;
                        assert(y is Yakuhai);
                    }
                }
            }
        }
        _ => {
            proof {
                assert(false);
            }
        }
    }
}

/// The ordinary patterns of a hand on which no limit pattern fired.
#[verifier::loop_isolation(false)]
#[verifier::rlimit(100)]
fn detect_regular_patterns(
    structure: &HandStructure,
    context: &GameContext,
) -> (r: (Vec<Yaku>, u8))
    requires
        crate::hand::structure_wf(*structure),
    ensures
        r.1 as int == han_sum(r.0@, context.is_open),
        r.1 <= 100,
        forall|k: int| 0 <= k < r.0@.len() ==> (context.is_open
            ==> han_open_spec(#[trigger] r.0@[k]) is Some),
        !has_yakuman(r.0@),
        match context.winning_tile {
            Some(wt) => pinfu_spec(*structure, wt, *context)
                ==> r.0@.contains(Yaku::Pinfu),
            None => true,
        },
        *structure is Chiitoitsu ==> r.0@.contains(Yaku::Chiitoitsu),
        match *structure {
            HandStructure::Standard { melds, pair } => forall|y: Yaku|
                yakuhai_expected(melds@, *context).contains(y) ==> r.0@.contains(y),
            _ => true,
        },
        (r.0@.len() > 0) == regular_fires(*structure, *context),
        forall|y: Yaku| #[trigger] r.0@.contains(y)
            == regular_yaku_listed(y, *structure, *context),
        r.1 as int == context_total(*context) + (match *structure {
            HandStructure::Kokushi { .. } => 0int,
            HandStructure::Chiitoitsu { pairs } => chiitoi_total(pairs@, context.is_open),
            HandStructure::Standard { .. } => standard_total(*structure, *context),
        }),
{
    let open = context.is_open;
    let mut list: Vec<Yaku> = Vec::new();
    let mut total: u8 = 0;

    // patterns from the table state
    if context.is_riichi && !open {
        if context.is_double_riichi {
            push_yaku(&mut list, &mut total, Yaku::DoubleRiichi, open);
        } else {
            push_yaku(&mut list, &mut total, Yaku::Riichi, open);
        }
        if context.is_ippatsu {
            push_yaku(&mut list, &mut total, Yaku::Ippatsu, open);
        }
    }
    if matches!(context.win_type, WinType::Tsumo) && !open {
        push_yaku(&mut list, &mut total, Yaku::MenzenTsumo, open);
    }
    if context.is_rinshan && matches!(context.win_type, WinType::Tsumo) {
        push_yaku(&mut list, &mut total, Yaku::RinshanKaihou, open);
    }
    if context.is_chankan && matches!(context.win_type, WinType::Ron) {
        push_yaku(&mut list, &mut total, Yaku::Chankan, open);
    }
    if context.is_last_tile && matches!(context.win_type, WinType::Tsumo) {
        push_yaku(&mut list, &mut total, Yaku::HaiteiRaoyue, open);
    }
    if context.is_last_tile && matches!(context.win_type, WinType::Ron) {
        push_yaku(&mut list, &mut total, Yaku::HouteiRaoyui, open);
    }

    // patterns from the decomposition
    match structure {
        HandStructure::Kokushi { .. } => {}
        HandStructure::Chiitoitsu { pairs } => {
            add_chiitoi_patterns(&mut list, &mut total, pairs, context);
        }
        HandStructure::Standard { .. } => {
            add_standard_patterns(&mut list, &mut total, structure, context);
        }
    }
    proof {
        assert forall|y: Yaku| #[trigger] list@.contains(y)
            == regular_yaku_listed(y, *structure, *context) by {
        }
    }
    (list, total)
}

/// The ordinary patterns of a seven-pairs decomposition: seven pairs
/// itself, and the all-simples, all-terminals-and-honors and flush
/// families over its tiles.
#[verifier::loop_isolation(false)]
#[verifier::rlimit(100)]
fn add_chiitoi_patterns(
    list: &mut Vec<Yaku>,
    total: &mut u8,
    pairs: &Vec<Tile>,
    context: &GameContext,
)
    requires
        *old(total) as int == han_sum(old(list)@, context.is_open),
        *old(total) <= 10,
        forall|k: int| 0 <= k < old(list)@.len() ==> (context.is_open
            ==> han_open_spec(#[trigger] old(list)@[k]) is Some),
        !has_yakuman(old(list)@),
    ensures
        *final(total) as int == han_sum(final(list)@, context.is_open),
        *final(total) <= *old(total) + 11,
        forall|k: int| 0 <= k < final(list)@.len() ==> (context.is_open
            ==> han_open_spec(#[trigger] final(list)@[k]) is Some),
        !has_yakuman(final(list)@),
        final(list)@.len() > old(list)@.len(),
        final(list)@.contains(Yaku::Chiitoitsu),
        forall|y: Yaku| #[trigger] final(list)@.contains(y) == (old(list)@.contains(y)
            || chiitoi_yaku_added(y, pairs@)),
        *final(total) as int == *old(total) + chiitoi_total(pairs@, context.is_open),
{
    let open = context.is_open;
    push_yaku(list, total, Yaku::Chiitoitsu, open);
    let mut all_simple = true;
    let mut all_toh = true;
    let mut i: usize = 0;
    while i < pairs.len()
        invariant
            i <= pairs@.len(),
            all_simple == (forall|k: int| 0 <= k < i
                ==> is_simple_spec(#[trigger] pairs@[k])),
            all_toh == (forall|k: int| 0 <= k < i
                ==> is_terminal_or_honor_spec(#[trigger] pairs@[k])),
        decreases pairs@.len() - i,
    {
        if !pairs[i].is_simple() {
            all_simple = false;
        }
        if !pairs[i].is_terminal_or_honor() {
            all_toh = false;
        }
        i = i + 1;
    }
    if all_simple {
        push_yaku(list, total, Yaku::Tanyao, open);
    }
    if all_toh {
        push_yaku(list, total, Yaku::Honroutou, open);
    }
    if let Some(f) = check_flush_tiles(pairs) {
        proof {
            assert(f == Yaku::Honitsu || f == Yaku::Chinitsu);
        }
        push_yaku(list, total, f, open);
    }
}

/// Detect every pattern the hand satisfies in the given context.
///
/// When a limit pattern fires, only limit patterns are reported and the
/// result is flagged; bonus tiles never add to a limit hand's total. For an
/// open hand only patterns valid when open are listed, at their open-hand
/// han values. The total is always the han sum of the returned list, the
/// bonus counts are exact, and detected pinfu, seven-pairs and value-honor
/// patterns are always listed for non-limit hands.
pub fn detect_yaku_with_context(
    structure: &HandStructure,
    counts: &TileCounts,
    context: &GameContext,
) -> (r: YakuResult)
    requires
        counts.wf(),
        ctx_wf(*context),
        crate::hand::structure_wf(*structure),
        dora_sum(counts@, context.dora_indicators@) + dora_sum(counts@,
            context.ura_dora_indicators@) + context.aka_count <= 100,
    ensures
        r.regular_dora as int == dora_sum(counts@, context.dora_indicators@),
        r.ura_dora as int == if context.is_riichi {
            dora_sum(counts@, context.ura_dora_indicators@)
        } else {
            0int
        },
        r.aka_dora == context.aka_count,
        r.dora_count == r.regular_dora + r.ura_dora + r.aka_dora,
        r.total_han as int == han_sum(r.yaku_list@, context.is_open),
        forall|k: int| 0 <= k < r.yaku_list@.len() ==> (context.is_open
            ==> han_open_spec(#[trigger] r.yaku_list@[k]) is Some),
        has_yakuman(r.yaku_list@) ==> r.is_yakuman,
        // any listed limit pattern carries at least thirteen han
        has_yakuman(r.yaku_list@) ==> r.total_han >= 13,
        !context.is_open ==> r.is_yakuman == has_yakuman(r.yaku_list@),
        !context.is_open && r.is_yakuman ==> r.total_han >= 13,
        r.total_han <= 150,
        r.total_han + r.dora_count <= 255,
        // a detected pinfu is always reported on non-limit hands
        !r.is_yakuman ==> (match context.winning_tile {
            Some(wt) => pinfu_spec(*structure, wt, *context)
                ==> r.yaku_list@.contains(Yaku::Pinfu),
            None => true,
        }),
        // seven pairs is always reported on non-limit hands
        !r.is_yakuman && *structure is Chiitoitsu ==> r.yaku_list@.contains(Yaku::Chiitoitsu),
        // every value-honor entry is reported on non-limit standard hands
        !r.is_yakuman ==> (match *structure {
            HandStructure::Standard { melds, pair } => forall|y: Yaku|
                yakuhai_expected(melds@, *context).contains(y) ==> r.yaku_list@.contains(y),
            _ => true,
        }),
        // the limit flag is exactly the limit firing condition, and the
        // list is empty exactly when no pattern is listed
        r.is_yakuman == limit_fires(*structure, counts@, *context),
        (r.yaku_list@.len() > 0) == some_yaku(*structure, counts@, *context),
        // the listed patterns are exactly the ones the rules grant
        forall|y: Yaku| #[trigger] r.yaku_list@.contains(y)
            == yaku_listed(y, *structure, counts@, *context),
        // the reported total is exactly the granted patterns' han sum
        r.total_han as int == detected_total(*structure, counts@, *context),
{
    let (limit_list, limit_total, yakuman_hit) = detect_limit_patterns(structure, counts,
        context);
    let (list, total) = if yakuman_hit {
        (limit_list, limit_total)
    } else {
        detect_regular_patterns(structure, context)
    };
    proof {
        crate::context::lemma_dora_sum_nonneg(counts@, context.dora_indicators@);
        crate::context::lemma_dora_sum_nonneg(counts@, context.ura_dora_indicators@);
    }
    let dora = count_dora_detailed(counts, context);
    let dora_total = dora.total();
    YakuResult {
        yaku_list: list,
        total_han: total,
        dora_count: dora_total,
        regular_dora: dora.regular,
        ura_dora: dora.ura,
        aka_dora: dora.aka,
        is_yakuman: yakuman_hit,
    }
}

/// Each entry the census owes is a value-honor pattern worth one han.
pub proof fn lemma_yakuhai_entries_shape(ms: Seq<Meld>, ctx: GameContext, q: int)
    requires
        0 <= q < yakuhai_expected(ms, ctx).len(),
    ensures
        han_open_spec(yakuhai_expected(ms, ctx)[q]) == Some(1u8),
        han_spec(yakuhai_expected(ms, ctx)[q]) == 1,
        yakuhai_expected(ms, ctx)[q] is Yakuhai,
    decreases ms.len(),
{
    if ms.len() > 0 {
        let pre = yakuhai_expected(ms.drop_last(), ctx);
        if q < pre.len() {
            lemma_yakuhai_entries_shape(ms.drop_last(), ctx, q);
        }
    }
}

/// Detect patterns without any table context: a plain win by discard with
/// East as both winds, no bonus tiles.
pub fn detect_yaku(structure: &HandStructure) -> (r: YakuResult)
    requires
        crate::hand::structure_wf(*structure),
    ensures
        r.total_han as int == han_sum(r.yaku_list@, false),
        r.dora_count == 0,
        r.is_yakuman == has_yakuman(r.yaku_list@),
{
    let dummy_context = GameContext::new(WinType::Ron, Honor::East, Honor::East);
    let empty_counts = TileCounts::new();
    proof {
        assert(dora_sum(empty_counts@, dummy_context.dora_indicators@) == 0);
        assert(dora_sum(empty_counts@, dummy_context.ura_dora_indicators@) == 0);
    }
    detect_yaku_with_context(structure, &empty_counts, &dummy_context)
}

/// Membership in a concatenation is membership in either part.
proof fn lemma_yaku_seq_add_contains(a: Seq<Yaku>, b: Seq<Yaku>, x: Yaku)
    ensures
        (a + b).contains(x) <==> a.contains(x) || b.contains(x),
{
    if (a + b).contains(x) {
        let k = choose|k: int| 0 <= k < (a + b).len() && (a + b)[k] == x;
        if k < a.len() {
            assert(a[k] == x);
        } else {
            assert(b[k - a.len()] == x);
        }
    }
    if a.contains(x) {
        let k = choose|k: int| 0 <= k < a.len() && a[k] == x;
        assert((a + b)[k] == x);
    }
    if b.contains(x) {
        let k = choose|k: int| 0 <= k < b.len() && b[k] == x;
        assert((a + b)[a.len() + k] == x);
    }
}

/// One honor's entry list names exactly that honor, and only when it has
/// scoring weight.
proof fn lemma_yakuhai_entries_membership(h2: Honor, ctx: GameContext, h: Honor)
    ensures
        yakuhai_entries(h2, ctx).contains(Yaku::Yakuhai(h)) <==> (h2 == h
            && yakuhai_weight(h, ctx) > 0),
{
    let e = yakuhai_entries(h2, ctx);
    if h2 == Honor::White || h2 == Honor::Green || h2 == Honor::Red {
        assert(e == seq![Yaku::Yakuhai(h2)]);
        if e.contains(Yaku::Yakuhai(h)) {
            let k = choose|k: int| 0 <= k < e.len() && e[k] == Yaku::Yakuhai(h);
            assert(h2 == h);
        }
        if h2 == h {
            assert(e[0] == Yaku::Yakuhai(h));
        }
    } else {
        let a: Seq<Yaku> = if h2 == ctx.round_wind {
            seq![Yaku::Yakuhai(h2)]
        } else {
            Seq::empty()
        };
        let b: Seq<Yaku> = if h2 == ctx.seat_wind {
            seq![Yaku::Yakuhai(h2)]
        } else {
            Seq::empty()
        };
        lemma_yaku_seq_add_contains(a, b, Yaku::Yakuhai(h));
        if a.contains(Yaku::Yakuhai(h)) {
            let k = choose|k: int| 0 <= k < a.len() && a[k] == Yaku::Yakuhai(h);
            assert(h2 == h);
        }
        if b.contains(Yaku::Yakuhai(h)) {
            let k = choose|k: int| 0 <= k < b.len() && b[k] == Yaku::Yakuhai(h);
            assert(h2 == h);
        }
        if h2 == h && yakuhai_weight(h, ctx) > 0 {
            if h2 == ctx.round_wind {
                assert(a[0] == Yaku::Yakuhai(h));
            } else {
                assert(h2 == ctx.seat_wind);
                assert(b[0] == Yaku::Yakuhai(h));
            }
        }
    }
}

/// The value-honor census names an honor exactly when some triplet or quad
/// of it stands in the melds and it carries scoring weight: dragons
/// always, winds once per matching role.
pub proof fn lemma_yakuhai_expected_membership(ms: Seq<Meld>, ctx: GameContext, h: Honor)
    ensures
        yakuhai_expected(ms, ctx).contains(Yaku::Yakuhai(h)) <==> ((exists|k: int|
            0 <= k < ms.len() && is_set_of(#[trigger] ms[k], Tile::Honor(h)))
            && yakuhai_weight(h, ctx) > 0),
    decreases ms.len(),
{
    if ms.len() == 0 {
        if yakuhai_expected(ms, ctx).contains(Yaku::Yakuhai(h)) {
            let k = choose|k: int| 0 <= k < yakuhai_expected(ms, ctx).len()
                && yakuhai_expected(ms, ctx)[k] == Yaku::Yakuhai(h);
        }
    } else {
        lemma_yakuhai_expected_membership(ms.drop_last(), ctx, h);
        let pre = yakuhai_expected(ms.drop_last(), ctx);
        let tail: Seq<Yaku> = match ms.last() {
            Meld::Koutsu(Tile::Honor(h2), _) => yakuhai_entries(h2, ctx),
            Meld::Kan(Tile::Honor(h2), _) => yakuhai_entries(h2, ctx),
            _ => Seq::empty(),
        };
        assert(yakuhai_expected(ms, ctx) == pre + tail);
        lemma_yaku_seq_add_contains(pre, tail, Yaku::Yakuhai(h));
        match ms.last() {
            Meld::Koutsu(Tile::Honor(h2), _) => {
                lemma_yakuhai_entries_membership(h2, ctx, h);
            }
            Meld::Kan(Tile::Honor(h2), _) => {
                lemma_yakuhai_entries_membership(h2, ctx, h);
            }
            _ => {
                if tail.contains(Yaku::Yakuhai(h)) {
                    let k = choose|k: int| 0 <= k < tail.len() && tail[k] == Yaku::Yakuhai(h);
                }
            }
        }
        if (exists|k: int| 0 <= k < ms.len() && is_set_of(#[trigger] ms[k], Tile::Honor(h)))
            && yakuhai_weight(h, ctx) > 0 {
            let k = choose|k: int| 0 <= k < ms.len() && is_set_of(#[trigger] ms[k],
                Tile::Honor(h));
            if k < ms.len() - 1 {
                assert(ms.drop_last()[k] == ms[k]);
                assert(is_set_of(ms.drop_last()[k], Tile::Honor(h)));
            }
        }
        if exists|k: int| 0 <= k < ms.drop_last().len() && is_set_of(
            #[trigger] ms.drop_last()[k], Tile::Honor(h)) {
            let k = choose|k: int| 0 <= k < ms.drop_last().len() && is_set_of(
                #[trigger] ms.drop_last()[k], Tile::Honor(h));
            assert(is_set_of(ms[k], Tile::Honor(h)));
        }
    }
}

/// The scalar table-state fields that pattern detection reads.
pub open spec fn ctx_scalars_equal(a: GameContext, b: GameContext) -> bool {
    a.win_type == b.win_type && a.winning_tile == b.winning_tile
        && a.round_wind == b.round_wind && a.seat_wind == b.seat_wind
        && a.is_open == b.is_open && a.is_riichi == b.is_riichi
        && a.is_double_riichi == b.is_double_riichi && a.is_ippatsu == b.is_ippatsu
        && a.is_rinshan == b.is_rinshan && a.is_chankan == b.is_chankan
        && a.is_last_tile == b.is_last_tile && a.is_tenhou == b.is_tenhou
        && a.is_chiihou == b.is_chiihou
}

proof fn lemma_yakuhai_expected_scalars(ms: Seq<Meld>, a: GameContext, b: GameContext)
    requires
        ctx_scalars_equal(a, b),
    ensures
        yakuhai_expected(ms, a) == yakuhai_expected(ms, b),
    decreases ms.len(),
{
    if ms.len() > 0 {
        lemma_yakuhai_expected_scalars(ms.drop_last(), a, b);
    }
}

proof fn lemma_sanankou_count_scalars(ms: Seq<Meld>, all: Seq<Meld>, a: GameContext,
    b: GameContext)
    requires
        ctx_scalars_equal(a, b),
    ensures
        sanankou_count_spec(ms, all, a) == sanankou_count_spec(ms, all, b),
    decreases ms.len(),
{
    if ms.len() > 0 {
        lemma_sanankou_count_scalars(ms.drop_last(), all, a, b);
    }
}

proof fn lemma_suuankou_count_scalars(ms: Seq<Meld>, a: GameContext, b: GameContext)
    requires
        ctx_scalars_equal(a, b),
    ensures
        suuankou_count_spec(ms, a) == suuankou_count_spec(ms, b),
    decreases ms.len(),
{
    if ms.len() > 0 {
        lemma_suuankou_count_scalars(ms.drop_last(), a, b);
    }
}

/// Whether any pattern is listed depends only on the scalar table state,
/// never on the indicator lists or the red-five count.
pub proof fn lemma_some_yaku_scalars(s: HandStructure, c: Seq<u8>, a: GameContext,
    b: GameContext)
    requires
        ctx_scalars_equal(a, b),
    ensures
        some_yaku(s, c, a) == some_yaku(s, c, b),
{
    match s {
        HandStructure::Standard { melds, pair } => {
            lemma_yakuhai_expected_scalars(melds@, a, b);
            lemma_sanankou_count_scalars(melds@, melds@, a, b);
            lemma_suuankou_count_scalars(melds@, a, b);
        }
        _ => {}
    }
}

/// The detected han total reads only the scalar table state.
pub proof fn lemma_detected_total_scalars(s: HandStructure, c: Seq<u8>, a: GameContext,
    b: GameContext)
    requires
        ctx_scalars_equal(a, b),
    ensures
        detected_total(s, c, a) == detected_total(s, c, b),
        limit_fires(s, c, a) == limit_fires(s, c, b),
{
    match s {
        HandStructure::Standard { melds, pair } => {
            lemma_yakuhai_expected_scalars(melds@, a, b);
            lemma_sanankou_count_scalars(melds@, melds@, a, b);
            lemma_suuankou_count_scalars(melds@, a, b);
        }
        _ => {}
    }
}

/// Whenever the limit list is non-empty, some limit pattern is in it, so a
/// flagged hand with a non-empty list reports at least thirteen han — open
/// or closed. (An open hand whose only fired limit patterns need a closed
/// hand lists nothing, and its total is the empty sum.)
pub proof fn lemma_limit_listed_names_a_pattern(s: HandStructure, c: Seq<u8>, ctx: GameContext)
    requires
        limit_listed(s, c, ctx),
    ensures
        exists|y: Yaku| #[trigger] limit_yaku_listed(y, s, c, ctx) && is_yakuman_spec(y),
{
    if tenhou_fires(ctx) {
        assert(limit_yaku_listed(Yaku::Tenhou, s, c, ctx) && is_yakuman_spec(Yaku::Tenhou));
    } else if chiihou_fires(ctx) {
        assert(limit_yaku_listed(Yaku::Chiihou, s, c, ctx) && is_yakuman_spec(Yaku::Chiihou));
    } else {
        match s {
            HandStructure::Kokushi { pair } => {
                if ctx.winning_tile == Some(pair) {
                    assert(limit_yaku_listed(Yaku::Kokushi13Wait, s, c, ctx)
                        && is_yakuman_spec(Yaku::Kokushi13Wait));
                } else {
                    assert(limit_yaku_listed(Yaku::KokushiMusou, s, c, ctx)
                        && is_yakuman_spec(Yaku::KokushiMusou));
                }
            }
            HandStructure::Chiitoitsu { pairs } => {
                if forall|k: int| 0 <= k < pairs@.len()
                    ==> is_honor_spec(#[trigger] pairs@[k]) {
                    assert(limit_yaku_listed(Yaku::Tsuuiisou, s, c, ctx)
                        && is_yakuman_spec(Yaku::Tsuuiisou));
                } else {
                    assert(limit_yaku_listed(Yaku::Chinroutou, s, c, ctx)
                        && is_yakuman_spec(Yaku::Chinroutou));
                }
            }
            HandStructure::Standard { melds, pair } => {
                if !ctx.is_open && suuankou_spec(melds@, ctx) {
                    assert(limit_yaku_listed(Yaku::Suuankou, s, c, ctx)
                        && is_yakuman_spec(Yaku::Suuankou));
                } else if daisangen_spec(melds@) {
                    assert(limit_yaku_listed(Yaku::Daisangen, s, c, ctx)
                        && is_yakuman_spec(Yaku::Daisangen));
                } else if wind_set_count(melds@) == 4 {
                    assert(limit_yaku_listed(Yaku::Daisuushii, s, c, ctx)
                        && is_yakuman_spec(Yaku::Daisuushii));
                } else if four_winds_fires(melds@, pair) {
                    assert(limit_yaku_listed(Yaku::Shousuushii, s, c, ctx)
                        && is_yakuman_spec(Yaku::Shousuushii));
                } else if tsuuiisou_spec(melds@, pair) {
                    assert(limit_yaku_listed(Yaku::Tsuuiisou, s, c, ctx)
                        && is_yakuman_spec(Yaku::Tsuuiisou));
                } else if chinroutou_spec(melds@, pair) {
                    assert(limit_yaku_listed(Yaku::Chinroutou, s, c, ctx)
                        && is_yakuman_spec(Yaku::Chinroutou));
                } else if ryuuiisou_spec(melds@, pair) {
                    assert(limit_yaku_listed(Yaku::Ryuuiisou, s, c, ctx)
                        && is_yakuman_spec(Yaku::Ryuuiisou));
                } else {
                    let su = chuuren_suit_of(c)->Some_0;
                    if chuuren_junsei(c, su, ctx) {
                        assert(limit_yaku_listed(Yaku::JunseiChuurenPoutou, s, c, ctx)
                            && is_yakuman_spec(Yaku::JunseiChuurenPoutou));
                    } else {
                        assert(limit_yaku_listed(Yaku::ChuurenPoutou, s, c, ctx)
                            && is_yakuman_spec(Yaku::ChuurenPoutou));
                    }
                }
            }
        }
    }
}

} // verus!
