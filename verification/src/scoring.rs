use vstd::prelude::*;

use crate::context::{GameContext, WinType};
use crate::display::append_u32;
use crate::hand::{
    kan_open_spec, meld_open_spec, tile_in_closed_sequence, tile_in_closed_sequence_spec,
    HandStructure, Meld,
};
use crate::tile::{is_terminal_or_honor_spec, Honor, Tile};
use crate::wait::{best_wait_type, is_pinfu, pinfu_spec, wait_fu_spec, wait_matches, WaitType};
use crate::yaku::{yaku_name, YakuResult};

verus! {

/// The score tier a hand reaches.
#[derive(Debug, Clone, Copy, PartialEq, Eq, PartialOrd, Ord, Structural)]
pub enum ScoreLevel {
    /// Below the first limit: points come from the fu formula.
    Normal,
    /// Five han, or four han at 40+ fu, or three han at 70+ fu.
    Mangan,
    /// Six or seven han.
    Haneman,
    /// Eight to ten han.
    Baiman,
    /// Eleven or twelve han.
    Sanbaiman,
    /// Thirteen or more han, or a limit pattern.
    Yakuman,
    /// Two limit patterns, or twenty-six or more han on a limit hand.
    DoubleYakuman,
}

pub open spec fn basic_points_spec(level: ScoreLevel) -> int {
    match level {
        ScoreLevel::Normal => 0,
        ScoreLevel::Mangan => 2000,
        ScoreLevel::Haneman => 3000,
        ScoreLevel::Baiman => 4000,
        ScoreLevel::Sanbaiman => 6000,
        ScoreLevel::Yakuman => 8000,
        ScoreLevel::DoubleYakuman => 16000,
    }
}

impl ScoreLevel {
    /// The base points of the tier; the normal tier computes from fu.
    pub fn basic_points(&self) -> (r: u32)
        ensures
            r as int == basic_points_spec(*self),
    {
        match self {
            ScoreLevel::Normal => 0,
            ScoreLevel::Mangan => 2000,
            ScoreLevel::Haneman => 3000,
            ScoreLevel::Baiman => 4000,
            ScoreLevel::Sanbaiman => 6000,
            ScoreLevel::Yakuman => 8000,
            ScoreLevel::DoubleYakuman => 16000,
        }
    }

    /// The tier's display name; the normal tier has none.
    pub fn name(&self) -> (r: &'static str)
        ensures
            r@ == (match *self {
                ScoreLevel::Normal => ""@,
                ScoreLevel::Mangan => "Mangan"@,
                ScoreLevel::Haneman => "Haneman"@,
                ScoreLevel::Baiman => "Baiman"@,
                ScoreLevel::Sanbaiman => "Sanbaiman"@,
                ScoreLevel::Yakuman => "Yakuman"@,
                ScoreLevel::DoubleYakuman => "Double Yakuman"@,
            }),
    {
        match self {
            ScoreLevel::Normal => "",
            ScoreLevel::Mangan => "Mangan",
            ScoreLevel::Haneman => "Haneman",
            ScoreLevel::Baiman => "Baiman",
            ScoreLevel::Sanbaiman => "Sanbaiman",
            ScoreLevel::Yakuman => "Yakuman",
            ScoreLevel::DoubleYakuman => "Double Yakuman",
        }
    }
}

/// Minor points with their breakdown.
#[derive(Debug, Clone)]
pub struct FuResult {
    /// Total fu, rounded up to the next ten except for the fixed 25 of
    /// seven pairs and the fixed 20 of pinfu with self-draw.
    pub total: u8,
    pub breakdown: FuBreakdown,
}

/// The parts the fu total is assembled from.
#[derive(Debug, Clone)]
pub struct FuBreakdown {
    /// The flat base.
    pub base: u8,
    /// Bonus for a closed hand won by discard.
    pub menzen_ron: u8,
    /// Bonus for self-draw, withheld from pinfu.
    pub tsumo: u8,
    /// Fu from triplets and quads.
    pub melds: u8,
    /// Fu from a scoring pair.
    pub pair: u8,
    /// Fu from the wait shape.
    pub wait: u8,
    /// The sum before rounding.
    pub raw_total: u8,
}

impl Default for FuBreakdown {
    /// All components zero.
    fn default() -> (r: Self)
        ensures
            r.base == 0 && r.menzen_ron == 0 && r.tsumo == 0 && r.melds == 0 && r.pair == 0
                && r.wait == 0 && r.raw_total == 0,
    {
        FuBreakdown {
            base: 0,
            menzen_ron: 0,
            tsumo: 0,
            melds: 0,
            pair: 0,
            wait: 0,
            raw_total: 0,
        }
    }
}

/// Who pays what for a winning hand.
#[derive(Debug, Clone)]
pub struct Payment {
    /// All payments together.
    pub total: u32,
    /// On self-draw: what each non-dealer pays.
    pub from_non_dealer: Option<u32>,
    /// On a non-dealer's self-draw: what the dealer pays.
    pub from_dealer: Option<u32>,
    /// On discard: what the discarder pays.
    pub from_discarder: Option<u32>,
}

/// The complete score of one interpretation of a hand.
#[derive(Debug, Clone)]
pub struct ScoringResult {
    pub fu: FuResult,
    pub han: u8,
    pub score_level: ScoreLevel,
    pub basic_points: u32,
    pub payment: Payment,
    pub is_dealer: bool,
    /// The limit tier was reached by accumulated han alone, with no limit
    /// pattern.
    pub is_counted_yakuman: bool,
}

// ===== fu =====

/// Fu of one meld. A simple triplet is worth 2, a terminal-or-honor
/// triplet 4; closed triplets double; quads are worth four triplets.
/// A triplet completed by the winning discard counts as open unless the
/// winning tile also stands in a closed sequence of the hand.
pub open spec fn meld_fu_spec(m: Meld, all: Seq<Meld>, ctx: GameContext) -> int {
    match m {
        Meld::Shuntsu(_, _) => 0,
        Meld::Koutsu(t, open) => {
            let base: int = if is_terminal_or_honor_spec(t) {
                4
            } else {
                2
            };
            let ron_on_this = ctx.win_type == WinType::Ron && ctx.winning_tile == Some(t);
            let true_shanpon = ron_on_this && !tile_in_closed_sequence_spec(t, all);
            if open || true_shanpon {
                base
            } else {
                2 * base
            }
        }
        Meld::Kan(t, k) => {
            let base: int = if is_terminal_or_honor_spec(t) {
                16
            } else {
                8
            };
            if kan_open_spec(k) {
                base
            } else {
                2 * base
            }
        }
    }
}

pub open spec fn melds_fu_sum(ms: Seq<Meld>, all: Seq<Meld>, ctx: GameContext) -> int
    decreases ms.len(),
{
    if ms.len() == 0 {
        0
    } else {
        melds_fu_sum(ms.drop_last(), all, ctx) + meld_fu_spec(ms.last(), all, ctx)
    }
}

/// Fu of the pair: 2 for a dragon; for a wind, 2 per matching role (round
/// and seat stack); nothing otherwise.
pub open spec fn pair_fu_spec(pair: Tile, ctx: GameContext) -> int {
    match pair {
        Tile::Honor(h) => if h == Honor::White || h == Honor::Green || h == Honor::Red {
            2int
        } else {
            (if h == ctx.round_wind {
                2int
            } else {
                0int
            }) + if h == ctx.seat_wind {
                2int
            } else {
                0int
            }
        },
        Tile::Suited { .. } => 0,
    }
}

/// The fu of the wait the scorer picks: zero when some zero-fu wait
/// matches, two when only two-fu waits match, zero when none match.
pub open spec fn scoring_wait_fu(s: HandStructure, wt: Tile) -> int {
    if wait_matches(s, wt, WaitType::Ryanmen) || wait_matches(s, wt, WaitType::Shanpon)
        || wait_matches(s, wt, WaitType::Kokushi13) {
        0
    } else if wait_matches(s, wt, WaitType::Kanchan) || wait_matches(s, wt, WaitType::Penchan)
        || wait_matches(s, wt, WaitType::Tanki) {
        2
    } else {
        0
    }
}

/// Does pinfu apply to this decomposition under this context?
pub open spec fn fu_pinfu_applies(s: HandStructure, ctx: GameContext) -> bool {
    match ctx.winning_tile {
        Some(wt) => pinfu_spec(s, wt, ctx),
        None => false,
    }
}

/// The unrounded fu of a standard hand when the pinfu self-draw shortcut
/// does not apply.
pub open spec fn standard_raw_fu(melds: Seq<Meld>, pair: Tile, s: HandStructure,
    ctx: GameContext) -> int {
    let pinfu = fu_pinfu_applies(s, ctx);
    20 + (if !ctx.is_open && ctx.win_type == WinType::Ron {
        10int
    } else {
        0int
    }) + (if ctx.win_type == WinType::Tsumo && !pinfu {
        2int
    } else {
        0int
    }) + melds_fu_sum(melds, melds, ctx) + pair_fu_spec(pair, ctx) + (match ctx.winning_tile {
        Some(wt) => if pinfu {
            0int
        } else {
            scoring_wait_fu(s, wt)
        },
        None => 0int,
    })
}

pub open spec fn round_up_to_10_spec(v: int) -> int {
    ((v + 9) / 10) * 10
}

/// The final fu of any decomposition: 25 for seven pairs, 30 for thirteen
/// orphans, exactly 20 for pinfu won by self-draw, otherwise the rounded
/// standard sum raised to 30 for an open hand.
pub open spec fn fu_total_spec(s: HandStructure, ctx: GameContext) -> int {
    match s {
        HandStructure::Chiitoitsu { .. } => 25,
        HandStructure::Kokushi { .. } => 30,
        HandStructure::Standard { melds, pair } => if fu_pinfu_applies(s, ctx)
            && ctx.win_type == WinType::Tsumo {
            20
        } else {
            let rounded = round_up_to_10_spec(standard_raw_fu(melds@, pair, s, ctx));
            if ctx.is_open && rounded < 30 {
                30
            } else {
                rounded
            }
        },
    }
}

/// The breakdown the fu computation reports: the special shapes carry
/// their fixed value as the base alone, and a standard hand lists each
/// component with the unrounded sum.
pub open spec fn fu_breakdown_spec(s: HandStructure, ctx: GameContext) -> FuBreakdown {
    match s {
        HandStructure::Chiitoitsu { .. } => FuBreakdown {
            base: 25u8,
            menzen_ron: 0u8,
            tsumo: 0u8,
            melds: 0u8,
            pair: 0u8,
            wait: 0u8,
            raw_total: 0u8,
        },
        HandStructure::Kokushi { .. } => FuBreakdown {
            base: 30u8,
            menzen_ron: 0u8,
            tsumo: 0u8,
            melds: 0u8,
            pair: 0u8,
            wait: 0u8,
            raw_total: 0u8,
        },
        HandStructure::Standard { melds, pair } => {
            let pinfu = fu_pinfu_applies(s, ctx);
            if pinfu && ctx.win_type == WinType::Tsumo {
                FuBreakdown {
                    base: 20u8,
                    menzen_ron: 0u8,
                    tsumo: 0u8,
                    melds: 0u8,
                    pair: 0u8,
                    wait: 0u8,
                    raw_total: 0u8,
                }
            } else {
                FuBreakdown {
                    base: 20u8,
                    menzen_ron: if !ctx.is_open && ctx.win_type == WinType::Ron {
                        10u8
                    } else {
                        0u8
                    },
                    tsumo: if ctx.win_type == WinType::Tsumo && !pinfu {
                        2u8
                    } else {
                        0u8
                    },
                    melds: melds_fu_sum(melds@, melds@, ctx) as u8,
                    pair: pair_fu_spec(pair, ctx) as u8,
                    wait: (match ctx.winning_tile {
                        Some(wt) => if pinfu {
                            0int
                        } else {
                            scoring_wait_fu(s, wt)
                        },
                        None => 0int,
                    }) as u8,
                    raw_total: standard_raw_fu(melds@, pair, s, ctx) as u8,
                }
            }
        }
    }
}

/// Round up to the next multiple of ten.
pub fn round_up_to_10(value: u8) -> (r: u8)
    requires
        value <= 246,
    ensures
        r as int == round_up_to_10_spec(value as int),
        r % 10 == 0,
        value <= r < value + 10,
{
    ((value + 9) / 10) * 10
}

/// Fu of one meld, under the discard-completion rule.
fn meld_fu_with_context(meld: &Meld, all_melds: &Vec<Meld>, context: &GameContext) -> (r: u8)
    ensures
        r as int == meld_fu_spec(*meld, all_melds@, *context),
        r <= 32,
{
    match meld {
        Meld::Shuntsu(_, _) => 0,
        Meld::Koutsu(tile, is_meld_open) => {
            let base: u8 = if tile.is_terminal_or_honor() {
                4
            } else {
                2
            };
            let is_ron_on_this_tile = matches!(context.win_type, WinType::Ron)
                && context.winning_tile == Some(*tile);
            let is_true_shanpon = is_ron_on_this_tile && !tile_in_closed_sequence(*tile,
                all_melds);
            if *is_meld_open || is_true_shanpon {
                base
            } else {
                base * 2
            }
        }
        Meld::Kan(tile, kan_type) => {
            let base: u8 = if tile.is_terminal_or_honor() {
                16
            } else {
                8
            };
            if kan_type.is_open() {
                base
            } else {
                base * 2
            }
        }
    }
}

/// Fu of the pair.
pub fn pair_fu(pair: Tile, context: &GameContext) -> (r: u8)
    ensures
        r as int == pair_fu_spec(pair, *context),
        r <= 4,
{
    match pair {
        Tile::Honor(honor) => match honor {
            Honor::White => 2,
            Honor::Green => 2,
            Honor::Red => 2,
            wind => {
                let mut fu: u8 = 0;
                if wind == context.round_wind {
                    fu = fu + 2;
                }
                if wind == context.seat_wind {
                    fu = fu + 2;
                }
                fu
            }
        },
        Tile::Suited { .. } => 0,
    }
}

/// The minor points of a decomposition, with their breakdown.
///
/// Seven pairs score exactly 25 fu; thirteen orphans report 30; pinfu won
/// by self-draw scores exactly 20; every other total is a multiple of ten,
/// and an open standard hand never falls below 30.
#[verifier::loop_isolation(false)]
pub fn calculate_fu(structure: &HandStructure, context: &GameContext) -> (r: FuResult)
    requires
        crate::hand::structure_wf(*structure),
    ensures
        r.total as int == fu_total_spec(*structure, *context),
        *structure is Chiitoitsu ==> r.total == 25,
        *structure is Kokushi ==> r.total == 30,
        fu_pinfu_applies(*structure, *context) && context.win_type == WinType::Tsumo
            ==> r.total == 20,
        *structure is Standard && !(fu_pinfu_applies(*structure, *context)
            && context.win_type == WinType::Tsumo) ==> r.total % 10 == 0 && r.total >= 20,
        context.is_open && *structure is Standard ==> r.total >= 30,
        // the reported breakdown is the real decomposition of the total
        r.breakdown == fu_breakdown_spec(*structure, *context),
{
    match structure {
        HandStructure::Chiitoitsu { .. } => {
            let mut breakdown = FuBreakdown::default();
            breakdown.base = 25;
            FuResult { total: 25, breakdown }
        }
        HandStructure::Kokushi { .. } => {
            let mut breakdown = FuBreakdown::default();
            breakdown.base = 30;
            FuResult { total: 30, breakdown }
        }
        HandStructure::Standard { melds, pair } => {
            let is_pinfu_hand = match context.winning_tile {
                Some(wt) => is_pinfu(structure, wt, context),
                None => false,
            };
            if is_pinfu_hand && matches!(context.win_type, WinType::Tsumo) {
                let mut breakdown = FuBreakdown::default();
                breakdown.base = 20;
                return FuResult { total: 20, breakdown };
            }
            let mut breakdown = FuBreakdown::default();
            breakdown.base = 20;
            if !context.is_open && matches!(context.win_type, WinType::Ron) {
                breakdown.menzen_ron = 10;
            }
            if matches!(context.win_type, WinType::Tsumo) && !is_pinfu_hand {
                breakdown.tsumo = 2;
            }
            let mut meld_total: u8 = 0;
            let mut i: usize = 0;
            while i < melds.len()
                invariant
                    i <= melds@.len(),
                    melds@.len() == 4,
                    meld_total as int == melds_fu_sum(melds@.take(i as int), melds@, *context),
                    meld_total <= 32 * i,
                decreases melds@.len() - i,
            {
                let f = meld_fu_with_context(&melds[i], melds, context);
                proof {
                    assert(melds@.take(i as int + 1).drop_last() =~= melds@.take(i as int));
                    assert(melds@.take(i as int + 1).last() == melds@[i as int]);
                }
                meld_total = meld_total + f;
                i = i + 1;
            }
            proof {
                assert(melds@.take(melds@.len() as int) =~= melds@);
            }
            breakdown.melds = meld_total;
            breakdown.pair = pair_fu(*pair, context);
            if let Some(wt) = context.winning_tile {
                if is_pinfu_hand {
                    breakdown.wait = 0;
                } else {
                    let best = best_wait_type(structure, wt);
                    breakdown.wait = match best {
                        Some(w) => w.fu(),
                        None => 0,
                    };
                    proof {
                        match best {
                            Some(w) => {
                                assert(wait_fu_spec(w) == scoring_wait_fu(*structure, wt)) by {
                                    if wait_matches(*structure, wt, WaitType::Ryanmen)
                                        || wait_matches(*structure, wt, WaitType::Shanpon)
                                        || wait_matches(*structure, wt, WaitType::Kokushi13) {
                                        assert(crate::wait::wait_order_spec(w) <= 2);
                                    }
                                }
                            }
                            None => {
                                assert(scoring_wait_fu(*structure, wt) == 0);
                            }
                        }
                    }
                }
            }
            breakdown.raw_total = breakdown.base + breakdown.menzen_ron + breakdown.tsumo
                + breakdown.melds + breakdown.pair + breakdown.wait;
            let rounded = round_up_to_10(breakdown.raw_total);
            let total = if context.is_open && rounded < 30 {
                30
            } else {
                rounded
            };
            proof {
                assert(breakdown.raw_total as int
                    == standard_raw_fu(melds@, *pair, *structure, *context));
            }
            FuResult { total, breakdown }
        }
    }
}

// ===== score =====

/// The tier for a han and fu total; a limit pattern forces the limit tiers.
pub open spec fn score_level_spec(han: int, fu: int, is_yakuman: bool) -> ScoreLevel {
    if is_yakuman {
        if han >= 26 {
            ScoreLevel::DoubleYakuman
        } else {
            ScoreLevel::Yakuman
        }
    } else if han >= 13 {
        ScoreLevel::Yakuman
    } else if han >= 11 {
        ScoreLevel::Sanbaiman
    } else if han >= 8 {
        ScoreLevel::Baiman
    } else if han >= 6 {
        ScoreLevel::Haneman
    } else if han >= 5 {
        ScoreLevel::Mangan
    } else if han == 4 && fu >= 40 {
        ScoreLevel::Mangan
    } else if han == 3 && fu >= 70 {
        ScoreLevel::Mangan
    } else {
        ScoreLevel::Normal
    }
}

/// The tier reached by a han and fu count.
pub fn determine_score_level(han: u8, fu: u8, is_yakuman: bool) -> (r: ScoreLevel)
    ensures
        r == score_level_spec(han as int, fu as int, is_yakuman),
{
    if is_yakuman {
        if han >= 26 {
            ScoreLevel::DoubleYakuman
        } else {
            ScoreLevel::Yakuman
        }
    } else if han >= 13 {
        ScoreLevel::Yakuman
    } else if han >= 11 {
        ScoreLevel::Sanbaiman
    } else if han >= 8 {
        ScoreLevel::Baiman
    } else if han >= 6 {
        ScoreLevel::Haneman
    } else if han >= 5 {
        ScoreLevel::Mangan
    } else if han == 4 && fu >= 40 {
        ScoreLevel::Mangan
    } else if han == 3 && fu >= 70 {
        ScoreLevel::Mangan
    } else {
        ScoreLevel::Normal
    }
}

pub open spec fn pow2(n: nat) -> int
    decreases n,
{
    if n == 0 {
        1
    } else {
        2 * pow2((n - 1) as nat)
    }
}

/// Base points in the normal tier: fu times two to the han plus two,
/// capped at the first limit of 2000.
pub open spec fn basic_points_value(han: int, fu: int, is_yakuman: bool) -> int {
    let level = score_level_spec(han, fu, is_yakuman);
    if level != ScoreLevel::Normal {
        basic_points_spec(level)
    } else {
        let raw = fu * pow2((han + 2) as nat);
        if raw > 2000 {
            2000
        } else {
            raw
        }
    }
}

/// Base points from han and fu.
pub fn calculate_basic_points(han: u8, fu: u8, is_yakuman: bool) -> (r: u32)
    ensures
        r as int == basic_points_value(han as int, fu as int, is_yakuman),
        r <= 16000,
{
    let level = determine_score_level(han, fu, is_yakuman);
    if !matches!(level, ScoreLevel::Normal) {
        return level.basic_points();
    }
    // in the normal tier han is at most four
    proof {
        assert(pow2(0) == 1);
        assert(pow2(1) == 2);
        assert(pow2(2) == 4);
        assert(pow2(3) == 8);
        assert(pow2(4) == 16);
        assert(pow2(5) == 32);
        assert(pow2(6) == 64);
    }
    let mult: u32 = if han == 0 {
        4
    } else if han == 1 {
        8
    } else if han == 2 {
        16
    } else if han == 3 {
        32
    } else {
        64
    };
    let basic: u32 = fu as u32 * mult;
    if basic > 2000 {
        2000
    } else {
        basic
    }
}

pub open spec fn round_up_to_100_spec(v: int) -> int {
    ((v + 99) / 100) * 100
}

/// Round up to the next multiple of one hundred.
fn round_up_to_100(value: u32) -> (r: u32)
    requires
        value <= 1000000,
    ensures
        r as int == round_up_to_100_spec(value as int),
        value <= r < value + 100,
{
    ((value + 99) / 100) * 100
}

/// The payment split: the dealer's self-draw takes double base from each
/// opponent, a non-dealer's self-draw takes double base from the dealer
/// and single base from the others, and a discard is paid in full by the
/// discarder at six or four times base. Every component rounds up to the
/// next hundred by itself.
pub open spec fn payment_matches(p: Payment, basic: int, is_dealer: bool, wt: WinType) -> bool {
    match wt {
        WinType::Tsumo => if is_dealer {
            &&& p.from_non_dealer == Some((round_up_to_100_spec(basic * 2)) as u32)
            &&& p.from_dealer is None
            &&& p.from_discarder is None
            &&& p.total as int == 3 * round_up_to_100_spec(basic * 2)
        } else {
            &&& p.from_dealer == Some((round_up_to_100_spec(basic * 2)) as u32)
            &&& p.from_non_dealer == Some((round_up_to_100_spec(basic)) as u32)
            &&& p.from_discarder is None
            &&& p.total as int == round_up_to_100_spec(basic * 2) + 2 * round_up_to_100_spec(
                basic)
        },
        WinType::Ron => {
            &&& p.from_discarder == Some((round_up_to_100_spec(basic * (if is_dealer {
                6int
            } else {
                4int
            }))) as u32)
            &&& p.from_dealer is None
            &&& p.from_non_dealer is None
            &&& p.total as int == round_up_to_100_spec(basic * (if is_dealer {
                6int
            } else {
                4int
            }))
        },
    }
}

/// Split the base points into the payments owed.
pub fn calculate_payment(basic_points: u32, is_dealer: bool, win_type: WinType) -> (r: Payment)
    requires
        basic_points <= 16000,
    ensures
        payment_matches(r, basic_points as int, is_dealer, win_type),
{
    match win_type {
        WinType::Tsumo => {
            if is_dealer {
                let from_each = round_up_to_100(basic_points * 2);
                Payment {
                    total: from_each * 3,
                    from_non_dealer: Some(from_each),
                    from_dealer: None,
                    from_discarder: None,
                }
            } else {
                let from_dealer = round_up_to_100(basic_points * 2);
                let from_non_dealer = round_up_to_100(basic_points);
                Payment {
                    total: from_dealer + (from_non_dealer * 2),
                    from_non_dealer: Some(from_non_dealer),
                    from_dealer: Some(from_dealer),
                    from_discarder: None,
                }
            }
        }
        WinType::Ron => {
            let multiplier: u32 = if is_dealer {
                6
            } else {
                4
            };
            let from_discarder = round_up_to_100(basic_points * multiplier);
            Payment {
                total: from_discarder,
                from_non_dealer: None,
                from_dealer: None,
                from_discarder: Some(from_discarder),
            }
        }
    }
}

/// Score one decomposition: fu, reported han (bonus tiles included for
/// non-limit hands), tier, base points and the payment split. A limit tier
/// reached by accumulated han alone is flagged as a counted limit.
pub fn calculate_score(
    structure: &HandStructure,
    yaku_result: &YakuResult,
    context: &GameContext,
) -> (r: ScoringResult)
    requires
        crate::hand::structure_wf(*structure),
        yaku_result.total_han + yaku_result.dora_count <= 255,
    ensures
        r.fu.total as int == fu_total_spec(*structure, *context),
        r.han == if yaku_result.is_yakuman {
            yaku_result.total_han
        } else {
            (yaku_result.total_han + yaku_result.dora_count) as u8
        },
        r.score_level == score_level_spec(r.han as int, r.fu.total as int,
            yaku_result.is_yakuman),
        r.basic_points as int == basic_points_value(r.han as int, r.fu.total as int,
            yaku_result.is_yakuman),
        payment_matches(r.payment, r.basic_points as int, context.seat_wind == Honor::East,
            context.win_type),
        r.is_dealer == (context.seat_wind == Honor::East),
        r.is_counted_yakuman == ((r.score_level == ScoreLevel::Yakuman
            || r.score_level == ScoreLevel::DoubleYakuman) && !yaku_result.is_yakuman),
{
    let fu = calculate_fu(structure, context);
    let han = yaku_result.total_han_with_dora();
    let score_level = determine_score_level(han, fu.total, yaku_result.is_yakuman);
    let basic_points = calculate_basic_points(han, fu.total, yaku_result.is_yakuman);
    let is_dealer = context.is_dealer();
    let payment = calculate_payment(basic_points, is_dealer, context.win_type);
    let is_counted_yakuman = (matches!(score_level, ScoreLevel::Yakuman)
        || matches!(score_level, ScoreLevel::DoubleYakuman)) && !yaku_result.is_yakuman;
    ScoringResult {
        fu,
        han,
        score_level,
        basic_points,
        payment,
        is_dealer,
        is_counted_yakuman,
    }
}

/// A plain-text summary of a scored hand: the pattern list, the bonus
/// breakdown, han and fu, the tier and the payment split.
pub fn format_score(result: &ScoringResult, yaku_result: &YakuResult) -> (r: String) {
    let mut output = String::new();
    output.append("Yaku:\n");
    let mut i: usize = 0;
    while i < yaku_result.yaku_list.len()
        decreases yaku_result.yaku_list@.len() - i,
    {
        output.append("  - ");
        output.append(yaku_name(&yaku_result.yaku_list[i]));
        output.append(" (");
        append_u32(&mut output, yaku_result.yaku_list[i].han() as u32);
        output.append(" han)\n");
        i = i + 1;
    }
    if yaku_result.regular_dora > 0 {
        output.append("  - Dora (");
        append_u32(&mut output, yaku_result.regular_dora as u32);
        output.append(" han)\n");
    }
    if yaku_result.ura_dora > 0 {
        output.append("  - Ura Dora (");
        append_u32(&mut output, yaku_result.ura_dora as u32);
        output.append(" han)\n");
    }
    if yaku_result.aka_dora > 0 {
        output.append("  - Red Fives (Akadora) (");
        append_u32(&mut output, yaku_result.aka_dora as u32);
        output.append(" han)\n");
    }
    output.append("\n");
    append_u32(&mut output, result.han as u32);
    output.append(" han / ");
    append_u32(&mut output, result.fu.total as u32);
    output.append(" fu\n");
    if !matches!(result.score_level, ScoreLevel::Normal) {
        output.append(result.score_level.name());
        output.append("\n");
    }
    output.append("\nTotal: ");
    append_u32(&mut output, result.payment.total);
    output.append(" points\n");
    if let Some(from_discarder) = result.payment.from_discarder {
        output.append("Ron: ");
        append_u32(&mut output, from_discarder);
        output.append(" from discarder\n");
    } else {
        if result.is_dealer {
            if let Some(from_each) = result.payment.from_non_dealer {
                output.append("Tsumo: ");
                append_u32(&mut output, from_each);
                output.append(" all\n");
            }
        } else {
            if let (Some(from_dealer), Some(from_non_dealer)) = (result.payment.from_dealer,
                result.payment.from_non_dealer) {
                output.append("Tsumo: ");
                append_u32(&mut output, from_dealer);
                output.append("/");
                append_u32(&mut output, from_non_dealer);
                output.append("\n");
            }
        }
    }
    output
}

/// Fu of one meld with no table context: the plain open/closed values.
pub open spec fn plain_meld_fu_spec(m: Meld) -> int {
    match m {
        Meld::Shuntsu(_, _) => 0,
        Meld::Koutsu(t, open) => {
            let base: int = if is_terminal_or_honor_spec(t) {
                4
            } else {
                2
            };
            if open {
                base
            } else {
                2 * base
            }
        }
        Meld::Kan(t, k) => {
            let base: int = if is_terminal_or_honor_spec(t) {
                16
            } else {
                8
            };
            if kan_open_spec(k) {
                base
            } else {
                2 * base
            }
        }
    }
}

/// Fu of one meld taken on its own: sequences none, triplets two or four
/// by tile kind, doubled when closed, and quads at four times the triplet.
pub fn meld_fu(meld: &Meld) -> (r: u8)
    ensures
        r as int == plain_meld_fu_spec(*meld),
{
    match meld {
        Meld::Shuntsu(_, _) => 0,
        Meld::Koutsu(tile, is_meld_open) => {
            let base: u8 = if tile.is_terminal_or_honor() {
                4
            } else {
                2
            };
            if *is_meld_open {
                base
            } else {
                base * 2
            }
        }
        Meld::Kan(tile, kan_type) => {
            let base: u8 = if tile.is_terminal_or_honor() {
                16
            } else {
                8
            };
            if kan_type.is_open() {
                base
            } else {
                base * 2
            }
        }
    }
}

/// The meld fu sum reads only the win mode and winning tile of the
/// context.
pub proof fn lemma_melds_fu_sum_scalars(ms: Seq<Meld>, all: Seq<Meld>, a: GameContext,
    b: GameContext)
    requires
        a.win_type == b.win_type,
        a.winning_tile == b.winning_tile,
    ensures
        melds_fu_sum(ms, all, a) == melds_fu_sum(ms, all, b),
    decreases ms.len(),
{
    if ms.len() > 0 {
        lemma_melds_fu_sum_scalars(ms.drop_last(), all, a, b);
    }
}

} // verus!
