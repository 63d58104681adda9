use vstd::prelude::*;

use crate::tile::{tile_index_spec, tile_wf, Honor, Suit, Tile, TileCounts};

verus! {

/// How the winning tile arrived.
#[derive(Debug, Clone, Copy, PartialEq, Eq, Structural)]
pub enum WinType {
    /// Won on another player's discard.
    Ron,
    /// Won by self-draw.
    Tsumo,
}

/// Everything about the table state that scoring needs: win mode, winds,
/// openness, riichi state, situational flags, and bonus-tile indicators.
#[derive(Debug)]
pub struct GameContext {
    pub win_type: WinType,
    /// The tile that completed the hand, when known.
    pub winning_tile: Option<Tile>,
    pub round_wind: Honor,
    pub seat_wind: Honor,
    /// Whether the hand holds called (open) melds.
    pub is_open: bool,
    pub is_riichi: bool,
    pub is_double_riichi: bool,
    pub is_ippatsu: bool,
    /// Won on the replacement tile after a quad.
    pub is_rinshan: bool,
    /// Won by robbing another player's added quad.
    pub is_chankan: bool,
    /// Won on the last tile of the round.
    pub is_last_tile: bool,
    /// Dealer's win on the very first draw.
    pub is_tenhou: bool,
    /// Non-dealer's win on the very first draw.
    pub is_chiihou: bool,
    pub dora_indicators: Vec<Tile>,
    /// Extra indicators that count only with riichi.
    pub ura_dora_indicators: Vec<Tile>,
    /// Number of red fives in the hand.
    pub aka_count: u8,
}

/// Every tile the context mentions is well formed.
pub open spec fn ctx_wf(ctx: GameContext) -> bool {
    (match ctx.winning_tile {
        Some(t) => tile_wf(t),
        None => true,
    })
    && (forall|k: int| 0 <= k < ctx.dora_indicators@.len() ==>
        tile_wf(#[trigger] ctx.dora_indicators@[k]))
    && (forall|k: int| 0 <= k < ctx.ura_dora_indicators@.len() ==>
        tile_wf(#[trigger] ctx.ura_dora_indicators@[k]))
}

impl Clone for GameContext {
    /// A copy with every field equal, the indicator lists compared as
    /// sequences.
    fn clone(&self) -> (r: Self)
        ensures
            r.win_type == self.win_type,
            r.winning_tile == self.winning_tile,
            r.round_wind == self.round_wind,
            r.seat_wind == self.seat_wind,
            r.is_open == self.is_open,
            r.is_riichi == self.is_riichi,
            r.is_double_riichi == self.is_double_riichi,
            r.is_ippatsu == self.is_ippatsu,
            r.is_rinshan == self.is_rinshan,
            r.is_chankan == self.is_chankan,
            r.is_last_tile == self.is_last_tile,
            r.is_tenhou == self.is_tenhou,
            r.is_chiihou == self.is_chiihou,
            r.dora_indicators@ == self.dora_indicators@,
            r.ura_dora_indicators@ == self.ura_dora_indicators@,
            r.aka_count == self.aka_count,
    {
        let mut dora: Vec<Tile> = Vec::new();
        let mut i: usize = 0;
        while i < self.dora_indicators.len()
            invariant
                i <= self.dora_indicators@.len(),
                dora@ == self.dora_indicators@.take(i as int),
            decreases self.dora_indicators@.len() - i,
        {
            dora.push(self.dora_indicators[i]);
            proof {
                assert(dora@ =~= self.dora_indicators@.take(i as int + 1));
            }
            i = i + 1;
        }
        proof {
            assert(dora@ =~= self.dora_indicators@);
        }
        let mut ura: Vec<Tile> = Vec::new();
        let mut k: usize = 0;
        while k < self.ura_dora_indicators.len()
            invariant
                k <= self.ura_dora_indicators@.len(),
                ura@ == self.ura_dora_indicators@.take(k as int),
            decreases self.ura_dora_indicators@.len() - k,
        {
            ura.push(self.ura_dora_indicators[k]);
            proof {
                assert(ura@ =~= self.ura_dora_indicators@.take(k as int + 1));
            }
            k = k + 1;
        }
        proof {
            assert(ura@ =~= self.ura_dora_indicators@);
        }
        GameContext {
            win_type: self.win_type,
            winning_tile: self.winning_tile,
            round_wind: self.round_wind,
            seat_wind: self.seat_wind,
            is_open: self.is_open,
            is_riichi: self.is_riichi,
            is_double_riichi: self.is_double_riichi,
            is_ippatsu: self.is_ippatsu,
            is_rinshan: self.is_rinshan,
            is_chankan: self.is_chankan,
            is_last_tile: self.is_last_tile,
            is_tenhou: self.is_tenhou,
            is_chiihou: self.is_chiihou,
            dora_indicators: dora,
            ura_dora_indicators: ura,
            aka_count: self.aka_count,
        }
    }
}

impl GameContext {
    /// A fresh context: the given win mode and winds, everything else off.
    pub fn new(win_type: WinType, round_wind: Honor, seat_wind: Honor) -> (r: Self)
        ensures
            r == (GameContext {
                win_type,
                winning_tile: None::<Tile>,
                round_wind,
                seat_wind,
                is_open: false,
                is_riichi: false,
                is_double_riichi: false,
                is_ippatsu: false,
                is_rinshan: false,
                is_chankan: false,
                is_last_tile: false,
                is_tenhou: false,
                is_chiihou: false,
                dora_indicators: r.dora_indicators,
                ura_dora_indicators: r.ura_dora_indicators,
                aka_count: 0u8,
            }),
            r.dora_indicators@ == Seq::<Tile>::empty(),
            r.ura_dora_indicators@ == Seq::<Tile>::empty(),
    {
        let r = GameContext {
            win_type,
            winning_tile: None,
            round_wind,
            seat_wind,
            is_open: false,
            is_riichi: false,
            is_double_riichi: false,
            is_ippatsu: false,
            is_rinshan: false,
            is_chankan: false,
            is_last_tile: false,
            is_tenhou: false,
            is_chiihou: false,
            dora_indicators: Vec::new(),
            ura_dora_indicators: Vec::new(),
            aka_count: 0,
        };
        proof {
            assert(r.dora_indicators@ =~= Seq::<Tile>::empty());
            assert(r.ura_dora_indicators@ =~= Seq::<Tile>::empty());
        }
        r
    }

    /// Record the winning tile.
    pub fn with_winning_tile(self, tile: Tile) -> (r: Self)
        ensures
            r == (GameContext { winning_tile: Some(tile), ..self }),
    {
        GameContext { winning_tile: Some(tile), ..self }
    }

    /// Mark the hand as open.
    pub fn open(self) -> (r: Self)
        ensures
            r == (GameContext { is_open: true, ..self }),
    {
        GameContext { is_open: true, ..self }
    }

    /// Declare riichi.
    pub fn riichi(self) -> (r: Self)
        ensures
            r == (GameContext { is_riichi: true, ..self }),
    {
        GameContext { is_riichi: true, ..self }
    }

    /// Declare a first-turn riichi, which is also a riichi.
    pub fn double_riichi(self) -> (r: Self)
        ensures
            r == (GameContext { is_riichi: true, is_double_riichi: true, ..self }),
    {
        GameContext { is_riichi: true, is_double_riichi: true, ..self }
    }

    /// Mark a win within one turn of riichi.
    pub fn ippatsu(self) -> (r: Self)
        ensures
            r == (GameContext { is_ippatsu: true, ..self }),
    {
        GameContext { is_ippatsu: true, ..self }
    }

    /// Mark a win on the replacement tile after a quad.
    pub fn rinshan(self) -> (r: Self)
        ensures
            r == (GameContext { is_rinshan: true, ..self }),
    {
        GameContext { is_rinshan: true, ..self }
    }

    /// Mark a win that robbed an added quad.
    pub fn chankan(self) -> (r: Self)
        ensures
            r == (GameContext { is_chankan: true, ..self }),
    {
        GameContext { is_chankan: true, ..self }
    }

    /// Mark a win on the round's last tile.
    pub fn last_tile(self) -> (r: Self)
        ensures
            r == (GameContext { is_last_tile: true, ..self }),
    {
        GameContext { is_last_tile: true, ..self }
    }

    /// Mark the dealer's first-draw win.
    pub fn tenhou(self) -> (r: Self)
        ensures
            r == (GameContext { is_tenhou: true, ..self }),
    {
        GameContext { is_tenhou: true, ..self }
    }

    /// Mark a non-dealer's first-draw win.
    pub fn chiihou(self) -> (r: Self)
        ensures
            r == (GameContext { is_chiihou: true, ..self }),
    {
        GameContext { is_chiihou: true, ..self }
    }

    /// Set the bonus-tile indicators.
    pub fn with_dora(self, indicators: Vec<Tile>) -> (r: Self)
        ensures
            r == (GameContext { dora_indicators: indicators, ..self }),
    {
        GameContext { dora_indicators: indicators, ..self }
    }

    /// Set the hidden bonus-tile indicators.
    pub fn with_ura_dora(self, indicators: Vec<Tile>) -> (r: Self)
        ensures
            r == (GameContext { ura_dora_indicators: indicators, ..self }),
    {
        GameContext { ura_dora_indicators: indicators, ..self }
    }

    /// Set the number of red fives.
    pub fn with_aka(self, count: u8) -> (r: Self)
        ensures
            r == (GameContext { aka_count: count, ..self }),
    {
        GameContext { aka_count: count, ..self }
    }

    /// Is this wind the round wind or the seat wind?
    pub fn is_value_wind(&self, wind: Honor) -> (r: bool)
        ensures
            r == (wind == self.round_wind || wind == self.seat_wind),
    {
        wind == self.round_wind || wind == self.seat_wind
    }

    /// Is the hand closed?
    pub fn is_closed(&self) -> (r: bool)
        ensures
            r == !self.is_open,
    {
        !self.is_open
    }

    /// Is the player the dealer (seat wind East)?
    pub fn is_dealer(&self) -> (r: bool)
        ensures
            r == (self.seat_wind == Honor::East),
    {
        self.seat_wind == Honor::East
    }
}

/// The bonus tile named by an indicator: the next suited value with 9
/// wrapping to 1, winds cycling East, South, West, North, and dragons
/// cycling White, Green, Red.
pub open spec fn indicator_to_dora_spec(indicator: Tile) -> Tile {
    match indicator {
        Tile::Suited { suit, value } => Tile::Suited {
            suit,
            value: if value == 9 {
                1u8
            } else {
                (value + 1) as u8
            },
        },
        Tile::Honor(h) => Tile::Honor(match h {
            Honor::East => Honor::South,
            Honor::South => Honor::West,
            Honor::West => Honor::North,
            Honor::North => Honor::East,
            Honor::White => Honor::Green,
            Honor::Green => Honor::Red,
            Honor::Red => Honor::White,
        }),
    }
}

/// The indicator that names a given bonus tile: the inverse of the mapping.
pub open spec fn dora_to_indicator_spec(dora: Tile) -> Tile {
    match dora {
        Tile::Suited { suit, value } => Tile::Suited {
            suit,
            value: if value == 1 {
                9u8
            } else {
                (value - 1) as u8
            },
        },
        Tile::Honor(h) => Tile::Honor(match h {
            Honor::South => Honor::East,
            Honor::West => Honor::South,
            Honor::North => Honor::West,
            Honor::East => Honor::North,
            Honor::Green => Honor::White,
            Honor::Red => Honor::Green,
            Honor::White => Honor::Red,
        }),
    }
}

/// The indicator-to-bonus-tile mapping is a bijection on the 34 well-formed
/// tiles: it keeps well-formedness, and the reverse mapping undoes it in
/// both directions, so winds cycle among winds and dragons among dragons.
pub proof fn lemma_indicator_to_dora_bijective(t: Tile)
    requires
        tile_wf(t),
    ensures
        tile_wf(indicator_to_dora_spec(t)),
        tile_wf(dora_to_indicator_spec(t)),
        dora_to_indicator_spec(indicator_to_dora_spec(t)) == t,
        indicator_to_dora_spec(dora_to_indicator_spec(t)) == t,
{
}

/// Turn a bonus-tile indicator into the tile it names.
pub fn indicator_to_dora(indicator: Tile) -> (r: Tile)
    requires
        tile_wf(indicator),
    ensures
        r == indicator_to_dora_spec(indicator),
        tile_wf(r),
{
    match indicator {
        Tile::Suited { suit, value } => {
            let next_value = if value == 9 {
                1
            } else {
                value + 1
            };
            Tile::Suited { suit, value: next_value }
        }
        Tile::Honor(honor) => {
            let next_honor = match honor {
                Honor::East => Honor::South,
                Honor::South => Honor::West,
                Honor::West => Honor::North,
                Honor::North => Honor::East,
                Honor::White => Honor::Green,
                Honor::Green => Honor::Red,
                Honor::Red => Honor::White,
            };
            Tile::Honor(next_honor)
        }
    }
}

/// How many bonus tiles the indicators in `inds` name inside the multiset.
pub open spec fn dora_sum(c: Seq<u8>, inds: Seq<Tile>) -> int
    decreases inds.len(),
{
    if inds.len() == 0 {
        0
    } else {
        dora_sum(c, inds.drop_last()) + c[tile_index_spec(indicator_to_dora_spec(inds.last()))]
    }
}

pub proof fn lemma_dora_sum_nonneg(c: Seq<u8>, inds: Seq<Tile>)
    ensures
        dora_sum(c, inds) >= 0,
    decreases inds.len(),
{
    if inds.len() > 0 {
        lemma_dora_sum_nonneg(c, inds.drop_last());
    }
}

/// The full bonus count: regular indicators, hidden indicators (which count
/// only with riichi), and red fives.
pub struct DoraCount {
    pub regular: u8,
    pub ura: u8,
    pub aka: u8,
}

impl DoraCount {
    /// The sum of the three bonus kinds.
    pub fn total(&self) -> (r: u8)
        requires
            self.regular + self.ura + self.aka <= 255,
        ensures
            r == self.regular + self.ura + self.aka,
    {
        self.regular + self.ura + self.aka
    }
}

/// Count bonus tiles by kind. Hidden indicators count only when riichi was
/// declared; red fives are taken from the context.
pub fn count_dora_detailed(counts: &TileCounts, context: &GameContext) -> (r: DoraCount)
    requires
        counts.wf(),
        ctx_wf(*context),
        dora_sum(counts@, context.dora_indicators@) <= 255,
        dora_sum(counts@, context.ura_dora_indicators@) <= 255,
        dora_sum(counts@, context.dora_indicators@) + dora_sum(counts@,
            context.ura_dora_indicators@) + context.aka_count <= 255,
    ensures
        r.regular as int == dora_sum(counts@, context.dora_indicators@),
        r.ura as int == if context.is_riichi {
            dora_sum(counts@, context.ura_dora_indicators@)
        } else {
            0int
        },
        r.aka == context.aka_count,
        r.regular + r.ura + r.aka <= 255,
{
    let regular = dora_tiles_in_hand(counts, &context.dora_indicators);
    let ura = if context.is_riichi {
        dora_tiles_in_hand(counts, &context.ura_dora_indicators)
    } else {
        proof {
            lemma_dora_sum_nonneg(counts@, context.ura_dora_indicators@);
        }
        0
    };
    DoraCount { regular, ura, aka: context.aka_count }
}

/// Sum the hand's copies of each indicator's bonus tile.
fn dora_tiles_in_hand(counts: &TileCounts, inds: &Vec<Tile>) -> (r: u8)
    requires
        counts.wf(),
        forall|k: int| 0 <= k < inds@.len() ==> tile_wf(#[trigger] inds@[k]),
        dora_sum(counts@, inds@) <= 255,
    ensures
        r as int == dora_sum(counts@, inds@),
{
    let mut total: u8 = 0;
    let mut i: usize = 0;
    while i < inds.len()
        invariant
            counts.wf(),
            i <= inds@.len(),
            forall|k: int| 0 <= k < inds@.len() ==> tile_wf(#[trigger] inds@[k]),
            dora_sum(counts@, inds@) <= 255,
            total as int == dora_sum(counts@, inds@.take(i as int)),
        decreases inds@.len() - i,
    {
        let dora = indicator_to_dora(inds[i]);
        let c = counts.get(dora);
        proof {
            assert(inds@.take(i as int + 1).drop_last() =~= inds@.take(i as int));
            lemma_dora_sum_prefix(counts@, inds@, i as int + 1);
        }
        total = total + c;
        i = i + 1;
    }
    proof {
        assert(inds@.take(inds@.len() as int) =~= inds@);
    }
    total
}

/// A partial sum of `dora_sum` never exceeds the full sum.
proof fn lemma_dora_sum_prefix(c: Seq<u8>, inds: Seq<Tile>, n: int)
    requires
        0 <= n <= inds.len(),
    ensures
        dora_sum(c, inds.take(n)) <= dora_sum(c, inds),
    decreases inds.len() - n,
{
    if n == inds.len() {
        assert(inds.take(n) =~= inds);
    } else {
        lemma_dora_sum_prefix(c, inds, n + 1);
        assert(inds.take(n + 1).drop_last() =~= inds.take(n));
        assert(dora_sum(c, inds.take(n)) <= dora_sum(c, inds.take(n + 1)));
    }
}

/// Total bonus count: regular, hidden (with riichi only), and red fives.
pub fn count_dora(counts: &TileCounts, context: &GameContext) -> (r: u8)
    requires
        counts.wf(),
        ctx_wf(*context),
        dora_sum(counts@, context.dora_indicators@) <= 255,
        dora_sum(counts@, context.ura_dora_indicators@) <= 255,
        dora_sum(counts@, context.dora_indicators@) + dora_sum(counts@,
            context.ura_dora_indicators@) + context.aka_count <= 255,
    ensures
        r as int == dora_sum(counts@, context.dora_indicators@) + (if context.is_riichi {
            dora_sum(counts@, context.ura_dora_indicators@)
        } else {
            0int
        }) + context.aka_count,
{
    let detailed = count_dora_detailed(counts, context);
    detailed.total()
}

} // verus!
