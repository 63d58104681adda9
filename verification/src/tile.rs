use vstd::prelude::*;

verus! {

/// The three numbered suits, in canonical order.
#[derive(Debug, Clone, Copy, PartialEq, Eq, Hash, PartialOrd, Ord, Structural)]
pub enum Suit {
    Man,
    Pin,
    Sou,
}

/// The seven honor tiles: four winds, then three dragons, in canonical order.
#[derive(Debug, Clone, Copy, PartialEq, Eq, Hash, PartialOrd, Ord, Structural)]
pub enum Honor {
    East,
    South,
    West,
    North,
    White,
    Green,
    Red,
}

/// One of the 34 distinct tile kinds: a suited tile (value 1..=9) or an honor.
#[derive(Debug, Clone, Copy, PartialEq, Eq, Hash, PartialOrd, Ord, Structural)]
pub enum Tile {
    Suited { suit: Suit, value: u8 },
    Honor(Honor),
}

/// A tile is well formed when a suited value lies in 1..=9.
pub open spec fn tile_wf(t: Tile) -> bool {
    match t {
        Tile::Suited { suit, value } => 1 <= value <= 9,
        Tile::Honor(_) => true,
    }
}

/// Position of a suit in the canonical order.
pub open spec fn suit_order(s: Suit) -> int {
    match s {
        Suit::Man => 0,
        Suit::Pin => 1,
        Suit::Sou => 2,
    }
}

/// Position of an honor in the canonical order.
pub open spec fn honor_order(h: Honor) -> int {
    match h {
        Honor::East => 0,
        Honor::South => 1,
        Honor::West => 2,
        Honor::North => 3,
        Honor::White => 4,
        Honor::Green => 5,
        Honor::Red => 6,
    }
}

/// The canonical dense index of a tile: suited tiles take 0..27, honors 27..34.
pub open spec fn tile_index_spec(t: Tile) -> int {
    match t {
        Tile::Suited { suit, value } => suit_order(suit) * 9 + value - 1,
        Tile::Honor(h) => 27 + honor_order(h),
    }
}

/// The tile whose canonical index is `i`.
pub open spec fn tile_of_index(i: int) -> Tile {
    if i < 9 {
        Tile::Suited { suit: Suit::Man, value: (i + 1) as u8 }
    } else if i < 18 {
        Tile::Suited { suit: Suit::Pin, value: (i - 8) as u8 }
    } else if i < 27 {
        Tile::Suited { suit: Suit::Sou, value: (i - 17) as u8 }
    } else {
        Tile::Honor(
            if i == 27 { Honor::East }
            else if i == 28 { Honor::South }
            else if i == 29 { Honor::West }
            else if i == 30 { Honor::North }
            else if i == 31 { Honor::White }
            else if i == 32 { Honor::Green }
            else { Honor::Red }
        )
    }
}

/// Indexing is a bijection between well-formed tiles and 0..34.
pub proof fn lemma_tile_index_bijective(t: Tile)
    requires
        tile_wf(t),
    ensures
        0 <= tile_index_spec(t) < 34,
        tile_of_index(tile_index_spec(t)) == t,
{
}

/// Every index in 0..34 names a well-formed tile, and its index is itself.
pub proof fn lemma_index_tile_bijective(i: int)
    requires
        0 <= i < 34,
    ensures
        tile_wf(tile_of_index(i)),
        tile_index_spec(tile_of_index(i)) == i,
{
}

pub open spec fn is_simple_spec(t: Tile) -> bool {
    match t {
        Tile::Suited { suit, value } => 2 <= value <= 8,
        Tile::Honor(_) => false,
    }
}

pub open spec fn is_terminal_spec(t: Tile) -> bool {
    match t {
        Tile::Suited { suit, value } => value == 1 || value == 9,
        Tile::Honor(_) => false,
    }
}

pub open spec fn is_honor_spec(t: Tile) -> bool {
    t is Honor
}

pub open spec fn is_terminal_or_honor_spec(t: Tile) -> bool {
    is_terminal_spec(t) || is_honor_spec(t)
}

pub open spec fn is_dragon_spec(t: Tile) -> bool {
    match t {
        Tile::Honor(h) => h == Honor::White || h == Honor::Green || h == Honor::Red,
        _ => false,
    }
}

pub open spec fn is_wind_spec(t: Tile) -> bool {
    match t {
        Tile::Honor(h) => h == Honor::East || h == Honor::South || h == Honor::West
            || h == Honor::North,
        _ => false,
    }
}

/// Green tiles: sou 2, 3, 4, 6, 8 and the Green dragon.
pub open spec fn is_green_spec(t: Tile) -> bool {
    match t {
        Tile::Suited { suit, value } => suit == Suit::Sou
            && (value == 2 || value == 3 || value == 4 || value == 6 || value == 8),
        Tile::Honor(h) => h == Honor::Green,
    }
}

impl Tile {
    /// Build a suited tile.
    pub fn suited(suit: Suit, value: u8) -> (t: Tile)
        ensures
            t == (Tile::Suited { suit, value }),
    {
        Tile::Suited { suit, value }
    }

    /// Build an honor tile.
    pub fn honor(honor: Honor) -> (t: Tile)
        ensures
            t == Tile::Honor(honor),
    {
        Tile::Honor(honor)
    }

    /// Is this a simple tile (2..=8 of any suit)?
    pub fn is_simple(&self) -> (r: bool)
        ensures
            r == is_simple_spec(*self),
    {
        match self {
            Tile::Suited { value, .. } => *value >= 2 && *value <= 8,
            Tile::Honor(_) => false,
        }
    }

    /// Is this a terminal (1 or 9) or an honor?
    pub fn is_terminal_or_honor(&self) -> (r: bool)
        ensures
            r == is_terminal_or_honor_spec(*self),
    {
        match self {
            Tile::Suited { value, .. } => *value == 1 || *value == 9,
            Tile::Honor(_) => true,
        }
    }

    /// Is this a terminal (1 or 9 of a suit, honors excluded)?
    pub fn is_terminal(&self) -> (r: bool)
        ensures
            r == is_terminal_spec(*self),
    {
        match self {
            Tile::Suited { value, .. } => *value == 1 || *value == 9,
            Tile::Honor(_) => false,
        }
    }

    /// Is this an honor tile?
    pub fn is_honor(&self) -> (r: bool)
        ensures
            r == is_honor_spec(*self),
    {
        match self {
            Tile::Honor(_) => true,
            _ => false,
        }
    }

    /// Is this a dragon?
    pub fn is_dragon(&self) -> (r: bool)
        ensures
            r == is_dragon_spec(*self),
    {
        match self {
            Tile::Honor(Honor::White) => true,
            Tile::Honor(Honor::Green) => true,
            Tile::Honor(Honor::Red) => true,
            _ => false,
        }
    }

    /// Is this a wind?
    pub fn is_wind(&self) -> (r: bool)
        ensures
            r == is_wind_spec(*self),
    {
        match self {
            Tile::Honor(Honor::East) => true,
            Tile::Honor(Honor::South) => true,
            Tile::Honor(Honor::West) => true,
            Tile::Honor(Honor::North) => true,
            _ => false,
        }
    }

    /// Is this one of the tiles that count as green (for the all-green hand)?
    pub fn is_green(&self) -> (r: bool)
        ensures
            r == is_green_spec(*self),
    {
        match self {
            Tile::Suited { suit: Suit::Sou, value } =>
                *value == 2 || *value == 3 || *value == 4 || *value == 6 || *value == 8,
            Tile::Honor(Honor::Green) => true,
            _ => false,
        }
    }

    /// The suit, for a suited tile.
    pub fn suit(&self) -> (r: Option<Suit>)
        ensures
            r == (match *self {
                Tile::Suited { suit, .. } => Some(suit),
                Tile::Honor(_) => None::<Suit>,
            }),
    {
        match self {
            Tile::Suited { suit, .. } => Some(*suit),
            Tile::Honor(_) => None,
        }
    }

    /// The value, for a suited tile.
    pub fn value(&self) -> (r: Option<u8>)
        ensures
            r == (match *self {
                Tile::Suited { value, .. } => Some(value),
                Tile::Honor(_) => None::<u8>,
            }),
    {
        match self {
            Tile::Suited { value, .. } => Some(*value),
            Tile::Honor(_) => None,
        }
    }
}

/// The canonical dense index of a well-formed tile.
pub fn tile_to_index(tile: Tile) -> (i: usize)
    requires
        tile_wf(tile),
    ensures
        i == tile_index_spec(tile),
        i < 34,
{
    match tile {
        Tile::Suited { suit, value } => {
            let base: usize = match suit {
                Suit::Man => 0,
                Suit::Pin => 9,
                Suit::Sou => 18,
            };
            base + (value as usize - 1)
        }
        Tile::Honor(honor) => {
            27 + match honor {
                Honor::East => 0,
                Honor::South => 1,
                Honor::West => 2,
                Honor::North => 3,
                Honor::White => 4,
                Honor::Green => 5,
                Honor::Red => 6,
            }
        }
    }
}

/// The tile at a canonical dense index.
pub fn index_to_tile(idx: usize) -> (t: Tile)
    requires
        idx < 34,
    ensures
        t == tile_of_index(idx as int),
        tile_wf(t),
        tile_index_spec(t) == idx,
{
    if idx < 27 {
        let suit = if idx / 9 == 0 {
            Suit::Man
        } else if idx / 9 == 1 {
            Suit::Pin
        } else {
            Suit::Sou
        };
        let value = (idx % 9) as u8 + 1;
        Tile::Suited { suit, value }
    } else {
        let honor = if idx == 27 {
            Honor::East
        } else if idx == 28 {
            Honor::South
        } else if idx == 29 {
            Honor::West
        } else if idx == 30 {
            Honor::North
        } else if idx == 31 {
            Honor::White
        } else if idx == 32 {
            Honor::Green
        } else {
            Honor::Red
        };
        Tile::Honor(honor)
    }
}

/// Does this tile belong to the thirteen-orphans reference set
/// (terminals and honors)?
pub open spec fn is_kokushi_tile_spec(t: Tile) -> bool {
    is_terminal_or_honor_spec(t)
}

/// The 13 terminal and honor tiles, in canonical order.
pub fn kokushi_tiles() -> (r: Vec<Tile>)
    ensures
        r@.len() == 13,
        forall|k: int| 0 <= k < 13 ==> tile_wf(#[trigger] r@[k]) && is_kokushi_tile_spec(r@[k]),
        // every well-formed terminal-or-honor tile occurs in the list
        forall|t: Tile| tile_wf(t) && is_kokushi_tile_spec(t) ==> r@.contains(t),
        // the list holds no duplicates
        forall|j: int, k: int| 0 <= j < k < 13 ==> r@[j] != r@[k],
{
    let mut v: Vec<Tile> = Vec::new();
    v.push(Tile::Suited { suit: Suit::Man, value: 1 });
    v.push(Tile::Suited { suit: Suit::Man, value: 9 });
    v.push(Tile::Suited { suit: Suit::Pin, value: 1 });
    v.push(Tile::Suited { suit: Suit::Pin, value: 9 });
    v.push(Tile::Suited { suit: Suit::Sou, value: 1 });
    v.push(Tile::Suited { suit: Suit::Sou, value: 9 });
    v.push(Tile::Honor(Honor::East));
    v.push(Tile::Honor(Honor::South));
    v.push(Tile::Honor(Honor::West));
    v.push(Tile::Honor(Honor::North));
    v.push(Tile::Honor(Honor::White));
    v.push(Tile::Honor(Honor::Green));
    v.push(Tile::Honor(Honor::Red));
    proof {
        assert forall|t: Tile| tile_wf(t) && is_kokushi_tile_spec(t) implies v@.contains(t) by {
            match t {
                Tile::Suited { suit, value } => {
                    match suit {
                        Suit::Man => {
                            if value == 1 { assert(v@[0] == t); } else { assert(v@[1] == t); }
                        }
                        Suit::Pin => {
                            if value == 1 { assert(v@[2] == t); } else { assert(v@[3] == t); }
                        }
                        Suit::Sou => {
                            if value == 1 { assert(v@[4] == t); } else { assert(v@[5] == t); }
                        }
                    }
                }
                Tile::Honor(h) => {
                    match h {
                        Honor::East => { assert(v@[6] == t); }
                        Honor::South => { assert(v@[7] == t); }
                        Honor::West => { assert(v@[8] == t); }
                        Honor::North => { assert(v@[9] == t); }
                        Honor::White => { assert(v@[10] == t); }
                        Honor::Green => { assert(v@[11] == t); }
                        Honor::Red => { assert(v@[12] == t); }
                    }
                }
            }
        }
    }
    v
}

/// How many of the tiles in `tiles` have canonical index `j`.
pub open spec fn occ(tiles: Seq<Tile>, j: int) -> int
    decreases tiles.len(),
{
    if tiles.len() == 0 {
        0
    } else {
        occ(tiles.drop_last(), j) + if tile_index_spec(tiles.last()) == j {
            1int
        } else {
            0int
        }
    }
}

pub proof fn lemma_occ_bound(tiles: Seq<Tile>, j: int)
    ensures
        0 <= occ(tiles, j) <= tiles.len(),
    decreases tiles.len(),
{
    if tiles.len() > 0 {
        lemma_occ_bound(tiles.drop_last(), j);
    }
}

pub proof fn lemma_occ_push(tiles: Seq<Tile>, t: Tile, j: int)
    ensures
        occ(tiles.push(t), j) == occ(tiles, j) + if tile_index_spec(t) == j {
            1int
        } else {
            0int
        },
{
    assert(tiles.push(t).drop_last() =~= tiles);
}

/// A multiset of tiles, held as a dense 34-entry count array.
/// Index `j` counts the copies of the tile with canonical index `j`.
pub struct TileCounts {
    pub counts: Vec<u8>,
}

impl View for TileCounts {
    type V = Seq<u8>;

    open spec fn view(&self) -> Seq<u8> {
        self.counts@
    }
}

impl TileCounts {
    /// Well-formed: exactly one count per tile kind.
    pub open spec fn wf(&self) -> bool {
        self@.len() == 34
    }

    /// The count at a tile's canonical index.
    pub open spec fn count_spec(&self, t: Tile) -> int {
        self@[tile_index_spec(t)] as int
    }

    /// The counts, with every tile in `tiles` counted once.
    pub open spec fn matches(&self, tiles: Seq<Tile>) -> bool {
        forall|j: int| 0 <= j < 34 ==> #[trigger] self@[j] as int == occ(tiles, j)
    }

    /// The empty multiset.
    pub fn new() -> (r: TileCounts)
        ensures
            r.wf(),
            forall|j: int| 0 <= j < 34 ==> r@[j] == 0,
    {
        let mut counts: Vec<u8> = Vec::new();
        let mut i: usize = 0;
        while i < 34
            invariant
                counts@.len() == i,
                i <= 34,
                forall|j: int| 0 <= j < i ==> counts@[j] == 0,
            decreases 34 - i,
        {
            counts.push(0);
            i = i + 1;
        }
        TileCounts { counts }
    }

    /// A copy of the multiset.
    pub fn duplicate(&self) -> (r: TileCounts)
        requires
            self.wf(),
        ensures
            r.wf(),
            r@ == self@,
    {
        let mut counts: Vec<u8> = Vec::new();
        let mut i: usize = 0;
        while i < 34
            invariant
                self.wf(),
                counts@.len() == i,
                i <= 34,
                forall|j: int| 0 <= j < i ==> counts@[j] == self@[j],
            decreases 34 - i,
        {
            counts.push(self.counts[i]);
            i = i + 1;
        }
        let r = TileCounts { counts };
        proof {
            assert(r@ =~= self@);
        }
        r
    }

    /// The count of one tile kind.
    pub fn get(&self, t: Tile) -> (r: u8)
        requires
            self.wf(),
            tile_wf(t),
        ensures
            r as int == self.count_spec(t),
    {
        self.counts[tile_to_index(t)]
    }

    /// The count at a canonical index.
    pub fn get_idx(&self, idx: usize) -> (r: u8)
        requires
            self.wf(),
            idx < 34,
        ensures
            r == self@[idx as int],
    {
        self.counts[idx]
    }

    /// Replace the count at a canonical index.
    pub fn set_idx(&mut self, idx: usize, v: u8)
        requires
            old(self).wf(),
            idx < 34,
        ensures
            final(self).wf(),
            final(self)@ == old(self)@.update(idx as int, v),
    {
        self.counts.set(idx, v);
    }

    /// Add one copy of a tile.
    pub fn add(&mut self, t: Tile)
        requires
            old(self).wf(),
            tile_wf(t),
            old(self)@[tile_index_spec(t)] < 255,
        ensures
            final(self).wf(),
            final(self)@ == old(self)@.update(tile_index_spec(t), (old(self)@[tile_index_spec(t)] + 1) as u8),
    {
        let idx = tile_to_index(t);
        let c = self.counts[idx];
        self.counts.set(idx, c + 1);
    }

    /// Total number of tiles in the multiset.
    pub fn total(&self) -> (r: u32)
        requires
            self.wf(),
        ensures
            r as int == sum_counts(self@, 34),
    {
        let mut sum: u32 = 0;
        let mut i: usize = 0;
        while i < 34
            invariant
                self.wf(),
                i <= 34,
                sum as int == sum_counts(self@, i as int),
                sum <= i * 255,
            decreases 34 - i,
        {
            sum = sum + self.counts[i] as u32;
            i = i + 1;
        }
        sum
    }

    /// Number of distinct tile kinds present.
    pub fn distinct(&self) -> (r: u32)
        requires
            self.wf(),
        ensures
            r as int == distinct_counts(self@, 34),
    {
        let mut n: u32 = 0;
        let mut i: usize = 0;
        while i < 34
            invariant
                self.wf(),
                i <= 34,
                n as int == distinct_counts(self@, i as int),
                n <= i,
            decreases 34 - i,
        {
            if self.counts[i] > 0 {
                n = n + 1;
            }
            i = i + 1;
        }
        n
    }
}

/// Sum of the first `n` counts.
pub open spec fn sum_counts(c: Seq<u8>, n: int) -> int
    decreases n,
{
    if n <= 0 {
        0
    } else {
        sum_counts(c, n - 1) + c[n - 1]
    }
}

/// How many of the first `n` counts are positive.
pub open spec fn distinct_counts(c: Seq<u8>, n: int) -> int
    decreases n,
{
    if n <= 0 {
        0
    } else {
        distinct_counts(c, n - 1) + if c[n - 1] > 0 {
            1int
        } else {
            0int
        }
    }
}

} // verus!
