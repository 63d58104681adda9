use vstd::prelude::*;

use crate::hand::{meld_occ, meld_wf, KanType, Meld};
use crate::tile::{
    lemma_occ_bound, lemma_occ_push, occ, tile_index_spec, tile_wf, Honor, Suit, Tile, TileCounts,
};

verus! {

broadcast use vstd::seq_lib::lemma_seq_contains_after_push;

/// A called group as written in the hand notation: the meld itself and the
/// tiles that spell it.
#[derive(Debug, Clone, PartialEq, Eq)]
pub struct CalledMeld {
    pub meld: Meld,
    pub tiles: Vec<Tile>,
}

/// A called meld is well formed when its meld is, and its tile list spells
/// exactly the meld's tiles.
pub open spec fn called_meld_wf(cm: CalledMeld) -> bool {
    meld_wf(cm.meld) && cm.tiles@.len() <= 4
    && (forall|k: int| 0 <= k < cm.tiles@.len() ==> tile_wf(#[trigger] cm.tiles@[k]))
    && forall|j: int| 0 <= j < 34 ==> #[trigger] occ(cm.tiles@, j) == meld_occ(cm.meld, j)
}

/// A parsed hand: the loose tiles, the red-five count, and the called melds.
#[derive(Debug, Clone)]
pub struct ParsedHand {
    /// Tiles held in hand, outside any called meld.
    pub tiles: Vec<Tile>,
    /// Number of red fives seen anywhere in the notation.
    pub aka_count: u8,
    /// Called quads, triplets and sequences.
    pub called_melds: Vec<CalledMeld>,
}

pub open spec fn parsed_hand_wf(p: ParsedHand) -> bool {
    (forall|k: int| 0 <= k < p.tiles@.len() ==> tile_wf(#[trigger] p.tiles@[k]))
    && (forall|k: int| 0 <= k < p.called_melds@.len()
        ==> called_meld_wf(#[trigger] p.called_melds@[k]))
}

/// The characters of a string, in order.
fn chars_of(s: &str) -> (r: Vec<char>)
    ensures
        r@ == s@,
{
    let len = s.unicode_len();
    let mut v: Vec<char> = Vec::new();
    let mut i: usize = 0;
    while i < len
        invariant
            len == s@.len(),
            i <= len,
            v@ == s@.take(i as int),
        decreases len - i,
    {
        v.push(s.get_char(i));
        proof {
            assert(v@ =~= s@.take(i as int + 1));
        }
        i = i + 1;
    }
    proof {
        assert(v@ =~= s@);
    }
    v
}

/// The honor named by one or two letters at `pos`: single letters for the
/// winds, green and red, and the two-letter "wh" for White, which is
/// preferred over reading a lone "w" as West.
fn try_parse_honor_letter(chars: &Vec<char>, pos: usize) -> (r: Option<(Honor, usize)>)
    ensures
        match r {
            Some((h, used)) => 1 <= used <= 2 && pos + used <= chars@.len(),
            None => true,
        },
{
    if pos >= chars.len() {
        return None;
    }
    let ch = lower(chars[pos]);
    if ch == 'w' && pos + 1 < chars.len() && lower(chars[pos + 1]) == 'h' {
        return Some((Honor::White, 2));
    }
    match ch {
        'e' => Some((Honor::East, 1)),
        's' => Some((Honor::South, 1)),
        'w' => Some((Honor::West, 1)),
        'n' => Some((Honor::North, 1)),
        'g' => Some((Honor::Green, 1)),
        'r' => Some((Honor::Red, 1)),
        _ => None,
    }
}

/// The lower-case form of an upper-case ASCII letter used by the notation.
fn lower(c: char) -> char {
    match c {
        'E' => 'e',
        'S' => 's',
        'W' => 'w',
        'N' => 'n',
        'G' => 'g',
        'R' => 'r',
        'H' => 'h',
        'A' => 'a',
        'B' => 'b',
        'C' => 'c',
        'D' => 'd',
        'F' => 'f',
        'I' => 'i',
        'J' => 'j',
        'K' => 'k',
        'L' => 'l',
        'M' => 'm',
        'O' => 'o',
        'P' => 'p',
        'Q' => 'q',
        'T' => 't',
        'U' => 'u',
        'V' => 'v',
        'X' => 'x',
        'Y' => 'y',
        'Z' => 'z',
        other => other,
    }
}

/// The honor written with digit `n` in the `z` notation.
fn honor_of_digit(n: u8) -> (r: Option<Honor>)
    ensures
        r is Some <==> 1 <= n <= 7,
{
    match n {
        1 => Some(Honor::East),
        2 => Some(Honor::South),
        3 => Some(Honor::West),
        4 => Some(Honor::North),
        5 => Some(Honor::White),
        6 => Some(Honor::Green),
        7 => Some(Honor::Red),
        _ => None,
    }
}

/// The digit value of an ASCII digit character.
fn digit_of(c: char) -> (r: Option<u8>)
    ensures
        match r {
            Some(d) => d <= 9,
            None => true,
        },
{
    match c {
        '0' => Some(0),
        '1' => Some(1),
        '2' => Some(2),
        '3' => Some(3),
        '4' => Some(4),
        '5' => Some(5),
        '6' => Some(6),
        '7' => Some(7),
        '8' => Some(8),
        '9' => Some(9),
        _ => None,
    }
}

/// Parse the inside of a bracketed called group: either all honor letters,
/// or digits followed by a suit letter. Three identical tiles make a
/// triplet, three consecutive suited tiles a sequence, four identical tiles
/// a quad whose openness follows the bracket kind.
#[verifier::loop_isolation(false)]
fn parse_meld(chars: &Vec<char>, start: usize, end: usize, is_closed: bool) -> (r: Result<
    (Meld, Vec<Tile>, u8),
    String,
>)
    requires
        start <= end <= chars@.len(),
        // the red-five counter is a u32
        end <= 0xffff_ffff,
    ensures
        match r {
            Ok((m, tiles, aka)) => meld_wf(m) && tiles@.len() <= 4
                && (forall|k: int| 0 <= k < tiles@.len() ==> tile_wf(#[trigger] tiles@[k]))
                && (forall|j: int| 0 <= j < 34 ==> #[trigger] occ(tiles@, j) == meld_occ(m, j))
                && aka as int <= end - start,
            Err(_) => true,
        },
{
    if end == start {
        return Err(String::from_str("empty called group"));
    }

    // honor letter notation first, e.g. three letters for a wind triplet
    let mut honors: Vec<Honor> = Vec::new();
    let mut i = start;
    let mut all_letters = true;
    while i < end && all_letters
        invariant
            start <= i <= end <= chars@.len(),
            honors@.len() <= i - start,
        decreases end - i + if all_letters {
            1int
        } else {
            0int
        },
    {
        match try_parse_honor_letter(chars, i) {
            Some((h, used)) => {
                if used > end - i {
                    all_letters = false;
                } else {
                    honors.push(h);
                    i = i + used;
                }
            }
            None => {
                all_letters = false;
            }
        }
    }
    if all_letters && i == end && honors.len() > 0 {
        if honors.len() == 4 {
            let first = honors[0];
            if !(honors[1] == first && honors[2] == first && honors[3] == first) {
                return Err(String::from_str("a quad needs four identical tiles"));
            }
            let kan_type = if is_closed {
                KanType::Closed
            } else {
                KanType::Open
            };
            let t = Tile::Honor(first);
            let m = Meld::Kan(t, kan_type);
            let tiles = four_of(t);
            return Ok((m, tiles, 0));
        }
        if honors.len() == 3 {
            let first = honors[0];
            if !(honors[1] == first && honors[2] == first) {
                return Err(String::from_str("honors form no sequences"));
            }
            let t = Tile::Honor(first);
            let m = if is_closed {
                Meld::Koutsu(t, false)
            } else {
                Meld::Koutsu(t, true)
            };
            let tiles = three_of(t);
            return Ok((m, tiles, 0));
        }
        return Err(String::from_str("a called group holds three or four tiles"));
    }

    // numeric notation: digits then one suit letter
    let suit_char = lower(chars[end - 1]);
    let suit: Option<Suit> = match suit_char {
        'm' => Some(Suit::Man),
        'p' => Some(Suit::Pin),
        's' => Some(Suit::Sou),
        'z' => None,
        _ => {
            return Err(String::from_str("a called group ends in its suit letter"));
        }
    };
    let mut values: Vec<u8> = Vec::new();
    let mut reds: u32 = 0;
    let mut q = start;
    while q < end - 1
        invariant
            start <= q <= end - 1,
            end <= chars@.len(),
            values@.len() == q - start,
            reds as int <= values@.len(),
            forall|k: int| 0 <= k < values@.len() ==> 1 <= #[trigger] values@[k] <= 9,
        decreases end - 1 - q,
    {
        match digit_of(chars[q]) {
            Some(d) => {
                if d == 0 {
                    if suit.is_none() {
                        return Err(String::from_str("honors have no red five"));
                    }
                    values.push(5);
                    reds = reds + 1;
                } else {
                    values.push(d);
                }
            }
            None => {
                return Err(String::from_str("a called group holds digits and a suit letter"));
            }
        }
        q = q + 1;
    }
    if values.len() == 4 {
        let v = values[0];
        if !(values[1] == v && values[2] == v && values[3] == v) {
            return Err(String::from_str("a quad needs four identical tiles"));
        }
        let t = tile_of(suit, v);
        match t {
            Some(t) => {
                let kan_type = if is_closed {
                    KanType::Closed
                } else {
                    KanType::Open
                };
                Ok((Meld::Kan(t, kan_type), four_of(t), reds as u8))
            }
            None => Err(String::from_str("no honor carries that number")),
        }
    } else if values.len() == 3 {
        let v0 = values[0];
        let v1 = values[1];
        let v2 = values[2];
        if v1 == v0 && v2 == v0 {
            let t = tile_of(suit, v0);
            match t {
                Some(t) => {
                    let m = if is_closed {
                        Meld::Koutsu(t, false)
                    } else {
                        Meld::Koutsu(t, true)
                    };
                    Ok((m, three_of(t), reds as u8))
                }
                None => Err(String::from_str("no honor carries that number")),
            }
        } else if let Some(st) = suit {
            // a sequence: the three values must be consecutive in some order
            let lo = if v0 <= v1 && v0 <= v2 {
                v0
            } else if v1 <= v2 {
                v1
            } else {
                v2
            };
            let hi = if v0 >= v1 && v0 >= v2 {
                v0
            } else if v1 >= v2 {
                v1
            } else {
                v2
            };
            let mid = ((v0 as u16 + v1 as u16 + v2 as u16) - lo as u16 - hi as u16) as u8;
            if !(mid == lo + 1 && hi as u16 == lo as u16 + 2) {
                return Err(String::from_str("a called sequence needs consecutive tiles"));
            }
            let m = if is_closed {
                Meld::Shuntsu(Tile::Suited { suit: st, value: lo }, false)
            } else {
                Meld::Shuntsu(Tile::Suited { suit: st, value: lo }, true)
            };
            let mut tiles: Vec<Tile> = Vec::new();
            tiles.push(Tile::Suited { suit: st, value: v0 });
            tiles.push(Tile::Suited { suit: st, value: v1 });
            tiles.push(Tile::Suited { suit: st, value: v2 });
            proof {
                assert forall|j: int| 0 <= j < 34 implies #[trigger] occ(tiles@, j)
                    == meld_occ(m, j) by {
                    let e = Seq::<Tile>::empty();
                    lemma_occ_push(e, tiles@[0], j);
                    lemma_occ_push(e.push(tiles@[0]), tiles@[1], j);
                    lemma_occ_push(e.push(tiles@[0]).push(tiles@[1]), tiles@[2], j);
                    assert(tiles@ =~= e.push(tiles@[0]).push(tiles@[1]).push(tiles@[2]));
                }
            }
            Ok((m, tiles, reds as u8))
        } else {
            Err(String::from_str("honors form no sequences"))
        }
    } else {
        Err(String::from_str("a called group holds three or four tiles"))
    }
}

/// A suited tile from its parts, or the honor a `z`-digit names.
fn tile_of(suit: Option<Suit>, v: u8) -> (r: Option<Tile>)
    requires
        1 <= v <= 9,
    ensures
        match r {
            Some(t) => tile_wf(t),
            None => suit is None && v > 7,
        },
{
    match suit {
        Some(s) => Some(Tile::Suited { suit: s, value: v }),
        None => match honor_of_digit(v) {
            Some(h) => Some(Tile::Honor(h)),
            None => None,
        },
    }
}

/// Three copies of a tile.
fn three_of(t: Tile) -> (r: Vec<Tile>)
    requires
        tile_wf(t),
    ensures
        r@.len() == 3,
        forall|j: int| 0 <= j < 34 ==> #[trigger] occ(r@, j) == if tile_index_spec(t) == j {
            3int
        } else {
            0int
        },
        forall|k: int| 0 <= k < 3 ==> #[trigger] r@[k] == t,
{
    let mut v: Vec<Tile> = Vec::new();
    v.push(t);
    v.push(t);
    v.push(t);
    proof {
        let e = Seq::<Tile>::empty();
        assert forall|j: int| 0 <= j < 34 implies #[trigger] occ(v@, j)
            == if tile_index_spec(t) == j {
                3int
            } else {
                0int
            } by {
            lemma_occ_push(e, t, j);
            lemma_occ_push(e.push(t), t, j);
            lemma_occ_push(e.push(t).push(t), t, j);
            assert(v@ =~= e.push(t).push(t).push(t));
        }
    }
    v
}

/// Four copies of a tile.
fn four_of(t: Tile) -> (r: Vec<Tile>)
    requires
        tile_wf(t),
    ensures
        r@.len() == 4,
        forall|j: int| 0 <= j < 34 ==> #[trigger] occ(r@, j) == if tile_index_spec(t) == j {
            4int
        } else {
            0int
        },
        forall|k: int| 0 <= k < 4 ==> #[trigger] r@[k] == t,
{
    let mut v: Vec<Tile> = Vec::new();
    v.push(t);
    v.push(t);
    v.push(t);
    v.push(t);
    proof {
        let e = Seq::<Tile>::empty();
        assert forall|j: int| 0 <= j < 34 implies #[trigger] occ(v@, j)
            == if tile_index_spec(t) == j {
                4int
            } else {
                0int
            } by {
            lemma_occ_push(e, t, j);
            lemma_occ_push(e.push(t), t, j);
            lemma_occ_push(e.push(t).push(t), t, j);
            lemma_occ_push(e.push(t).push(t).push(t), t, j);
            assert(v@ =~= e.push(t).push(t).push(t).push(t));
        }
    }
    v
}

/// Parse hand notation, tracking red fives and called melds.
///
/// Digit runs take the following suit letter; `z` digits name honors; `0`
/// is the red five of its suit; honors may also be written as letters with
/// the two-letter White preferred over West; brackets hold called melds,
/// square ones closed; whitespace is skipped.
#[verifier::loop_isolation(false)]
pub fn parse_hand_with_aka(input: &str) -> (r: Result<ParsedHand, String>)
    requires
        // the red-five counter is a u32, and each count needs a character
        input@.len() <= 0xffff_ffff,
    ensures
        match r {
            Ok(p) => parsed_hand_wf(p) && p.tiles@.len() <= input@.len(),
            Err(_) => true,
        },
{
    let chars = chars_of(input);
    let mut tiles: Vec<Tile> = Vec::new();
    let mut aka_count: u32 = 0;
    let mut called_melds: Vec<CalledMeld> = Vec::new();
    let mut pending: Vec<(u8, bool)> = Vec::new();
    let mut i: usize = 0;

    while i < chars.len()
        invariant
            chars@.len() <= 0xffff_ffff,
            i <= chars@.len(),
            tiles@.len() + pending@.len() <= i,
            aka_count <= i,
            forall|k: int| 0 <= k < tiles@.len() ==> tile_wf(#[trigger] tiles@[k]),
            forall|k: int| 0 <= k < pending@.len() ==> 1 <= (#[trigger] pending@[k]).0 <= 9,
            forall|k: int| 0 <= k < called_melds@.len()
                ==> called_meld_wf(#[trigger] called_melds@[k]),
        decreases chars@.len() - i,
    {
        let ch = chars[i];
        if ch == '[' || ch == '(' {
            let is_closed = ch == '[';
            let close_char = if is_closed {
                ']'
            } else {
                ')'
            };
            let meld_start = i + 1;
            let mut meld_end = meld_start;
            while meld_end < chars.len() && chars[meld_end] != close_char
                invariant
                    meld_start <= meld_end <= chars@.len(),
                decreases chars@.len() - meld_end,
            {
                meld_end = meld_end + 1;
            }
            if meld_end >= chars.len() {
                return Err(String::from_str("a called group is missing its closing bracket"));
            }
            match parse_meld(&chars, meld_start, meld_end, is_closed) {
                Ok((meld, meld_tiles, meld_aka)) => {
                    called_melds.push(CalledMeld { meld, tiles: meld_tiles });
                    aka_count = aka_count + meld_aka as u32;
                }
                Err(e) => {
                    return Err(e);
                }
            }
            i = meld_end + 1;
            continue;
        }
        if ch == ']' || ch == ')' {
            return Err(String::from_str("a closing bracket stands alone"));
        }
        if ch == ' ' || ch == '\t' || ch == '\n' {
            i = i + 1;
            continue;
        }
        match digit_of(ch) {
            Some(d) => {
                if d == 0 {
                    // a red five; it is rejected later if an honor claims it
                    pending.push((5, true));
                    aka_count = aka_count + 1;
                } else {
                    pending.push((d, false));
                }
                i = i + 1;
                continue;
            }
            None => {}
        }
        let is_suit_letter = (ch == 'm') || (ch == 'p' && pending.len() > 0)
            || (ch == 's' && pending.len() > 0) || (ch == 'z');
        if is_suit_letter {
            let ghost pending_len = pending@.len();
            let mut q: usize = 0;
            while q < pending.len()
                invariant
                    q <= pending@.len(),
                    pending@.len() == pending_len,
                    tiles@.len() <= i - pending_len + q,
                    i <= chars@.len(),
                    aka_count <= i,
                    forall|k: int| 0 <= k < tiles@.len() ==> tile_wf(#[trigger] tiles@[k]),
                    forall|k: int| 0 <= k < pending@.len()
                        ==> 1 <= (#[trigger] pending@[k]).0 <= 9,
                decreases pending@.len() - q,
            {
                let (n, is_red) = pending[q];
                if ch == 'z' {
                    if is_red {
                        return Err(String::from_str("honors have no red five"));
                    }
                    match honor_of_digit(n) {
                        Some(h) => {
                            tiles.push(Tile::Honor(h));
                        }
                        None => {
                            return Err(String::from_str("no honor carries that number"));
                        }
                    }
                } else {
                    let suit = if ch == 'm' {
                        Suit::Man
                    } else if ch == 'p' {
                        Suit::Pin
                    } else {
                        Suit::Sou
                    };
                    tiles.push(Tile::Suited { suit, value: n });
                }
                q = q + 1;
            }
            pending = Vec::new();
            i = i + 1;
            continue;
        }
        // letters for honors; pending digits must be closed by a suit first
        if pending.len() > 0 {
            return Err(String::from_str("digits need their suit letter"));
        }
        match try_parse_honor_letter(&chars, i) {
            Some((h, used)) => {
                tiles.push(Tile::Honor(h));
                i = i + used;
            }
            None => {
                return Err(String::from_str("the notation holds an unexpected character"));
            }
        }
    }
    if pending.len() > 0 {
        return Err(String::from_str("trailing digits have no suit letter"));
    }
    if aka_count > 255 {
        return Err(String::from_str("too many red fives"));
    }
    Ok(ParsedHand { tiles, aka_count: aka_count as u8, called_melds })
}

/// Parse hand notation into one flat tile list, called melds included.
pub fn parse_hand(input: &str) -> (r: Result<Vec<Tile>, String>)
    requires
        // the red-five counter is a u32, and each count needs a character
        input@.len() <= 0xffff_ffff,
    ensures
        match r {
            Ok(tiles) => forall|k: int| 0 <= k < tiles@.len()
                ==> tile_wf(#[trigger] tiles@[k]),
            Err(_) => true,
        },
{
    let parsed = match parse_hand_with_aka(input) {
        Ok(p) => p,
        Err(e) => {
            return Err(e);
        }
    };
    let mut all_tiles = parsed.tiles;
    let mut k: usize = 0;
    while k < parsed.called_melds.len()
        invariant
            forall|x: int| 0 <= x < all_tiles@.len() ==> tile_wf(#[trigger] all_tiles@[x]),
            forall|x: int| 0 <= x < parsed.called_melds@.len()
                ==> called_meld_wf(#[trigger] parsed.called_melds@[x]),
            k <= parsed.called_melds@.len(),
        decreases parsed.called_melds@.len() - k,
    {
        let cm = &parsed.called_melds[k];
        let mut t: usize = 0;
        while t < cm.tiles.len()
            invariant
                forall|x: int| 0 <= x < all_tiles@.len() ==> tile_wf(#[trigger] all_tiles@[x]),
                called_meld_wf(parsed.called_melds@[k as int]),
                cm == parsed.called_melds@[k as int],
                t <= cm.tiles@.len(),
            decreases cm.tiles@.len() - t,
        {
            all_tiles.push(cm.tiles[t]);
            t = t + 1;
        }
        k = k + 1;
    }
    Ok(all_tiles)
}

/// Count each tile of the list into a dense multiset.
pub fn to_counts(tiles: &Vec<Tile>) -> (r: TileCounts)
    requires
        forall|k: int| 0 <= k < tiles@.len() ==> tile_wf(#[trigger] tiles@[k]),
        tiles@.len() <= 255,
    ensures
        r.wf(),
        r.matches(tiles@),
{
    let mut counts = TileCounts::new();
    let mut i: usize = 0;
    while i < tiles.len()
        invariant
            counts.wf(),
            i <= tiles@.len(),
            tiles@.len() <= 255,
            forall|k: int| 0 <= k < tiles@.len() ==> tile_wf(#[trigger] tiles@[k]),
            forall|j: int| 0 <= j < 34 ==> #[trigger] counts@[j] as int == occ(
                tiles@.take(i as int), j),
        decreases tiles@.len() - i,
    {
        let t = tiles[i];
        proof {
            crate::tile::lemma_tile_index_bijective(t);
            lemma_occ_bound(tiles@.take(i as int), tile_index_spec(t));
        }
        counts.add(t);
        proof {
            assert forall|j: int| 0 <= j < 34 implies #[trigger] counts@[j] as int == occ(
                tiles@.take(i as int + 1), j) by {
                assert(tiles@.take(i as int + 1).drop_last() =~= tiles@.take(i as int));
                assert(tiles@.take(i as int + 1).last() == tiles@[i as int]);
            }
        }
        i = i + 1;
    }
    proof {
        assert(tiles@.take(tiles@.len() as int) =~= tiles@);
    }
    counts
}

/// Accept a plain hand for scoring: exactly fourteen tiles, none held more
/// than four times.
pub fn validate_hand(tiles: &Vec<Tile>) -> (r: Result<(), String>)
    requires
        forall|k: int| 0 <= k < tiles@.len() ==> tile_wf(#[trigger] tiles@[k]),
        tiles@.len() <= 255,
    ensures
        r is Ok <==> (tiles@.len() == 14 && forall|j: int| 0 <= j < 34 ==> #[trigger] occ(
            tiles@, j) <= 4),
        // the two rejections are told apart: a wrong tile total first,
        // then an overfull tile
        tiles@.len() != 14 ==> (r matches Err(e)
            && e@ == "a hand holds fourteen tiles"@),
        tiles@.len() == 14 && r is Err ==> (r matches Err(e)
            && e@ == "no tile exists in more than four copies"@),
{
    if tiles.len() != 14 {
        proof {
            assert(tiles@.len() != 14);
        }
        return Err(String::from_str("a hand holds fourteen tiles"));
    }
    let counts = to_counts(tiles);
    let mut j: usize = 0;
    while j < 34
        invariant
            counts.wf(),
            counts.matches(tiles@),
            tiles@.len() == 14,
            j <= 34,
            forall|jj: int| 0 <= jj < j ==> #[trigger] occ(tiles@, jj) <= 4,
        decreases 34 - j,
    {
        if counts.get_idx(j) > 4 {
            return Err(String::from_str("no tile exists in more than four copies"));
        }
        j = j + 1;
    }
    Ok(())
}

/// How many of the called melds are quads.
pub open spec fn called_kan_count(cms: Seq<CalledMeld>) -> int
    decreases cms.len(),
{
    if cms.len() == 0 {
        0
    } else {
        called_kan_count(cms.drop_last()) + if cms.last().meld is Kan {
            1int
        } else {
            0int
        }
    }
}

/// How many tiles the called melds spell in all.
pub open spec fn called_tile_total(cms: Seq<CalledMeld>) -> int
    decreases cms.len(),
{
    if cms.len() == 0 {
        0
    } else {
        called_tile_total(cms.drop_last()) + cms.last().tiles@.len()
    }
}

/// The combined count of tile `j` over hand tiles and called melds.
pub open spec fn combined_occ(p: ParsedHand, j: int) -> int {
    occ(p.tiles@, j) + called_melds_occ(p.called_melds@, j)
}

pub open spec fn called_melds_occ(cms: Seq<CalledMeld>, j: int) -> int
    decreases cms.len(),
{
    if cms.len() == 0 {
        0
    } else {
        called_melds_occ(cms.drop_last(), j) + occ(cms.last().tiles@, j)
    }
}

pub proof fn lemma_called_melds_occ_bound(cms: Seq<CalledMeld>, j: int)
    requires
        forall|k: int| 0 <= k < cms.len() ==> (#[trigger] cms[k]).tiles@.len() <= 4,
    ensures
        0 <= called_melds_occ(cms, j) <= 4 * cms.len(),
    decreases cms.len(),
{
    if cms.len() > 0 {
        lemma_called_melds_occ_bound(cms.drop_last(), j);
        lemma_occ_bound(cms.last().tiles@, j);
    }
}

/// Accept a hand with called melds: each quad brings one extra tile, so the
/// expected total is fourteen plus the number of quads, and no tile may
/// exist in more than four copies across hand and melds together.
#[verifier::loop_isolation(false)]
pub fn validate_hand_with_melds(parsed: &ParsedHand) -> (r: Result<(), String>)
    requires
        parsed_hand_wf(*parsed),
        parsed.tiles@.len() + 4 * parsed.called_melds@.len() <= 255,
    ensures
        r is Ok <==> (parsed.tiles@.len() + called_tile_total(parsed.called_melds@)
            == 14 + called_kan_count(parsed.called_melds@) && forall|j: int| 0 <= j < 34
            ==> #[trigger] combined_occ(*parsed, j) <= 4),
        // the two rejections are told apart: a wrong tile total first,
        // then an overfull tile
        parsed.tiles@.len() + called_tile_total(parsed.called_melds@)
            != 14 + called_kan_count(parsed.called_melds@) ==> (r matches Err(e)
            && e@ == "the tile total does not fit the called quads"@),
        parsed.tiles@.len() + called_tile_total(parsed.called_melds@)
            == 14 + called_kan_count(parsed.called_melds@) && r is Err ==> (r matches Err(e)
            && e@ == "no tile exists in more than four copies"@),
{
    let mut kan_count: usize = 0;
    let mut total_tiles: usize = parsed.tiles.len();
    let mut counts = to_counts(&parsed.tiles);
    let mut k: usize = 0;
    while k < parsed.called_melds.len()
        invariant
            counts.wf(),
            k <= parsed.called_melds@.len(),
            kan_count as int == called_kan_count(parsed.called_melds@.take(k as int)),
            kan_count <= k,
            total_tiles as int == parsed.tiles@.len() + called_tile_total(
                parsed.called_melds@.take(k as int)),
            total_tiles <= parsed.tiles@.len() + 4 * k,
            forall|j: int| 0 <= j < 34 ==> #[trigger] counts@[j] as int == occ(parsed.tiles@, j)
                + called_melds_occ(parsed.called_melds@.take(k as int), j),
        decreases parsed.called_melds@.len() - k,
    {
        let cm = &parsed.called_melds[k];
        if matches!(cm.meld, Meld::Kan(_, _)) {
            kan_count = kan_count + 1;
        }
        total_tiles = total_tiles + cm.tiles.len();
        let mut t: usize = 0;
        while t < cm.tiles.len()
            invariant
                counts.wf(),
                cm == parsed.called_melds@[k as int],
                called_meld_wf(*cm),
                t <= cm.tiles@.len(),
                forall|j: int| 0 <= j < 34 ==> #[trigger] counts@[j] as int == occ(
                    parsed.tiles@, j) + called_melds_occ(parsed.called_melds@.take(k as int), j)
                    + occ(cm.tiles@.take(t as int), j),
            decreases cm.tiles@.len() - t,
        {
            let tile = cm.tiles[t];
            proof {
                crate::tile::lemma_tile_index_bijective(cm.tiles@[t as int]);
                let jt = tile_index_spec(cm.tiles@[t as int]);
                lemma_occ_bound(parsed.tiles@, jt);
                lemma_occ_bound(cm.tiles@.take(t as int), jt);
                assert(parsed.called_melds@.take(k as int).len() == k as int);
                assert forall|kk: int| 0 <= kk < k implies
                    (#[trigger] parsed.called_melds@.take(k as int)[kk]).tiles@.len() <= 4 by {
                    assert(called_meld_wf(parsed.called_melds@[kk]));
                    assert(parsed.called_melds@.take(k as int)[kk]
                        == parsed.called_melds@[kk]);
                }
                lemma_called_melds_occ_bound(parsed.called_melds@.take(k as int), jt);
            }
            counts.add(tile);
            proof {
                assert(cm.tiles@.take(t as int + 1).drop_last() =~= cm.tiles@.take(t as int));
                assert(cm.tiles@.take(t as int + 1).last() == cm.tiles@[t as int]);
            }
            t = t + 1;
        }
        proof {
            assert(cm.tiles@.take(cm.tiles@.len() as int) =~= cm.tiles@);
            assert(parsed.called_melds@.take(k as int + 1).drop_last() =~= parsed.called_melds@.
                take(k as int));
            assert(parsed.called_melds@.take(k as int + 1).last()
                == parsed.called_melds@[k as int]);
        }
        k = k + 1;
    }
    proof {
        assert(parsed.called_melds@.take(parsed.called_melds@.len() as int)
            =~= parsed.called_melds@);
    }
    let expected = 14 + kan_count;
    if total_tiles != expected {
        proof {
            assert(parsed.tiles@.len() + called_tile_total(parsed.called_melds@)
                != 14 + called_kan_count(parsed.called_melds@));
        }
        return Err(String::from_str("the tile total does not fit the called quads"));
    }
    let mut j: usize = 0;
    while j < 34
        invariant
            counts.wf(),
            j <= 34,
            forall|jj: int| 0 <= jj < 34 ==> #[trigger] counts@[jj] as int == occ(
                parsed.tiles@, jj) + called_melds_occ(parsed.called_melds@, jj),
            forall|jj: int| 0 <= jj < j ==> #[trigger] combined_occ(*parsed, jj) <= 4,
        decreases 34 - j,
    {
        if counts.get_idx(j) > 4 {
            proof {
                assert(combined_occ(*parsed, j as int) > 4);
            }
            return Err(String::from_str("no tile exists in more than four copies"));
        }
        j = j + 1;
    }
    proof {
        assert forall|j: int| 0 <= j < 34 implies #[trigger] combined_occ(*parsed, j) <= 4 by {
        }
    }
    Ok(())
}

/// Do the characters spell exactly this word?
fn is_word(cs: &Vec<char>, w: &str) -> (r: bool)
    ensures
        r == (cs@ == w@),
{
    let wc = chars_of(w);
    if cs.len() != wc.len() {
        return false;
    }
    let mut i: usize = 0;
    while i < cs.len()
        invariant
            cs@.len() == wc@.len(),
            wc@ == w@,
            i <= cs@.len(),
            forall|k: int| 0 <= k < i ==> cs@[k] == wc@[k],
        decreases cs@.len() - i,
    {
        if cs[i] != wc[i] {
            return false;
        }
        i = i + 1;
    }
    proof {
        assert(cs@ =~= w@);
    }
    true
}

/// Lower-case characters of a string with surrounding spaces dropped.
fn trimmed_lower_chars(s: &str) -> (r: Vec<char>)
{
    let cs = chars_of(s);
    let mut from: usize = 0;
    while from < cs.len() && cs[from] == ' '
        invariant
            from <= cs@.len(),
        decreases cs@.len() - from,
    {
        from = from + 1;
    }
    let mut to: usize = cs.len();
    while to > from && cs[to - 1] == ' '
        invariant
            from <= to <= cs@.len(),
        decreases to,
    {
        to = to - 1;
    }
    let mut out: Vec<char> = Vec::new();
    let mut i = from;
    while i < to
        invariant
            from <= i <= to <= cs@.len(),
        decreases to - i,
    {
        out.push(lower(cs[i]));
        i = i + 1;
    }
    out
}

/// Parse one tile: letter or word notation for honors, or one digit and a
/// suit letter, with `0` meaning the red five.
pub fn parse_single_tile(s: &str) -> (r: Result<Tile, String>)
    ensures
        match r {
            Ok(t) => tile_wf(t),
            Err(_) => true,
        },
{
    let cs = trimmed_lower_chars(s);
    if is_word(&cs, "e") || is_word(&cs, "east") {
        return Ok(Tile::Honor(Honor::East));
    }
    if is_word(&cs, "s") || is_word(&cs, "south") {
        return Ok(Tile::Honor(Honor::South));
    }
    if is_word(&cs, "w") || is_word(&cs, "west") {
        return Ok(Tile::Honor(Honor::West));
    }
    if is_word(&cs, "n") || is_word(&cs, "north") {
        return Ok(Tile::Honor(Honor::North));
    }
    if is_word(&cs, "wh") || is_word(&cs, "white") || is_word(&cs, "haku") {
        return Ok(Tile::Honor(Honor::White));
    }
    if is_word(&cs, "g") || is_word(&cs, "green") || is_word(&cs, "hatsu") {
        return Ok(Tile::Honor(Honor::Green));
    }
    if is_word(&cs, "r") || is_word(&cs, "red") || is_word(&cs, "chun") {
        return Ok(Tile::Honor(Honor::Red));
    }
    if cs.len() < 2 {
        return Err(String::from_str("the tile notation is too short"));
    }
    if cs.len() > 2 {
        return Err(String::from_str("expected a single tile"));
    }
    let value = match digit_of(cs[0]) {
        Some(d) => {
            if d == 0 {
                5
            } else {
                d
            }
        }
        None => {
            return Err(String::from_str("the tile value is no digit"));
        }
    };
    match cs[1] {
        'm' => Ok(Tile::Suited { suit: Suit::Man, value }),
        'p' => Ok(Tile::Suited { suit: Suit::Pin, value }),
        's' => Ok(Tile::Suited { suit: Suit::Sou, value }),
        'z' => match honor_of_digit(value) {
            Some(h) => Ok(Tile::Honor(h)),
            None => Err(String::from_str("no honor carries that number")),
        },
        _ => Err(String::from_str("the suit letter is unknown")),
    }
}

/// Parse a comma-separated tile list; each part may mix digit runs with a
/// suit letter and honor letters.
#[verifier::loop_isolation(false)]
pub fn parse_tile_list(s: &str) -> (r: Result<Vec<Tile>, String>)
    ensures
        match r {
            Ok(tiles) => forall|k: int| 0 <= k < tiles@.len()
                ==> tile_wf(#[trigger] tiles@[k]),
            Err(_) => true,
        },
{
    let cs = chars_of(s);
    let mut tiles: Vec<Tile> = Vec::new();
    let mut pos: usize = 0;
    while pos < cs.len()
        invariant
            pos <= cs@.len(),
            forall|k: int| 0 <= k < tiles@.len() ==> tile_wf(#[trigger] tiles@[k]),
        decreases cs@.len() - pos,
    {
        let ch = cs[pos];
        if ch == ',' || ch == ' ' {
            pos = pos + 1;
            continue;
        }
        match try_parse_honor_letter(&cs, pos) {
            Some((h, used)) => {
                tiles.push(Tile::Honor(h));
                pos = pos + used;
                continue;
            }
            None => {}
        }
        // a run of digits must be followed by its suit letter
        let digit_start = pos;
        let mut scan = pos;
        while scan < cs.len() && digit_of_exists(&cs, scan)
            invariant
                pos <= scan <= cs@.len(),
            decreases cs@.len() - scan,
        {
            scan = scan + 1;
        }
        if scan > digit_start && scan < cs.len() {
            let suit_char = lower(cs[scan]);
            let suit: Option<Suit> = match suit_char {
                'm' => Some(Suit::Man),
                'p' => Some(Suit::Pin),
                's' => Some(Suit::Sou),
                'z' => None,
                _ => {
                    return Err(String::from_str("digits need their suit letter"));
                }
            };
            let mut q = digit_start;
            while q < scan
                invariant
                    digit_start <= q <= scan < cs@.len(),
                    forall|k: int| 0 <= k < tiles@.len() ==> tile_wf(#[trigger] tiles@[k]),
                decreases scan - q,
            {
                let d = match digit_of(cs[q]) {
                    Some(d) => {
                        if d == 0 {
                            5
                        } else {
                            d
                        }
                    }
                    None => {
                        return Err(String::from_str("the tile value is no digit"));
                    }
                };
                match suit {
                    Some(st) => {
                        tiles.push(Tile::Suited { suit: st, value: d });
                    }
                    None => match honor_of_digit(d) {
                        Some(h) => {
                            tiles.push(Tile::Honor(h));
                        }
                        None => {
                            return Err(String::from_str("no honor carries that number"));
                        }
                    },
                }
                q = q + 1;
            }
            pos = scan + 1;
            continue;
        }
        if scan > digit_start {
            return Err(String::from_str("trailing digits have no suit letter"));
        }
        return Err(String::from_str("the notation holds an unexpected character"));
    }
    Ok(tiles)
}

/// Is the character at this position an ASCII digit?
fn digit_of_exists(cs: &Vec<char>, i: usize) -> (r: bool)
    requires
        i < cs@.len(),
{
    match digit_of(cs[i]) {
        Some(_) => true,
        None => false,
    }
}

/// Parse a wind name: a letter, a word, or its seat number.
pub fn parse_wind(s: &str) -> (r: Result<Honor, String>) {
    let cs = trimmed_lower_chars(s);
    if is_word(&cs, "e") || is_word(&cs, "east") || is_word(&cs, "1") {
        return Ok(Honor::East);
    }
    if is_word(&cs, "s") || is_word(&cs, "south") || is_word(&cs, "2") {
        return Ok(Honor::South);
    }
    if is_word(&cs, "w") || is_word(&cs, "west") || is_word(&cs, "3") {
        return Ok(Honor::West);
    }
    if is_word(&cs, "n") || is_word(&cs, "north") || is_word(&cs, "4") {
        return Ok(Honor::North);
    }
    Err(String::from_str("a wind is east, south, west or north"))
}

} // verus!
