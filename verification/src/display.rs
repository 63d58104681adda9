use vstd::prelude::*;

use crate::hand::{meld_wf, structure_wf, HandStructure, KanType, Meld};
use crate::parse::{called_meld_wf, parsed_hand_wf, ParsedHand};
use crate::tile::{kokushi_tiles, tile_wf, Honor, Suit, Tile};


verus! {


/// The mahjong glyph of a tile, with a trailing space for rendering.
pub fn tile_to_unicode(tile: &Tile) -> (r: String)
    requires
        tile_wf(*tile),
{
    let piece: &str = match tile {
        Tile::Suited { suit: Suit::Man, value } => match value {
                1 => "🀇 ",
                2 => "🀈 ",
                3 => "🀉 ",
                4 => "🀊 ",
                5 => "🀋 ",
                6 => "🀌 ",
                7 => "🀍 ",
                8 => "🀎 ",
                9 => "🀏 ",
                _ => "? ",
        },
        Tile::Suited { suit: Suit::Pin, value } => match value {
                1 => "🀙 ",
                2 => "🀚 ",
                3 => "🀛 ",
                4 => "🀜 ",
                5 => "🀝 ",
                6 => "🀞 ",
                7 => "🀟 ",
                8 => "🀠 ",
                9 => "🀡 ",
                _ => "? ",
        },
        Tile::Suited { suit: Suit::Sou, value } => match value {
                1 => "🀐 ",
                2 => "🀑 ",
                3 => "🀒 ",
                4 => "🀓 ",
                5 => "🀔 ",
                6 => "🀕 ",
                7 => "🀖 ",
                8 => "🀗 ",
                9 => "🀘 ",
                _ => "? ",
        },
        Tile::Honor(h) => match h {
            Honor::East => "🀀 ",
            Honor::South => "🀁 ",
            Honor::West => "🀂 ",
            Honor::North => "🀃 ",
            Honor::White => "🀆 ",
            Honor::Green => "🀅 ",
            Honor::Red => "🀄︎ ",
        },
    };
    String::from_str(piece)
}

/// The digit character of a suited tile value.
fn digit_str(value: u8) -> (r: &'static str) {
    match value {
        1 => "1",
        2 => "2",
        3 => "3",
        4 => "4",
        5 => "5",
        6 => "6",
        7 => "7",
        8 => "8",
        9 => "9",
        _ => "0",
    }
}

/// The suit letter of a suited tile.
fn suit_str(suit: Suit) -> (r: &'static str) {
    match suit {
        Suit::Man => "m",
        Suit::Pin => "p",
        Suit::Sou => "s",
    }
}

/// The honor digit used by the numeric notation.
fn honor_digit_str(h: Honor) -> (r: &'static str) {
    match h {
        Honor::East => "1",
        Honor::South => "2",
        Honor::West => "3",
        Honor::North => "4",
        Honor::White => "5",
        Honor::Green => "6",
        Honor::Red => "7",
    }
}

/// A short ASCII name of a tile: digit and suit letter, or an honor
/// abbreviation.
pub fn tile_to_ascii(tile: &Tile) -> (r: String)
    requires
        tile_wf(*tile),
{
    match tile {
        Tile::Suited { suit, value } => {
            let mut out = String::new();
            out.append(digit_str(*value));
            out.append(suit_str(*suit));
            out
        }
        Tile::Honor(h) => {
            let piece: &str = match h {
                Honor::East => "E",
                Honor::South => "S",
                Honor::West => "W",
                Honor::North => "N",
                Honor::White => "Wh",
                Honor::Green => "Gr",
                Honor::Red => "Rd",
            };
            String::from_str(piece)
        }
    }
}

/// The glyphs of a tile list.
pub fn tiles_to_unicode(tiles: &Vec<Tile>) -> (r: String)
    requires
        forall|k: int| 0 <= k < tiles@.len() ==> tile_wf(#[trigger] tiles@[k]),
{
    let mut out = String::new();
    let mut i: usize = 0;
    while i < tiles.len()
        invariant
            i <= tiles@.len(),
            forall|k: int| 0 <= k < tiles@.len() ==> tile_wf(#[trigger] tiles@[k]),
        decreases tiles@.len() - i,
    {
        let piece = tile_to_unicode(&tiles[i]);
        out.append(piece.as_str());
        i = i + 1;
    }
    out
}

/// A tile list in grouped numeric notation: each suit's digits are run
/// together before their suit letter, and honors close the string as
/// digits before a `z`.
pub fn tiles_to_ascii(tiles: &Vec<Tile>) -> (r: String)
    requires
        forall|k: int| 0 <= k < tiles@.len() ==> tile_wf(#[trigger] tiles@[k]),
{
    let mut result = String::new();
    let mut current_suit: Option<Suit> = None;
    let mut pending: Vec<u8> = Vec::new();
    let mut honors: Vec<Honor> = Vec::new();
    let mut i: usize = 0;
    while i < tiles.len()
        invariant
            i <= tiles@.len(),
            forall|k: int| 0 <= k < tiles@.len() ==> tile_wf(#[trigger] tiles@[k]),
            forall|k: int| 0 <= k < pending@.len() ==> 1 <= #[trigger] pending@[k] <= 9,
        decreases tiles@.len() - i,
    {
        match tiles[i] {
            Tile::Suited { suit, value } => {
                let same = match current_suit {
                    Some(s) => s == suit,
                    None => false,
                };
                if same {
                    pending.push(value);
                } else {
                    if let Some(s) = current_suit {
                        flush_run(&mut result, &pending, s);
                    }
                    pending = Vec::new();
                    pending.push(value);
                    current_suit = Some(suit);
                }
            }
            Tile::Honor(h) => {
                if let Some(s) = current_suit {
                    flush_run(&mut result, &pending, s);
                    pending = Vec::new();
                    current_suit = None;
                }
                honors.push(h);
            }
        }
        i = i + 1;
    }
    if let Some(s) = current_suit {
        flush_run(&mut result, &pending, s);
    }
    if honors.len() > 0 {
        let mut k: usize = 0;
        while k < honors.len()
            invariant
                k <= honors@.len(),
            decreases honors@.len() - k,
        {
            result.append(honor_digit_str(honors[k]));
            k = k + 1;
        }
        result.append("z");
    }
    result
}

/// Write a run of suited values and the suit letter.
fn flush_run(out: &mut String, values: &Vec<u8>, suit: Suit)
    requires
        forall|k: int| 0 <= k < values@.len() ==> 1 <= #[trigger] values@[k] <= 9,
{
    let mut v: usize = 0;
    while v < values.len()
        invariant
            v <= values@.len(),
            forall|k: int| 0 <= k < values@.len() ==> 1 <= #[trigger] values@[k] <= 9,
        decreases values@.len() - v,
    {
        out.append(digit_str(values[v]));
        v = v + 1;
    }
    out.append(suit_str(suit));
}

/// A parsed hand back in notation: the called groups in their brackets,
/// then the loose tiles.
pub fn format_hand_normalized(parsed: &ParsedHand) -> (r: String)
    requires
        parsed_hand_wf(*parsed),
{
    let mut result = String::new();
    let mut k: usize = 0;
    while k < parsed.called_melds.len()
        invariant
            k <= parsed.called_melds@.len(),
            parsed_hand_wf(*parsed),
        decreases parsed.called_melds@.len() - k,
    {
        let cm = &parsed.called_melds[k];
        let closed_kan = matches!(cm.meld, Meld::Kan(_, KanType::Closed));
        if closed_kan {
            result.append("[");
        } else {
            result.append("(");
        }
        proof {
            assert(called_meld_wf(parsed.called_melds@[k as int]));
        }
        let body = tiles_to_ascii(&cm.tiles);
        result.append(body.as_str());
        if closed_kan {
            result.append("]");
        } else {
            result.append(")");
        }
        k = k + 1;
    }
    let body = tiles_to_ascii(&parsed.tiles);
    result.append(body.as_str());
    result
}

/// One meld in bracketed numeric notation.
fn format_meld_normalized(meld: &Meld) -> (r: String)
    requires
        meld_wf(*meld),
{
    let mut out = String::new();
    out.append("[");
    match meld {
        Meld::Shuntsu(Tile::Suited { suit, value }, _) => {
            out.append(digit_str(*value));
            out.append(digit_str(*value + 1));
            out.append(digit_str(*value + 2));
            out.append(suit_str(*suit));
        }
        Meld::Shuntsu(Tile::Honor(_), _) => {
            out.append("???");
        }
        Meld::Koutsu(t, _) => {
            append_tile_notation(&mut out, t);
            append_tile_notation(&mut out, t);
            append_tile_notation(&mut out, t);
        }
        Meld::Kan(t, _) => {
            append_tile_notation(&mut out, t);
            append_tile_notation(&mut out, t);
            append_tile_notation(&mut out, t);
            append_tile_notation(&mut out, t);
        }
    }
    // a set's digits share one suit letter
    out.append("]");
    out
}

/// The digit of a tile in compact notation, without the suit letter.
fn append_tile_digit(out: &mut String, t: &Tile)
    requires
        tile_wf(*t),
{
    match t {
        Tile::Suited { value, .. } => {
            out.append(digit_str(*value));
        }
        Tile::Honor(h) => {
            out.append(honor_digit_str(*h));
        }
    }
}

/// The digit of a tile in compact notation; honors use the `z` digits.
fn append_tile_notation(out: &mut String, t: &Tile)
    requires
        tile_wf(*t),
{
    append_tile_digit(out, t);
}

/// The suit letter of a tile's notation, `z` for honors.
fn tile_suit_letter(t: &Tile) -> (r: &'static str) {
    match t {
        Tile::Suited { suit, .. } => suit_str(*suit),
        Tile::Honor(_) => "z",
    }
}

/// A decomposition in bracketed numeric notation, one bracket per group.
pub fn format_structure_normalized(structure: &HandStructure) -> (r: String)
    requires
        structure_wf(*structure),
{
    match structure {
        HandStructure::Chiitoitsu { pairs } => {
            let mut out = String::new();
            let mut k: usize = 0;
            while k < pairs.len()
                invariant
                    k <= pairs@.len(),
                    forall|x: int| 0 <= x < pairs@.len() ==> tile_wf(#[trigger] pairs@[x]),
                decreases pairs@.len() - k,
            {
                if k > 0 {
                    out.append(" ");
                }
                out.append("[");
                append_tile_digit(&mut out, &pairs[k]);
                append_tile_digit(&mut out, &pairs[k]);
                out.append(tile_suit_letter(&pairs[k]));
                out.append("]");
                k = k + 1;
            }
            out
        }
        HandStructure::Kokushi { pair } => {
            let all = kokushi_tiles();
            let mut out = String::new();
            let mut k: usize = 0;
            while k < all.len()
                invariant
                    k <= all@.len(),
                    tile_wf(*pair),
                    forall|x: int| 0 <= x < all@.len() ==> tile_wf(#[trigger] all@[x]),
                decreases all@.len() - k,
            {
                if k > 0 {
                    out.append(" ");
                }
                out.append("[");
                append_tile_digit(&mut out, &all[k]);
                if all[k] == *pair {
                    append_tile_digit(&mut out, &all[k]);
                }
                out.append(tile_suit_letter(&all[k]));
                out.append("]");
                k = k + 1;
            }
            out
        }
        HandStructure::Standard { melds, pair } => {
            let mut out = String::new();
            let mut k: usize = 0;
            while k < melds.len()
                invariant
                    k <= melds@.len(),
                    forall|x: int| 0 <= x < melds@.len() ==> meld_wf(#[trigger] melds@[x]),
                decreases melds@.len() - k,
            {
                if k > 0 {
                    out.append(" ");
                }
                let piece = format_meld_normalized(&melds[k]);
                out.append(piece.as_str());
                k = k + 1;
            }
            if melds.len() > 0 {
                out.append(" ");
            }
            out.append("[");
            append_tile_digit(&mut out, pair);
            append_tile_digit(&mut out, pair);
            out.append(tile_suit_letter(pair));
            out.append("]");
            out
        }
    }
}

/// One meld for human display, as glyphs or bracketed ASCII.
pub fn format_meld(meld: &Meld, use_unicode: bool) -> (r: String)
    requires
        meld_wf(*meld),
{
    if use_unicode {
        let mut tiles: Vec<Tile> = Vec::new();
        match meld {
            Meld::Shuntsu(Tile::Suited { suit, value }, _) => {
                tiles.push(Tile::Suited { suit: *suit, value: *value });
                tiles.push(Tile::Suited { suit: *suit, value: *value + 1 });
                tiles.push(Tile::Suited { suit: *suit, value: *value + 2 });
            }
            Meld::Shuntsu(Tile::Honor(_), _) => {}
            Meld::Koutsu(t, _) => {
                tiles.push(*t);
                tiles.push(*t);
                tiles.push(*t);
            }
            Meld::Kan(t, _) => {
                tiles.push(*t);
                tiles.push(*t);
                tiles.push(*t);
                tiles.push(*t);
            }
        }
        tiles_to_unicode(&tiles)
    } else {
        let mut out = String::new();
        out.append("[");
        match meld {
            Meld::Shuntsu(Tile::Suited { suit, value }, _) => {
                out.append(digit_str(*value));
                out.append(digit_str(*value + 1));
                out.append(digit_str(*value + 2));
                out.append(suit_str(*suit));
            }
            Meld::Shuntsu(Tile::Honor(_), _) => {
                out.append("???");
            }
            Meld::Koutsu(t, _) => {
                let a = tile_to_ascii(t);
                out.append(a.as_str());
                out.append(a.as_str());
                out.append(a.as_str());
            }
            Meld::Kan(t, _) => {
                let a = tile_to_ascii(t);
                out.append(a.as_str());
                out.append(a.as_str());
                out.append(a.as_str());
                out.append(a.as_str());
            }
        }
        out.append("]");
        out
    }
}

/// A whole decomposition for human display.
pub fn format_structure(structure: &HandStructure, use_unicode: bool) -> (r: String)
    requires
        structure_wf(*structure),
{
    match structure {
        HandStructure::Chiitoitsu { pairs } => {
            let mut out = String::new();
            let mut k: usize = 0;
            while k < pairs.len()
                invariant
                    k <= pairs@.len(),
                    forall|x: int| 0 <= x < pairs@.len() ==> tile_wf(#[trigger] pairs@[x]),
                decreases pairs@.len() - k,
            {
                if k > 0 {
                    out.append(" ");
                }
                if use_unicode {
                    let u = tile_to_unicode(&pairs[k]);
                    out.append(u.as_str());
                    out.append(u.as_str());
                } else {
                    let a = tile_to_ascii(&pairs[k]);
                    out.append("[");
                    out.append(a.as_str());
                    out.append(a.as_str());
                    out.append("]");
                }
                k = k + 1;
            }
            out
        }
        HandStructure::Kokushi { pair } => {
            let all = kokushi_tiles();
            let mut out = String::new();
            let mut k: usize = 0;
            while k < all.len()
                invariant
                    k <= all@.len(),
                    tile_wf(*pair),
                    forall|x: int| 0 <= x < all@.len() ==> tile_wf(#[trigger] all@[x]),
                decreases all@.len() - k,
            {
                if k > 0 {
                    out.append(" ");
                }
                if use_unicode {
                    let u = tile_to_unicode(&all[k]);
                    out.append(u.as_str());
                    if all[k] == *pair {
                        out.append(u.as_str());
                    }
                } else {
                    let a = tile_to_ascii(&all[k]);
                    out.append("[");
                    out.append(a.as_str());
                    if all[k] == *pair {
                        out.append(a.as_str());
                    }
                    out.append("]");
                }
                k = k + 1;
            }
            out
        }
        HandStructure::Standard { melds, pair } => {
            let mut out = String::new();
            let mut k: usize = 0;
            while k < melds.len()
                invariant
                    k <= melds@.len(),
                    forall|x: int| 0 <= x < melds@.len() ==> meld_wf(#[trigger] melds@[x]),
                decreases melds@.len() - k,
            {
                if k > 0 {
                    out.append(" ");
                }
                let piece = format_meld(&melds[k], use_unicode);
                out.append(piece.as_str());
                k = k + 1;
            }
            if melds.len() > 0 {
                out.append(" ");
            }
            if use_unicode {
                let u = tile_to_unicode(pair);
                out.append(u.as_str());
                out.append(u.as_str());
            } else {
                let a = tile_to_ascii(pair);
                out.append("[");
                out.append(a.as_str());
                out.append(a.as_str());
                out.append("]");
            }
            out
        }
    }
}

/// The English name of an honor.
pub fn honor_name(honor: &Honor) -> (r: &'static str) {
    match honor {
        Honor::East => "East",
        Honor::South => "South",
        Honor::West => "West",
        Honor::North => "North",
        Honor::White => "White Dragon",
        Honor::Green => "Green Dragon",
        Honor::Red => "Red Dragon",
    }
}

/// The English name of a suit.
pub fn suit_name(suit: &Suit) -> (r: &'static str) {
    match suit {
        Suit::Man => "Man (Characters)",
        Suit::Pin => "Pin (Dots)",
        Suit::Sou => "Sou (Bamboo)",
    }
}


/// Append the decimal digits of a number to a string.
pub fn append_u32(out: &mut String, n: u32) {
    if n == 0 {
        out.append("0");
        return;
    }
    let mut digits: Vec<u32> = Vec::new();
    let mut v = n;
    while v > 0
        decreases v,
    {
        digits.push(v % 10);
        v = v / 10;
    }
    let mut i: usize = digits.len();
    while i > 0
        invariant
            i <= digits@.len(),
        decreases i,
    {
        i = i - 1;
        let d = digits[i];
        let piece: &str = if d == 0 {
            "0"
        } else if d == 1 {
            "1"
        } else if d == 2 {
            "2"
        } else if d == 3 {
            "3"
        } else if d == 4 {
            "4"
        } else if d == 5 {
            "5"
        } else if d == 6 {
            "6"
        } else if d == 7 {
            "7"
        } else if d == 8 {
            "8"
        } else {
            "9"
        };
        out.append(piece);
    }
}

} // verus!
