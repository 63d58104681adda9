use agari::hand::{KanType, Meld};
use agari::parse::{parse_hand, parse_hand_with_aka, validate_hand, validate_hand_with_melds};
use agari::tile::{Honor, Suit, Tile};


#[test]
    fn parse_simple_hand() {
        let tiles = parse_hand("123m456p789s11z").unwrap();
        assert_eq!(tiles.len(), 11);
        assert_eq!(tiles[0], Tile::suited(Suit::Man, 1));
        assert_eq!(tiles[9], Tile::honor(Honor::East));
    }

#[test]
    fn parse_full_hand() {
        let tiles = parse_hand("123m456p789s11222z").unwrap();
        assert_eq!(tiles.len(), 14);
    }

#[test]
    fn parse_invalid_honor() {
        let result = parse_hand("89z");
        assert!(result.is_err());
    }

#[test]
    fn parse_trailing_numbers() {
        let result = parse_hand("123");
        assert!(result.is_err());
    }

#[test]
    fn validate_correct_hand() {
        let tiles = parse_hand("123m456p789s11222z").unwrap();
        assert!(validate_hand(&tiles).is_ok());
    }

#[test]
    fn validate_wrong_count() {
        let tiles = parse_hand("123m456p789s11z").unwrap();
        assert!(validate_hand(&tiles).is_err());
    }

#[test]
    fn validate_too_many_copies() {
        let tiles = parse_hand("11111m456p789s11z").unwrap();
        assert!(validate_hand(&tiles).is_err());
    }

#[test]
    fn parse_red_five_manzu() {
        let result = parse_hand_with_aka("0m").unwrap();
        assert_eq!(result.tiles.len(), 1);
        assert_eq!(result.tiles[0], Tile::suited(Suit::Man, 5));
        assert_eq!(result.aka_count, 1);
    }

#[test]
    fn parse_red_five_all_suits() {
        let result = parse_hand_with_aka("0m0p0s").unwrap();
        assert_eq!(result.tiles.len(), 3);
        assert_eq!(result.tiles[0], Tile::suited(Suit::Man, 5));
        assert_eq!(result.tiles[1], Tile::suited(Suit::Pin, 5));
        assert_eq!(result.tiles[2], Tile::suited(Suit::Sou, 5));
        assert_eq!(result.aka_count, 3);
    }

#[test]
    fn parse_mixed_red_and_regular_fives() {
        // Hand with both red 5m and regular 5m
        let result = parse_hand_with_aka("50m").unwrap();
        assert_eq!(result.tiles.len(), 2);
        assert_eq!(result.tiles[0], Tile::suited(Suit::Man, 5));
        assert_eq!(result.tiles[1], Tile::suited(Suit::Man, 5));
        assert_eq!(result.aka_count, 1); // Only one is red
    }

#[test]
    fn parse_hand_with_red_five() {
        // Full hand with a red 5p
        let result = parse_hand_with_aka("123m406p789s11122z").unwrap();
        assert_eq!(result.tiles.len(), 14);
        assert_eq!(result.aka_count, 1);
        // The 0 should have been parsed as 5p
        assert_eq!(result.tiles[4], Tile::suited(Suit::Pin, 5));
    }

#[test]
    fn parse_red_zero_with_honor_fails() {
        let result = parse_hand_with_aka("0z");
        assert!(result.is_err());
    }

#[test]
    fn parse_closed_kan() {
        let result = parse_hand_with_aka("[1111m]").unwrap();
        assert_eq!(result.tiles.len(), 0); // Tiles are in the meld
        assert_eq!(result.called_melds.len(), 1);

        let meld = &result.called_melds[0];
        assert_eq!(meld.tiles.len(), 4);
        assert!(matches!(meld.meld, Meld::Kan(_, KanType::Closed)));
    }

#[test]
    fn parse_open_kan() {
        let result = parse_hand_with_aka("(1111m)").unwrap();
        assert_eq!(result.called_melds.len(), 1);

        let meld = &result.called_melds[0];
        assert!(matches!(meld.meld, Meld::Kan(_, KanType::Open)));
    }

#[test]
    fn parse_honor_kan() {
        let result = parse_hand_with_aka("[5555z]").unwrap();
        assert_eq!(result.called_melds.len(), 1);

        let meld = &result.called_melds[0];
        assert_eq!(meld.tiles[0], Tile::honor(Honor::White));
        assert!(matches!(meld.meld, Meld::Kan(_, KanType::Closed)));
    }

#[test]
    fn parse_hand_with_kan() {
        // Hand with a closed kan: [1111m] 222m 333m 555p 11z
        let result = parse_hand_with_aka("[1111m]222333m555p11z").unwrap();

        // Regular tiles (not in kan)
        assert_eq!(result.tiles.len(), 11); // 222m + 333m + 555p + 11z

        // One kan meld
        assert_eq!(result.called_melds.len(), 1);
        assert_eq!(result.called_melds[0].tiles.len(), 4);

        // Total tiles should be 15
        let total = result.tiles.len() + result.called_melds[0].tiles.len();
        assert_eq!(total, 15);
    }

#[test]
    fn parse_hand_with_multiple_kans() {
        // Hand with two kans: [1111m] [2222p] 345s 678s 11z
        // 4 + 4 + 3 + 3 + 2 = 16 tiles
        let result = parse_hand_with_aka("[1111m][2222p]345678s11z").unwrap();

        assert_eq!(result.called_melds.len(), 2);
        assert_eq!(result.tiles.len(), 8); // 345s + 678s + 11z

        // Total should be 16 tiles (14 + 2 extra for 2 kans)
        let total: usize = result.tiles.len()
            + result
                .called_melds
                .iter()
                .map(|m| m.tiles.len())
                .sum::<usize>();
        assert_eq!(total, 16);
    }

#[test]
    fn parse_open_pon() {
        let result = parse_hand_with_aka("(111m)").unwrap();
        assert_eq!(result.called_melds.len(), 1);

        let meld = &result.called_melds[0];
        assert_eq!(meld.tiles.len(), 3);
        assert!(matches!(meld.meld, Meld::Koutsu(_, true))); // open = true
    }

#[test]
    fn parse_open_chi() {
        let result = parse_hand_with_aka("(123m)").unwrap();
        assert_eq!(result.called_melds.len(), 1);

        let meld = &result.called_melds[0];
        assert_eq!(meld.tiles.len(), 3);
        assert!(matches!(meld.meld, Meld::Shuntsu(_, true))); // open = true
    }

#[test]
    fn parse_kan_with_red_five() {
        let result = parse_hand_with_aka("[0555m]").unwrap();
        assert_eq!(result.aka_count, 1);
        assert_eq!(result.called_melds.len(), 1);
    }

#[test]
    fn validate_hand_with_one_kan() {
        let result = parse_hand_with_aka("[1111m]222333m555p11z").unwrap();
        assert!(validate_hand_with_melds(&result).is_ok());
    }

#[test]
    fn validate_hand_with_two_kans() {
        // [1111m] [2222p] 345s 678s 11z = 16 tiles (14 + 2 for 2 kans)
        let result = parse_hand_with_aka("[1111m][2222p]345678s11z").unwrap();
        assert!(validate_hand_with_melds(&result).is_ok());
    }

#[test]
    fn invalid_kan_different_tiles() {
        let result = parse_hand_with_aka("[1234m]");
        assert!(result.is_err());
    }

#[test]
    fn invalid_unclosed_bracket() {
        let result = parse_hand_with_aka("[1111m");
        assert!(result.is_err());
    }

#[test]
    fn parse_honor_letter_winds() {
        // Test all wind letter notations: e, s, w, n
        let result = parse_hand_with_aka("eswn").unwrap();
        assert_eq!(result.tiles.len(), 4);
        assert_eq!(result.tiles[0], Tile::honor(Honor::East));
        assert_eq!(result.tiles[1], Tile::honor(Honor::South));
        assert_eq!(result.tiles[2], Tile::honor(Honor::West));
        assert_eq!(result.tiles[3], Tile::honor(Honor::North));
    }

#[test]
    fn parse_honor_letter_dragons() {
        // Test dragon letter notations: wh, g, r
        let result = parse_hand_with_aka("whgr").unwrap();
        assert_eq!(result.tiles.len(), 3);
        assert_eq!(result.tiles[0], Tile::honor(Honor::White));
        assert_eq!(result.tiles[1], Tile::honor(Honor::Green));
        assert_eq!(result.tiles[2], Tile::honor(Honor::Red));
    }

#[test]
    fn parse_honor_letter_mixed_with_suits() {
        // Mix letter honors with suited tiles
        let result = parse_hand_with_aka("123meee").unwrap();
        assert_eq!(result.tiles.len(), 6);
        assert_eq!(result.tiles[0], Tile::suited(Suit::Man, 1));
        assert_eq!(result.tiles[3], Tile::honor(Honor::East));
        assert_eq!(result.tiles[4], Tile::honor(Honor::East));
        assert_eq!(result.tiles[5], Tile::honor(Honor::East));
    }

#[test]
    fn parse_honor_letter_full_hand() {
        // Full hand using letter notation: 123m456p789seeenn
        let result = parse_hand_with_aka("123m456p789seeenn").unwrap();
        assert_eq!(result.tiles.len(), 14);
        // Check East tiles
        assert_eq!(result.tiles[9], Tile::honor(Honor::East));
        assert_eq!(result.tiles[10], Tile::honor(Honor::East));
        assert_eq!(result.tiles[11], Tile::honor(Honor::East));
        // Check North tiles
        assert_eq!(result.tiles[12], Tile::honor(Honor::North));
        assert_eq!(result.tiles[13], Tile::honor(Honor::North));
    }

#[test]
    fn parse_honor_letter_white_dragon_disambiguation() {
        // Test that "wh" parses as White, not West + something
        let result = parse_hand_with_aka("whwhwh").unwrap();
        assert_eq!(result.tiles.len(), 3);
        assert!(result.tiles.iter().all(|&t| t == Tile::honor(Honor::White)));
    }

#[test]
    fn parse_honor_letter_west_vs_white() {
        // w = West, wh = White - ensure disambiguation works
        let result = parse_hand_with_aka("wwwwhwh").unwrap();
        assert_eq!(result.tiles.len(), 5);
        assert_eq!(result.tiles[0], Tile::honor(Honor::West));
        assert_eq!(result.tiles[1], Tile::honor(Honor::West));
        assert_eq!(result.tiles[2], Tile::honor(Honor::West));
        assert_eq!(result.tiles[3], Tile::honor(Honor::White));
        assert_eq!(result.tiles[4], Tile::honor(Honor::White));
    }

#[test]
    fn parse_honor_letter_uppercase() {
        // Test that uppercase letters also work
        let result = parse_hand_with_aka("ESWN").unwrap();
        assert_eq!(result.tiles.len(), 4);
        assert_eq!(result.tiles[0], Tile::honor(Honor::East));
        assert_eq!(result.tiles[1], Tile::honor(Honor::South));
        assert_eq!(result.tiles[2], Tile::honor(Honor::West));
        assert_eq!(result.tiles[3], Tile::honor(Honor::North));
    }

#[test]
    fn parse_honor_letter_meld_pon() {
        // Test honor letter notation in called melds: (eee) = pon of East
        let result = parse_hand_with_aka("(eee)").unwrap();
        assert_eq!(result.called_melds.len(), 1);
        let meld = &result.called_melds[0];
        assert_eq!(meld.tiles.len(), 3);
        assert!(meld.tiles.iter().all(|&t| t == Tile::honor(Honor::East)));
        assert!(matches!(meld.meld, Meld::Koutsu(_, true))); // open = true
    }

#[test]
    fn parse_honor_letter_meld_kan() {
        // Test honor letter notation in kans: [rrrr] = closed kan of Red dragon
        let result = parse_hand_with_aka("[rrrr]").unwrap();
        assert_eq!(result.called_melds.len(), 1);
        let meld = &result.called_melds[0];
        assert_eq!(meld.tiles.len(), 4);
        assert!(meld.tiles.iter().all(|&t| t == Tile::honor(Honor::Red)));
        assert!(matches!(meld.meld, Meld::Kan(_, KanType::Closed)));
    }

#[test]
    fn parse_honor_letter_meld_white_dragon() {
        // Test white dragon kan with letter notation: [whwhwhwh]
        let result = parse_hand_with_aka("[whwhwhwh]").unwrap();
        assert_eq!(result.called_melds.len(), 1);
        let meld = &result.called_melds[0];
        assert_eq!(meld.tiles.len(), 4);
        assert!(meld.tiles.iter().all(|&t| t == Tile::honor(Honor::White)));
    }

#[test]
    fn parse_honor_letter_hand_with_meld() {
        // Full hand with letter notation meld: 123m456p789s(rrr)whwh
        let result = parse_hand_with_aka("123m456p789s(rrr)whwh").unwrap();
        assert_eq!(result.tiles.len(), 11); // 9 suited + 2 white
        assert_eq!(result.called_melds.len(), 1);

        // Check white dragon pair
        assert_eq!(result.tiles[9], Tile::honor(Honor::White));
        assert_eq!(result.tiles[10], Tile::honor(Honor::White));

        // Check red dragon pon
        let meld = &result.called_melds[0];
        assert!(meld.tiles.iter().all(|&t| t == Tile::honor(Honor::Red)));
    }

#[test]
    fn parse_honor_letter_invalid_after_digits() {
        // Digits followed by honor letter should fail (digits need a suit)
        let result = parse_hand_with_aka("123e");
        assert!(result.is_err());
    }
