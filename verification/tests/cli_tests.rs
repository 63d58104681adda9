use agari::evaluate::validate_riichi_dependencies;
use agari::parse::{parse_single_tile, parse_tile_list};
use agari::tile::{Honor, Suit, Tile};


#[test]
    fn test_parse_single_tile_standard_notation() {
        // Standard numeric notation still works
        assert_eq!(parse_single_tile("1m").unwrap(), Tile::suited(Suit::Man, 1));
        assert_eq!(parse_single_tile("5p").unwrap(), Tile::suited(Suit::Pin, 5));
        assert_eq!(parse_single_tile("9s").unwrap(), Tile::suited(Suit::Sou, 9));
        assert_eq!(parse_single_tile("1z").unwrap(), Tile::honor(Honor::East));
        assert_eq!(parse_single_tile("7z").unwrap(), Tile::honor(Honor::Red));
    }

#[test]
    fn test_parse_single_tile_rejects_multiple_tiles() {
        // Should reject input that looks like multiple tiles
        assert!(parse_single_tile("1m2m").is_err());
        assert!(parse_single_tile("123m").is_err());
        assert!(parse_single_tile("1m5p").is_err());
    }

#[test]
    fn test_parse_single_tile_wind_letters() {
        assert_eq!(parse_single_tile("e").unwrap(), Tile::honor(Honor::East));
        assert_eq!(parse_single_tile("s").unwrap(), Tile::honor(Honor::South));
        assert_eq!(parse_single_tile("w").unwrap(), Tile::honor(Honor::West));
        assert_eq!(parse_single_tile("n").unwrap(), Tile::honor(Honor::North));
    }

#[test]
    fn test_parse_single_tile_wind_letters_uppercase() {
        assert_eq!(parse_single_tile("E").unwrap(), Tile::honor(Honor::East));
        assert_eq!(parse_single_tile("S").unwrap(), Tile::honor(Honor::South));
        assert_eq!(parse_single_tile("W").unwrap(), Tile::honor(Honor::West));
        assert_eq!(parse_single_tile("N").unwrap(), Tile::honor(Honor::North));
    }

#[test]
    fn test_parse_single_tile_dragon_letters() {
        assert_eq!(parse_single_tile("wh").unwrap(), Tile::honor(Honor::White));
        assert_eq!(parse_single_tile("g").unwrap(), Tile::honor(Honor::Green));
        assert_eq!(parse_single_tile("r").unwrap(), Tile::honor(Honor::Red));
    }

#[test]
    fn test_parse_single_tile_dragon_letters_uppercase() {
        assert_eq!(parse_single_tile("WH").unwrap(), Tile::honor(Honor::White));
        assert_eq!(parse_single_tile("Wh").unwrap(), Tile::honor(Honor::White));
        assert_eq!(parse_single_tile("G").unwrap(), Tile::honor(Honor::Green));
        assert_eq!(parse_single_tile("R").unwrap(), Tile::honor(Honor::Red));
    }

#[test]
    fn test_parse_single_tile_verbose_names() {
        assert_eq!(parse_single_tile("east").unwrap(), Tile::honor(Honor::East));
        assert_eq!(
            parse_single_tile("south").unwrap(),
            Tile::honor(Honor::South)
        );
        assert_eq!(parse_single_tile("west").unwrap(), Tile::honor(Honor::West));
        assert_eq!(
            parse_single_tile("north").unwrap(),
            Tile::honor(Honor::North)
        );
        assert_eq!(
            parse_single_tile("white").unwrap(),
            Tile::honor(Honor::White)
        );
        assert_eq!(
            parse_single_tile("green").unwrap(),
            Tile::honor(Honor::Green)
        );
        assert_eq!(parse_single_tile("red").unwrap(), Tile::honor(Honor::Red));
        assert_eq!(
            parse_single_tile("haku").unwrap(),
            Tile::honor(Honor::White)
        );
        assert_eq!(
            parse_single_tile("hatsu").unwrap(),
            Tile::honor(Honor::Green)
        );
        assert_eq!(parse_single_tile("chun").unwrap(), Tile::honor(Honor::Red));
    }

#[test]
    fn test_parse_tile_list_standard_notation() {
        // Standard grouped notation
        let tiles = parse_tile_list("35z").unwrap();
        assert_eq!(tiles.len(), 2);
        assert_eq!(tiles[0], Tile::honor(Honor::West));
        assert_eq!(tiles[1], Tile::honor(Honor::White));
    }

#[test]
    fn test_parse_tile_list_comma_separated() {
        let tiles = parse_tile_list("1m,5p,9s").unwrap();
        assert_eq!(tiles.len(), 3);
        assert_eq!(tiles[0], Tile::suited(Suit::Man, 1));
        assert_eq!(tiles[1], Tile::suited(Suit::Pin, 5));
        assert_eq!(tiles[2], Tile::suited(Suit::Sou, 9));
    }

#[test]
    fn test_parse_tile_list_honor_letter_sequence() {
        // Honor letter sequence without commas: "wwh" -> West, White
        let tiles = parse_tile_list("wwh").unwrap();
        assert_eq!(tiles.len(), 2);
        assert_eq!(tiles[0], Tile::honor(Honor::West));
        assert_eq!(tiles[1], Tile::honor(Honor::White));
    }

#[test]
    fn test_parse_tile_list_honor_letter_sequence_whe() {
        // "whe" -> White, East
        let tiles = parse_tile_list("whe").unwrap();
        assert_eq!(tiles.len(), 2);
        assert_eq!(tiles[0], Tile::honor(Honor::White));
        assert_eq!(tiles[1], Tile::honor(Honor::East));
    }

#[test]
    fn test_parse_tile_list_all_winds() {
        let tiles = parse_tile_list("eswn").unwrap();
        assert_eq!(tiles.len(), 4);
        assert_eq!(tiles[0], Tile::honor(Honor::East));
        assert_eq!(tiles[1], Tile::honor(Honor::South));
        assert_eq!(tiles[2], Tile::honor(Honor::West));
        assert_eq!(tiles[3], Tile::honor(Honor::North));
    }

#[test]
    fn test_parse_tile_list_all_dragons() {
        let tiles = parse_tile_list("whgr").unwrap();
        assert_eq!(tiles.len(), 3);
        assert_eq!(tiles[0], Tile::honor(Honor::White));
        assert_eq!(tiles[1], Tile::honor(Honor::Green));
        assert_eq!(tiles[2], Tile::honor(Honor::Red));
    }

#[test]
    fn test_parse_tile_list_complex_west_white_sequence() {
        // "wwwwhwh" -> West, West, West, White, White
        let tiles = parse_tile_list("wwwwhwh").unwrap();
        assert_eq!(tiles.len(), 5);
        assert_eq!(tiles[0], Tile::honor(Honor::West));
        assert_eq!(tiles[1], Tile::honor(Honor::West));
        assert_eq!(tiles[2], Tile::honor(Honor::West));
        assert_eq!(tiles[3], Tile::honor(Honor::White));
        assert_eq!(tiles[4], Tile::honor(Honor::White));
    }

#[test]
    fn test_parse_tile_list_wwhwwwh() {
        // "wwhwwwh" -> West, White, West, West, White
        let tiles = parse_tile_list("wwhwwwh").unwrap();
        assert_eq!(tiles.len(), 5);
        assert_eq!(tiles[0], Tile::honor(Honor::West));
        assert_eq!(tiles[1], Tile::honor(Honor::White));
        assert_eq!(tiles[2], Tile::honor(Honor::West));
        assert_eq!(tiles[3], Tile::honor(Honor::West));
        assert_eq!(tiles[4], Tile::honor(Honor::White));
    }

#[test]
    fn test_parse_tile_list_mixed_comma_and_letter() {
        // Can mix comma-separated with letter notation
        let tiles = parse_tile_list("e,wh,1m").unwrap();
        assert_eq!(tiles.len(), 3);
        assert_eq!(tiles[0], Tile::honor(Honor::East));
        assert_eq!(tiles[1], Tile::honor(Honor::White));
        assert_eq!(tiles[2], Tile::suited(Suit::Man, 1));
    }

#[test]
    fn test_parse_tile_list_empty() {
        let tiles = parse_tile_list("").unwrap();
        assert!(tiles.is_empty());
    }

#[test]
    fn test_parse_tile_list_single_honor_letter() {
        let tiles = parse_tile_list("e").unwrap();
        assert_eq!(tiles.len(), 1);
        assert_eq!(tiles[0], Tile::honor(Honor::East));
    }

#[test]
    fn test_parse_tile_list_uppercase_honors() {
        let tiles = parse_tile_list("ESWN").unwrap();
        assert_eq!(tiles.len(), 4);
        assert_eq!(tiles[0], Tile::honor(Honor::East));
        assert_eq!(tiles[1], Tile::honor(Honor::South));
        assert_eq!(tiles[2], Tile::honor(Honor::West));
        assert_eq!(tiles[3], Tile::honor(Honor::North));
    }

#[test]
    fn test_parse_tile_list_mixed_suited_and_honor() {
        // "2pg" -> 2-pin + green dragon
        let tiles = parse_tile_list("2pg").unwrap();
        assert_eq!(tiles.len(), 2);
        assert_eq!(tiles[0], Tile::suited(Suit::Pin, 2));
        assert_eq!(tiles[1], Tile::honor(Honor::Green));
    }

#[test]
    fn test_parse_tile_list_mixed_honor_and_suited() {
        // "e5m" -> east + 5-man
        let tiles = parse_tile_list("e5m").unwrap();
        assert_eq!(tiles.len(), 2);
        assert_eq!(tiles[0], Tile::honor(Honor::East));
        assert_eq!(tiles[1], Tile::suited(Suit::Man, 5));
    }

#[test]
    fn test_parse_tile_list_complex_mixed() {
        // "1mwh9s" -> 1-man + white + 9-sou
        let tiles = parse_tile_list("1mwh9s").unwrap();
        assert_eq!(tiles.len(), 3);
        assert_eq!(tiles[0], Tile::suited(Suit::Man, 1));
        assert_eq!(tiles[1], Tile::honor(Honor::White));
        assert_eq!(tiles[2], Tile::suited(Suit::Sou, 9));
    }

#[test]
    fn test_parse_tile_list_multiple_suited_then_honor() {
        // "19mr" -> 1-man, 9-man + red dragon
        let tiles = parse_tile_list("19mr").unwrap();
        assert_eq!(tiles.len(), 3);
        assert_eq!(tiles[0], Tile::suited(Suit::Man, 1));
        assert_eq!(tiles[1], Tile::suited(Suit::Man, 9));
        assert_eq!(tiles[2], Tile::honor(Honor::Red));
    }

#[test]
    fn test_validate_riichi_deps_no_warnings_when_valid() {
        // With riichi, ura dora and ippatsu are fine (closed hand)
        let warnings = validate_riichi_dependencies(true, true, true, false, false);
        assert!(warnings.is_empty());

        // Without riichi but also without ura/ippatsu is fine
        let warnings = validate_riichi_dependencies(false, false, false, false, false);
        assert!(warnings.is_empty());

        // Riichi with only ura dora
        let warnings = validate_riichi_dependencies(true, true, false, false, false);
        assert!(warnings.is_empty());

        // Riichi with only ippatsu
        let warnings = validate_riichi_dependencies(true, false, true, false, false);
        assert!(warnings.is_empty());
    }

#[test]
    fn test_validate_riichi_deps_warns_ura_without_riichi() {
        let warnings = validate_riichi_dependencies(false, true, false, false, false);
        assert_eq!(warnings.len(), 1);
        assert!(warnings[0].contains("Ura dora"));
        assert!(warnings[0].contains("without riichi"));
    }

#[test]
    fn test_validate_riichi_deps_warns_ippatsu_without_riichi() {
        let warnings = validate_riichi_dependencies(false, false, true, false, false);
        assert_eq!(warnings.len(), 1);
        assert!(warnings[0].contains("Ippatsu"));
        assert!(warnings[0].contains("without riichi"));
    }

#[test]
    fn test_validate_riichi_deps_warns_both_without_riichi() {
        let warnings = validate_riichi_dependencies(false, true, true, false, false);
        assert_eq!(warnings.len(), 2);
        assert!(warnings.iter().any(|w| w.contains("Ura dora")));
        assert!(warnings.iter().any(|w| w.contains("Ippatsu")));
    }

#[test]
    fn test_validate_riichi_deps_warns_riichi_with_open_melds() {
        let warnings = validate_riichi_dependencies(true, false, false, true, false);
        assert_eq!(warnings.len(), 1);
        assert!(warnings[0].contains("open melds"));
        assert!(warnings[0].contains("closed hand"));
    }

#[test]
    fn test_validate_riichi_deps_warns_riichi_with_open_flag() {
        let warnings = validate_riichi_dependencies(true, false, false, false, true);
        assert_eq!(warnings.len(), 1);
        assert!(warnings[0].contains("--riichi"));
        assert!(warnings[0].contains("--open"));
    }

#[test]
    fn test_validate_riichi_deps_warns_riichi_with_both_open() {
        // Both open melds and --open flag
        let warnings = validate_riichi_dependencies(true, false, false, true, true);
        assert_eq!(warnings.len(), 2);
        assert!(warnings.iter().any(|w| w.contains("open melds")));
        assert!(warnings.iter().any(|w| w.contains("--open")));
    }

#[test]
    fn test_validate_riichi_deps_no_warning_open_without_riichi() {
        // Open hand without riichi is perfectly valid
        let warnings = validate_riichi_dependencies(false, false, false, true, false);
        assert!(warnings.is_empty());

        let warnings = validate_riichi_dependencies(false, false, false, false, true);
        assert!(warnings.is_empty());
    }
