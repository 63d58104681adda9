use agari::context::{count_dora, indicator_to_dora, GameContext, WinType};
use agari::parse::{parse_hand, to_counts};
use agari::tile::{Honor, Suit, Tile};


#[test]
    fn test_indicator_to_dora_suited() {
        // 1m indicator -> 2m dora
        assert_eq!(
            indicator_to_dora(Tile::suited(Suit::Man, 1)),
            Tile::suited(Suit::Man, 2)
        );

        // 9p indicator -> 1p dora (wraps)
        assert_eq!(
            indicator_to_dora(Tile::suited(Suit::Pin, 9)),
            Tile::suited(Suit::Pin, 1)
        );
    }

#[test]
    fn test_indicator_to_dora_winds() {
        assert_eq!(
            indicator_to_dora(Tile::honor(Honor::East)),
            Tile::honor(Honor::South)
        );
        assert_eq!(
            indicator_to_dora(Tile::honor(Honor::South)),
            Tile::honor(Honor::West)
        );
        assert_eq!(
            indicator_to_dora(Tile::honor(Honor::West)),
            Tile::honor(Honor::North)
        );
        assert_eq!(
            indicator_to_dora(Tile::honor(Honor::North)),
            Tile::honor(Honor::East)
        );
    }

#[test]
    fn test_indicator_to_dora_dragons() {
        assert_eq!(
            indicator_to_dora(Tile::honor(Honor::White)),
            Tile::honor(Honor::Green)
        );
        assert_eq!(
            indicator_to_dora(Tile::honor(Honor::Green)),
            Tile::honor(Honor::Red)
        );
        assert_eq!(
            indicator_to_dora(Tile::honor(Honor::Red)),
            Tile::honor(Honor::White)
        );
    }

#[test]
    fn test_count_dora_simple() {
        // Hand with three 2m tiles, dora indicator is 1m (so 2m is dora)
        let tiles = parse_hand("222m456p789s11122z").unwrap();
        let counts = to_counts(&tiles);

        let context = GameContext::new(WinType::Tsumo, Honor::East, Honor::East)
            .with_dora(vec![Tile::suited(Suit::Man, 1)]);

        assert_eq!(count_dora(&counts, &context), 3);
    }

#[test]
    fn test_count_dora_with_ura() {
        // Hand with 2m and 5p
        let tiles = parse_hand("222m555p789s11122z").unwrap();
        let counts = to_counts(&tiles);

        // Dora indicator 1m (dora = 2m), ura indicator 4p (ura = 5p)
        let context = GameContext::new(WinType::Tsumo, Honor::East, Honor::East)
            .riichi()
            .with_dora(vec![Tile::suited(Suit::Man, 1)])
            .with_ura_dora(vec![Tile::suited(Suit::Pin, 4)]);

        // 3 dora (2m) + 3 ura (5p) = 6
        assert_eq!(count_dora(&counts, &context), 6);
    }

#[test]
    fn test_count_dora_ura_only_with_riichi() {
        let tiles = parse_hand("222m555p789s11122z").unwrap();
        let counts = to_counts(&tiles);

        // Same indicators but NO riichi
        let context = GameContext::new(WinType::Tsumo, Honor::East, Honor::East)
            .with_dora(vec![Tile::suited(Suit::Man, 1)])
            .with_ura_dora(vec![Tile::suited(Suit::Pin, 4)]);

        // Only regular dora counts (3), ura doesn't count without riichi
        assert_eq!(count_dora(&counts, &context), 3);
    }

#[test]
    fn test_count_dora_with_aka() {
        let tiles = parse_hand("123m456p789s11122z").unwrap();
        let counts = to_counts(&tiles);

        // No dora indicators, but 2 akadora
        let context = GameContext::new(WinType::Tsumo, Honor::East, Honor::East).with_aka(2);

        assert_eq!(count_dora(&counts, &context), 2);
    }

#[test]
    fn test_value_wind() {
        let context = GameContext::new(WinType::Ron, Honor::East, Honor::South);

        assert!(context.is_value_wind(Honor::East)); // Round wind
        assert!(context.is_value_wind(Honor::South)); // Seat wind
        assert!(!context.is_value_wind(Honor::West));
        assert!(!context.is_value_wind(Honor::North));
    }

#[test]
    fn test_builder_pattern() {
        let context = GameContext::new(WinType::Tsumo, Honor::South, Honor::West)
            .riichi()
            .ippatsu()
            .with_dora(vec![Tile::suited(Suit::Man, 1)])
            .with_aka(1);

        assert!(context.is_riichi);
        assert!(context.is_ippatsu);
        assert_eq!(context.dora_indicators.len(), 1);
        assert_eq!(context.aka_count, 1);
        assert!(context.is_closed());
    }

#[test]
    fn test_winning_tile_builder() {
        let context = GameContext::new(WinType::Tsumo, Honor::East, Honor::East)
            .with_winning_tile(Tile::suited(Suit::Man, 5));

        assert_eq!(context.winning_tile, Some(Tile::suited(Suit::Man, 5)));
    }
