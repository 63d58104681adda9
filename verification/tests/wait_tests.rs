use agari::context::{GameContext, WinType};
use agari::hand::{decompose_hand, HandStructure};
use agari::parse::{parse_hand, to_counts};
use agari::tile::{Honor, Suit, Tile};
use agari::wait::{best_wait_type, detect_wait_types, is_pinfu, wait_type_for_shuntsu_position, WaitType};


#[test]
    fn test_ryanmen_middle_sequence() {
        // 234m - winning with 2 (from 34 wait) is ryanmen
        let wt = wait_type_for_shuntsu_position(2, 2);
        assert_eq!(wt, WaitType::Ryanmen);

        // 234m - winning with 4 (from 23 wait) is ryanmen
        let wt = wait_type_for_shuntsu_position(2, 4);
        assert_eq!(wt, WaitType::Ryanmen);
    }

#[test]
    fn test_kanchan() {
        // 234m - winning with 3 (from 24 wait) is kanchan
        let wt = wait_type_for_shuntsu_position(2, 3);
        assert_eq!(wt, WaitType::Kanchan);

        // 567m - winning with 6 (from 57 wait) is kanchan
        let wt = wait_type_for_shuntsu_position(5, 6);
        assert_eq!(wt, WaitType::Kanchan);
    }

#[test]
    fn test_penchan_low() {
        // 123m - winning with 3 (from 12 wait) is penchan
        let wt = wait_type_for_shuntsu_position(1, 3);
        assert_eq!(wt, WaitType::Penchan);
    }

#[test]
    fn test_penchan_high() {
        // 789m - winning with 7 (from 89 wait) is penchan
        let wt = wait_type_for_shuntsu_position(7, 7);
        assert_eq!(wt, WaitType::Penchan);
    }

#[test]
    fn test_ryanmen_at_edges_not_penchan() {
        // 123m - winning with 1 (from 23 wait) is ryanmen (23 waits on 1 or 4)
        let wt = wait_type_for_shuntsu_position(1, 1);
        assert_eq!(wt, WaitType::Ryanmen);

        // 789m - winning with 9 (from 78 wait) is ryanmen (78 waits on 6 or 9)
        let wt = wait_type_for_shuntsu_position(7, 9);
        assert_eq!(wt, WaitType::Ryanmen);
    }

#[test]
    fn test_detect_tanki_wait() {
        // 123m 456p 789s 111z 77z - tanki wait on 7z
        let tiles = parse_hand("123m456p789s11177z").unwrap();
        let counts = to_counts(&tiles);
        let structures = decompose_hand(&counts);

        let winning_tile = Tile::honor(Honor::Red);
        let wait_types = detect_wait_types(&structures[0], winning_tile);

        assert!(wait_types.contains(&WaitType::Tanki));
    }

#[test]
    fn test_detect_shanpon_wait() {
        // 123m 456p 789s 111z 22z - if we won on 1z, it's shanpon
        let tiles = parse_hand("123m456p789s11122z").unwrap();
        let counts = to_counts(&tiles);
        let structures = decompose_hand(&counts);

        let winning_tile = Tile::honor(Honor::East);
        let wait_types = detect_wait_types(&structures[0], winning_tile);

        assert!(wait_types.contains(&WaitType::Shanpon));
    }

#[test]
    fn test_detect_ryanmen_wait() {
        // 234m 456p 789s 111z 22z - won on 4m (from 23m wait)
        let tiles = parse_hand("234m456p789s11122z").unwrap();
        let counts = to_counts(&tiles);
        let structures = decompose_hand(&counts);

        let winning_tile = Tile::suited(Suit::Man, 4);
        let wait_types = detect_wait_types(&structures[0], winning_tile);

        assert!(wait_types.contains(&WaitType::Ryanmen));
    }

#[test]
    fn test_detect_kanchan_wait() {
        // 123m 456p 789s 111z 22z - won on 2m... wait this doesn't work
        // Let's use: 135m... no that's not a valid hand
        // Better: 234m where we won on 3m (from 24m wait)
        let tiles = parse_hand("234m456p789s11122z").unwrap();
        let counts = to_counts(&tiles);
        let structures = decompose_hand(&counts);

        let winning_tile = Tile::suited(Suit::Man, 3);
        let wait_types = detect_wait_types(&structures[0], winning_tile);

        assert!(wait_types.contains(&WaitType::Kanchan));
    }

#[test]
    fn test_multiple_wait_types() {
        // A hand where the winning tile could be interpreted multiple ways
        // 111m 123m 456p 789s 22z - won on 1m
        // Could be: shanpon (completing 111) or ryanmen (completing 123 from 23)
        let tiles = parse_hand("111123m456p789s22z").unwrap();
        let counts = to_counts(&tiles);
        let structures = decompose_hand(&counts);

        let winning_tile = Tile::suited(Suit::Man, 1);

        // Check that at least one structure has multiple wait interpretations
        let has_multiple_waits = structures.iter().any(|structure| {
            let wait_types = detect_wait_types(structure, winning_tile);
            wait_types.len() > 1
        });

        // At minimum, there should be structures with different wait types
        assert!(!structures.is_empty());
        // The hand 111123m should allow multiple wait interpretations for 1m
        assert!(
            has_multiple_waits,
            "Should find structure with multiple wait types"
        );
    }

#[test]
    fn test_chiitoitsu_always_tanki() {
        let tiles = parse_hand("1122m3344p5566s77z").unwrap();
        let counts = to_counts(&tiles);
        let structures = decompose_hand(&counts);

        // Find the chiitoitsu structure
        let chiitoi = structures
            .iter()
            .find(|s| matches!(s, HandStructure::Chiitoitsu { .. }))
            .expect("Should have chiitoitsu structure");

        let winning_tile = Tile::honor(Honor::Red); // 7z
        let wait_types = detect_wait_types(chiitoi, winning_tile);

        assert_eq!(wait_types, vec![WaitType::Tanki]);
    }

#[test]
    fn wait_test_pinfu_basic() {
        // All sequences, non-yakuhai pair, ryanmen wait
        // 123m 456m 789p 234s 55s - won on 3s (ryanmen from 24s... no wait)
        // Better: 123m 456m 789p 234s 55p - won on 4s (from 23s wait - ryanmen)
        let tiles = parse_hand("123456m789p234s55p").unwrap();
        let counts = to_counts(&tiles);
        let structures = decompose_hand(&counts);

        let context = GameContext::new(WinType::Tsumo, Honor::East, Honor::South);
        let winning_tile = Tile::suited(Suit::Sou, 4); // Ryanmen from 23s

        let has_pinfu = structures
            .iter()
            .any(|s| is_pinfu(s, winning_tile, &context));

        assert!(has_pinfu, "Should qualify for pinfu");
    }

#[test]
    fn wait_test_pinfu_fails_with_triplet() {
        // Has a triplet, can't be pinfu
        let tiles = parse_hand("123m456p789s11155z").unwrap();
        let counts = to_counts(&tiles);
        let structures = decompose_hand(&counts);

        let context = GameContext::new(WinType::Tsumo, Honor::East, Honor::South);
        let winning_tile = Tile::honor(Honor::White);

        let has_pinfu = structures
            .iter()
            .any(|s| is_pinfu(s, winning_tile, &context));

        assert!(!has_pinfu, "Triplet hand can't be pinfu");
    }

#[test]
    fn test_pinfu_fails_with_yakuhai_pair() {
        // Dragon pair = yakuhai pair, not pinfu
        let tiles = parse_hand("123m456m789p234s55z").unwrap();
        let counts = to_counts(&tiles);
        let structures = decompose_hand(&counts);

        let context = GameContext::new(WinType::Tsumo, Honor::East, Honor::South);
        let winning_tile = Tile::suited(Suit::Sou, 4);

        let has_pinfu = structures
            .iter()
            .any(|s| is_pinfu(s, winning_tile, &context));

        assert!(!has_pinfu, "Yakuhai pair (dragon) means no pinfu");
    }

#[test]
    fn wait_test_pinfu_fails_with_value_wind_pair() {
        // Seat wind pair = yakuhai pair, not pinfu
        let tiles = parse_hand("123m456m789p234s22z").unwrap();
        let counts = to_counts(&tiles);
        let structures = decompose_hand(&counts);

        // South is seat wind, so 2z (south) pair is yakuhai
        let context = GameContext::new(WinType::Tsumo, Honor::East, Honor::South);
        let winning_tile = Tile::suited(Suit::Sou, 4);

        let has_pinfu = structures
            .iter()
            .any(|s| is_pinfu(s, winning_tile, &context));

        assert!(!has_pinfu, "Value wind pair means no pinfu");
    }

#[test]
    fn wait_test_pinfu_ok_with_non_value_wind_pair() {
        // West wind pair when seat is South, round is East = not yakuhai
        let tiles = parse_hand("123m456m789p234s33z").unwrap();
        let counts = to_counts(&tiles);
        let structures = decompose_hand(&counts);

        let context = GameContext::new(WinType::Tsumo, Honor::East, Honor::South);
        let winning_tile = Tile::suited(Suit::Sou, 4); // Ryanmen

        let has_pinfu = structures
            .iter()
            .any(|s| is_pinfu(s, winning_tile, &context));

        assert!(has_pinfu, "Non-value wind pair allows pinfu");
    }

#[test]
    fn wait_test_pinfu_fails_with_kanchan_wait() {
        // All sequences, good pair, but kanchan wait
        let tiles = parse_hand("123m456m789p234s55p").unwrap();
        let counts = to_counts(&tiles);
        let structures = decompose_hand(&counts);

        let context = GameContext::new(WinType::Tsumo, Honor::East, Honor::South);
        let winning_tile = Tile::suited(Suit::Sou, 3); // Kanchan from 24s

        let has_pinfu = structures
            .iter()
            .any(|s| is_pinfu(s, winning_tile, &context));

        assert!(!has_pinfu, "Kanchan wait means no pinfu");
    }

#[test]
    fn wait_test_pinfu_fails_when_open() {
        let tiles = parse_hand("123m456m789p234s55p").unwrap();
        let counts = to_counts(&tiles);
        let structures = decompose_hand(&counts);

        let context = GameContext::new(WinType::Tsumo, Honor::East, Honor::South).open(); // Open hand!
        let winning_tile = Tile::suited(Suit::Sou, 4);

        let has_pinfu = structures
            .iter()
            .any(|s| is_pinfu(s, winning_tile, &context));

        assert!(!has_pinfu, "Open hand can't be pinfu");
    }

#[test]
    fn test_best_wait_prefers_ryanmen() {
        // Hand where winning tile has multiple interpretations
        let tiles = parse_hand("111123m456p789s22z").unwrap();
        let counts = to_counts(&tiles);
        let structures = decompose_hand(&counts);

        let winning_tile = Tile::suited(Suit::Man, 1);

        // For structures where multiple waits exist, best should be ryanmen (0 fu)
        for structure in &structures {
            if let Some(best) = best_wait_type(structure, winning_tile) {
                // If ryanmen is available, it should be chosen
                let all_waits = detect_wait_types(structure, winning_tile);
                if all_waits.contains(&WaitType::Ryanmen) {
                    assert_eq!(best, WaitType::Ryanmen);
                }
            }
        }
    }
