use agari::parse::{parse_hand, parse_hand_with_aka, to_counts};
use agari::shanten::{calculate_shanten, calculate_ukeire, calculate_ukeire_with_melds, calculate_shanten_with_melds, extract_melds_sequences_first, ShantenType};
use agari::tile::{index_to_tile, tile_to_index, Honor, Suit, Tile};


fn shanten(hand: &str) -> i8 {
        let tiles = parse_hand(hand).unwrap();
        let counts = to_counts(&tiles);
        calculate_shanten(&counts).shanten
    }

fn shanten_type(hand: &str) -> ShantenType {
        let tiles = parse_hand(hand).unwrap();
        let counts = to_counts(&tiles);
        calculate_shanten(&counts).best_type
    }

#[test]
    fn test_complete_standard_hand() {
        // 123m 456p 789s 111z 22z - complete hand
        assert_eq!(shanten("123m456p789s11122z"), -1);
    }

#[test]
    fn test_complete_chiitoitsu() {
        // Seven pairs - complete
        assert_eq!(shanten("1122m3344p5566s77z"), -1);
    }

#[test]
    fn test_complete_kokushi() {
        // Thirteen orphans with pair on 1m
        assert_eq!(shanten("19m19p19s12345677z"), -1);
    }

#[test]
    fn test_tenpai_standard() {
        // 123m 456p 789s 111z 2z - waiting on 2z
        assert_eq!(shanten("123m456p789s1112z"), 0);
    }

#[test]
    fn test_tenpai_chiitoitsu() {
        // Six pairs + one single - waiting on pair
        assert_eq!(shanten("1122m3344p5566s7z"), 0);
    }

#[test]
    fn test_tenpai_kokushi() {
        // 12 different terminals + 1 pair, waiting on 13th
        assert_eq!(shanten("19m19p19s1234567z"), 0);
    }

#[test]
    fn test_iishanten_standard() {
        // Almost complete, needs 2 tiles
        assert_eq!(shanten("123m456p789s112z"), 1);
    }

#[test]
    fn test_iishanten_chiitoitsu() {
        // Five pairs + two singles
        assert_eq!(shanten("1122m3344p5566s"), 1);
    }

#[test]
    fn test_high_shanten() {
        // Very disconnected hand
        assert!(shanten("1379m1379p1379s1z") >= 4);
    }

#[test]
    fn test_multi_shanten() {
        // Hand with some structure but very scattered
        // 123m is one meld, but rest is very disconnected
        let s = shanten("123m147p258s12345z");
        // High shanten due to scattered tiles
        assert!(
            (3..=7).contains(&s),
            "Expected shanten between 3 and 7, got {}",
            s
        );

        // A more connected hand should have lower shanten
        let s2 = shanten("123m456p789s11234z");
        assert!(
            s2 <= 3,
            "Expected shanten <= 3 for connected hand, got {}",
            s2
        );
    }

#[test]
    fn test_best_type_standard() {
        // Standard hand shape
        assert_eq!(shanten_type("123m456p789s1112z"), ShantenType::Standard);
    }

#[test]
    fn test_best_type_chiitoitsu() {
        // Seven pairs shape
        assert_eq!(shanten_type("1122m3344p5566s7z"), ShantenType::Chiitoitsu);
    }

#[test]
    fn test_best_type_kokushi() {
        // Kokushi shape
        assert_eq!(shanten_type("19m19p19s1234567z"), ShantenType::Kokushi);
    }

#[test]
    fn test_ukeire_tenpai() {
        // Tenpai hand waiting on specific tiles
        let tiles = parse_hand("123m456p789s1112z").unwrap();
        let counts = to_counts(&tiles);
        let ukeire = calculate_ukeire(&counts);

        assert_eq!(ukeire.shanten, 0);
        assert!(!ukeire.tiles.is_empty());
    }

#[test]
    fn test_ukeire_iishanten() {
        // Iishanten has multiple improving tiles
        let tiles = parse_hand("123m456p789s112z").unwrap();
        let counts = to_counts(&tiles);
        let ukeire = calculate_ukeire(&counts);

        assert_eq!(ukeire.shanten, 1);
        assert!(ukeire.total_count > 0);
    }

#[test]
    fn test_ukeire_complete_hand() {
        // Complete hand has no improving tiles (already best)
        let tiles = parse_hand("123m456p789s11122z").unwrap();
        let counts = to_counts(&tiles);
        let ukeire = calculate_ukeire(&counts);

        assert_eq!(ukeire.shanten, -1);
        // No tiles improve a complete hand
        assert!(ukeire.tiles.is_empty());
    }

#[test]
    fn test_ukeire_with_called_pon_tenpai() {
        // 23678p234567s with called pon of 2z - tenpai
        // Hand tiles: 2,3,6,7,8p + 2,3,4,5,6,7s (11 tiles)
        // Called: (222z) = 1 meld
        // Should be waiting on 1p/4p (shanpon or sequence wait)
        let parsed = parse_hand_with_aka("23678p234567s(222z)").unwrap();
        let counts = to_counts(&parsed.tiles);
        let called_melds = parsed.called_melds.len() as u8;

        let ukeire = calculate_ukeire_with_melds(&counts, called_melds);

        assert_eq!(ukeire.shanten, 0, "Hand should be tenpai");
        // A tenpai hand with called melds should have very few waits, not 34
        assert!(
            ukeire.tiles.len() <= 5,
            "Tenpai hand should have at most a few waits, got {}",
            ukeire.tiles.len()
        );
        assert!(
            ukeire.total_count <= 20,
            "Total accepting tiles should be reasonable, got {}",
            ukeire.total_count
        );
    }

#[test]
    fn test_ukeire_with_two_called_melds_iishanten() {
        // 234568m with called chi 789p and called pon of white dragons
        // Hand tiles: 2,3,4,5,6,8m (6 tiles, since 2 called melds = 6 tiles consumed)
        // Should have a reasonable number of improving tiles, not 34
        let parsed = parse_hand_with_aka("234568m(789p)(whwhwh)").unwrap();
        let counts = to_counts(&parsed.tiles);
        let called_melds = parsed.called_melds.len() as u8;

        let ukeire = calculate_ukeire_with_melds(&counts, called_melds);

        assert_eq!(ukeire.shanten, 1, "Hand should be iishanten");
        assert!(
            ukeire.tiles.len() <= 10,
            "Iishanten hand with 2 called melds should have limited waits, got {}",
            ukeire.tiles.len()
        );
        assert!(
            ukeire.total_count <= 40,
            "Total accepting tiles should be reasonable, got {}",
            ukeire.total_count
        );
    }

#[test]
    fn test_ukeire_without_melds_matches_original() {
        // Verify calculate_ukeire_with_melds(counts, 0) matches calculate_ukeire(counts)
        let tiles = parse_hand("123m456p789s1112z").unwrap();
        let counts = to_counts(&tiles);

        let ukeire_original = calculate_ukeire(&counts);
        let ukeire_with_melds = calculate_ukeire_with_melds(&counts, 0);

        assert_eq!(ukeire_original.shanten, ukeire_with_melds.shanten);
        assert_eq!(ukeire_original.tiles.len(), ukeire_with_melds.tiles.len());
        assert_eq!(ukeire_original.total_count, ukeire_with_melds.total_count);
    }

#[test]
    fn test_ukeire_called_melds_vs_no_melds_differ() {
        // The same tile counts should give different ukeire results
        // when called_melds is 0 vs > 0
        let parsed = parse_hand_with_aka("23678p234567s(222z)").unwrap();
        let counts = to_counts(&parsed.tiles);
        let called_melds = parsed.called_melds.len() as u8;

        let ukeire_correct = calculate_ukeire_with_melds(&counts, called_melds);
        let ukeire_wrong = calculate_ukeire_with_melds(&counts, 0);

        // With 0 called melds, 11 tiles can't form 4 melds + pair,
        // so shanten will be higher and many more tiles "improve" the hand
        assert!(
            ukeire_wrong.tiles.len() > ukeire_correct.tiles.len(),
            "Ignoring called melds should produce more (incorrect) accepting tiles: wrong={}, correct={}",
            ukeire_wrong.tiles.len(),
            ukeire_correct.tiles.len()
        );
    }

#[test]
    fn test_tile_index_roundtrip() {
        // Verify all tiles convert correctly
        for idx in 0..34 {
            let tile = index_to_tile(idx);
            let back = tile_to_index(tile);
            assert_eq!(
                idx, back,
                "Tile {:?} at index {} converted back to {}",
                tile, idx, back
            );
        }
    }

#[test]
    fn test_specific_tile_indices() {
        assert_eq!(tile_to_index(Tile::suited(Suit::Man, 1)), 0);
        assert_eq!(tile_to_index(Tile::suited(Suit::Man, 9)), 8);
        assert_eq!(tile_to_index(Tile::suited(Suit::Pin, 1)), 9);
        assert_eq!(tile_to_index(Tile::suited(Suit::Sou, 1)), 18);
        assert_eq!(tile_to_index(Tile::honor(Honor::East)), 27);
        assert_eq!(tile_to_index(Tile::honor(Honor::Red)), 33);
    }

#[test]
    fn test_sequences_first_then_triplet_extraction() {
        // Regression test: ensure triplets are correctly extracted after sequences
        // Hand: 233344455666m1p (13 tiles)
        // Optimal decomposition: 234m + 345m + 345m + 666m = 4 melds, waiting for 1p pair
        // This should be tenpai (shanten = 0)
        //
        // The sequences-first algorithm should:
        // 1. Extract sequences: 234m, 345m, 345m (3 melds)
        // 2. Extract remaining triplet: 666m (1 meld)
        // Total: 4 melds
        //
        // If triplet extraction incorrectly uses `> 3` instead of `>= 3`,
        // it will fail to extract the 666m triplet, giving only 3 melds
        // and incorrectly reporting shanten = 1 instead of 0.
        assert_eq!(
            shanten("233344455666m1p"),
            0,
            "Hand 233344455666m1p should be tenpai (shanten=0), not iishanten"
        );
    }

#[test]
    fn test_extract_melds_sequences_first_with_remaining_triplet() {
        // Direct test of the internal meld extraction logic
        // Input: 2(x1), 3(x3), 4(x3), 5(x2), 6(x3) in manzu
        // After extracting sequences 234, 345, 345, we should have 6(x3) left
        // which should be extracted as a triplet
        let mut tiles = vec![0u8; 34];
        tiles[1] = 1; // 2m
        tiles[2] = 3; // 3m
        tiles[3] = 3; // 4m
        tiles[4] = 2; // 5m
        tiles[5] = 3; // 6m

        let (melds, remaining) = extract_melds_sequences_first(&tiles, 0);

        assert_eq!(
            melds, 4,
            "Should extract 4 melds (3 sequences + 1 triplet), got {}",
            melds
        );
        assert_eq!(
            remaining[5], 0,
            "All 6m tiles should be extracted as triplet, but {} remain",
            remaining[5]
        );
    }
