use agari::hand::{decompose_hand, is_chiitoitsu, is_standard_hand, is_winning_hand, HandStructure, KanType, Meld};
use agari::parse::{parse_hand, to_counts};
use agari::tile::{Honor, Suit, Tile};


#[test]
    fn hand_test_chiitoitsu() {
        let tiles = parse_hand("1122m3344p5566s77z").unwrap();
        let counts = to_counts(&tiles);
        assert!(is_chiitoitsu(&counts));
        assert!(is_winning_hand(&counts));
    }

#[test]
    fn test_not_chiitoitsu_four_of_kind() {
        let tiles = parse_hand("1111m22m33p44p55s66s").unwrap();
        let counts = to_counts(&tiles);
        assert!(!is_chiitoitsu(&counts));
    }

#[test]
    fn test_standard_hand() {
        let tiles = parse_hand("123m456p789s11122z").unwrap();
        let counts = to_counts(&tiles);
        assert!(is_standard_hand(&counts));
        assert!(is_winning_hand(&counts));
    }

#[test]
    fn test_all_triplets() {
        let tiles = parse_hand("111m222p333s44455z").unwrap();
        let counts = to_counts(&tiles);
        assert!(is_standard_hand(&counts));
    }

#[test]
    fn test_invalid_hand() {
        let tiles = parse_hand("1234m5678p9s123z").unwrap();
        let counts = to_counts(&tiles);
        assert!(!is_winning_hand(&counts));
    }

#[test]
    fn test_pinfu_shape() {
        let tiles = parse_hand("123456m789p234s55z").unwrap();
        let counts = to_counts(&tiles);
        assert!(is_standard_hand(&counts));
    }

#[test]
    fn test_decompose_simple_hand() {
        // 123m 456p 789s 111z 22z - only one way to decompose
        let tiles = parse_hand("123m456p789s11122z").unwrap();
        let counts = to_counts(&tiles);
        let results = decompose_hand(&counts);

        assert_eq!(results.len(), 1);
        match &results[0] {
            HandStructure::Standard { melds, pair } => {
                assert_eq!(melds.len(), 4);
                assert_eq!(*pair, Tile::honor(Honor::South));
            }
            _ => panic!("Expected standard hand"),
        }
    }

#[test]
    fn test_decompose_chiitoitsu() {
        let tiles = parse_hand("1122m3344p5566s77z").unwrap();
        let counts = to_counts(&tiles);
        let results = decompose_hand(&counts);

        assert_eq!(results.len(), 1);
        match &results[0] {
            HandStructure::Chiitoitsu { pairs } => {
                assert_eq!(pairs.len(), 7);
            }
            _ => panic!("Expected chiitoitsu"),
        }
    }

#[test]
    fn test_decompose_multiple_structures() {
        // 111222333m 111z 55z
        // Can be: (111 + 222 + 333) or (123 + 123 + 123) for the man tiles
        let tiles = parse_hand("111222333m11155z").unwrap();
        let counts = to_counts(&tiles);
        let results = decompose_hand(&counts);

        // Should find at least 2 different decompositions
        assert!(
            results.len() >= 2,
            "Expected multiple decompositions, got {}",
            results.len()
        );

        // Verify we have both all-triplet and all-sequence versions
        let has_all_triplets = results.iter().any(|r| match r {
            HandStructure::Standard { melds, .. } => {
                melds.iter().filter(|m| m.is_triplet_or_kan()).count() == 4
            }
            _ => false,
        });

        let has_sequences = results.iter().any(|r| match r {
            HandStructure::Standard { melds, .. } => melds.iter().any(|m| m.is_sequence()),
            _ => false,
        });

        assert!(has_all_triplets, "Should find all-triplet decomposition");
        assert!(has_sequences, "Should find sequence decomposition");
    }

#[test]
    fn test_decompose_iipeikou_shape() {
        // 112233m 456p 789s 55z - has two identical sequences
        let tiles = parse_hand("112233m456p789s55z").unwrap();
        let counts = to_counts(&tiles);
        let results = decompose_hand(&counts);

        assert!(!results.is_empty());

        // Should have a decomposition with two 123m shuntsu
        let has_iipeikou = results.iter().any(|r| match r {
            HandStructure::Standard { melds, .. } => {
                let seq_count = melds
                    .iter()
                    .filter(|m| *m == &Meld::shuntsu(Tile::suited(Suit::Man, 1)))
                    .count();
                seq_count == 2
            }
            _ => false,
        });

        assert!(
            has_iipeikou,
            "Should find iipeikou (two identical sequences)"
        );
    }

#[test]
    fn test_decompose_invalid_hand() {
        let tiles = parse_hand("1234m5678p9s12355z").unwrap();
        let counts = to_counts(&tiles);
        let results = decompose_hand(&counts);

        assert!(
            results.is_empty(),
            "Invalid hand should have no decompositions"
        );
    }

#[test]
    fn test_meld_constructors() {
        // Test closed melds
        let closed_shuntsu = Meld::shuntsu(Tile::suited(Suit::Man, 1));
        assert!(!closed_shuntsu.is_open());
        assert!(closed_shuntsu.is_sequence());
        assert!(!closed_shuntsu.is_triplet_or_kan());

        let closed_koutsu = Meld::koutsu(Tile::suited(Suit::Pin, 5));
        assert!(!closed_koutsu.is_open());
        assert!(closed_koutsu.is_triplet_or_kan());
        assert!(!closed_koutsu.is_sequence());

        // Test open melds
        let open_shuntsu = Meld::shuntsu_open(Tile::suited(Suit::Sou, 2));
        assert!(open_shuntsu.is_open());

        let open_koutsu = Meld::koutsu_open(Tile::honor(Honor::East));
        assert!(open_koutsu.is_open());
    }

#[test]
    fn test_kan_types() {
        // Closed kan (ankan)
        let closed_kan = Meld::kan(Tile::suited(Suit::Man, 1), KanType::Closed);
        assert!(!closed_kan.is_open());
        assert!(closed_kan.is_triplet_or_kan());
        assert!(closed_kan.is_concealed());

        // Open kan (daiminkan)
        let open_kan = Meld::kan(Tile::suited(Suit::Pin, 9), KanType::Open);
        assert!(open_kan.is_open());
        assert!(open_kan.is_triplet_or_kan());
        assert!(!open_kan.is_concealed());

        // Added kan (shouminkan)
        let added_kan = Meld::kan(Tile::honor(Honor::White), KanType::Added);
        assert!(added_kan.is_open());
        assert!(added_kan.is_triplet_or_kan());
    }

#[test]
    fn test_meld_tile() {
        let shuntsu = Meld::shuntsu(Tile::suited(Suit::Man, 3));
        assert_eq!(shuntsu.tile(), Tile::suited(Suit::Man, 3));

        let koutsu = Meld::koutsu(Tile::honor(Honor::Red));
        assert_eq!(koutsu.tile(), Tile::honor(Honor::Red));

        let kan = Meld::kan(Tile::suited(Suit::Sou, 7), KanType::Closed);
        assert_eq!(kan.tile(), Tile::suited(Suit::Sou, 7));
    }

#[test]
    fn test_kan_type_is_open() {
        assert!(!KanType::Closed.is_open());
        assert!(KanType::Open.is_open());
        assert!(KanType::Added.is_open());
    }
