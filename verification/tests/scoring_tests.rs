use agari::context::{GameContext, WinType};
use agari::hand::{decompose_hand, HandStructure};
use agari::parse::{parse_hand, to_counts};
use agari::scoring::{calculate_basic_points, calculate_fu, calculate_payment, calculate_score, determine_score_level, format_score, meld_fu, round_up_to_10, ScoreLevel, ScoringResult};
use agari::tile::{Honor, Suit, Tile};
use agari::yaku::detect_yaku_with_context;
use agari::hand::decompose_hand_with_melds;
use agari::hand::{KanType, Meld};
use agari::parse::parse_hand_with_aka;


fn score_hand(hand: &str, context: &GameContext) -> Vec<ScoringResult> {
        let tiles = parse_hand(hand).unwrap();
        let counts = to_counts(&tiles);
        let structures = decompose_hand(&counts);

        structures
            .iter()
            .map(|s| {
                let yaku_result = detect_yaku_with_context(s, &counts, context);
                calculate_score(s, &yaku_result, context)
            })
            .collect()
    }

fn best_score(results: &[ScoringResult]) -> &ScoringResult {
        results
            .iter()
            .max_by(|a, b| {
                a.payment
                    .total
                    .cmp(&b.payment.total)
                    .then_with(|| a.han.cmp(&b.han))
                    .then_with(|| b.fu.total.cmp(&a.fu.total))
            })
            .unwrap()
    }

#[test]
    fn scoring_test_fu_chiitoitsu() {
        // Chiitoitsu is always 25 fu
        let tiles = parse_hand("1122m3344p5566s77z").unwrap();
        let counts = to_counts(&tiles);
        let structures = decompose_hand(&counts);

        let chiitoi = structures
            .iter()
            .find(|s| matches!(s, HandStructure::Chiitoitsu { .. }))
            .unwrap();

        let context = GameContext::new(WinType::Tsumo, Honor::East, Honor::South);
        let fu = calculate_fu(chiitoi, &context);

        assert_eq!(fu.total, 25);
    }

#[test]
    fn scoring_test_fu_pinfu_tsumo() {
        // Pinfu + Tsumo = exactly 20 fu
        let context = GameContext::new(WinType::Tsumo, Honor::East, Honor::South)
            .with_winning_tile(Tile::suited(Suit::Sou, 4)); // Ryanmen wait

        let tiles = parse_hand("123456m789p234s55p").unwrap();
        let counts = to_counts(&tiles);
        let structures = decompose_hand(&counts);

        // Find a structure that qualifies for pinfu
        let fu_results: Vec<_> = structures
            .iter()
            .map(|s| calculate_fu(s, &context))
            .collect();

        // At least one should be 20 fu (pinfu tsumo)
        assert!(fu_results.iter().any(|f| f.total == 20));
    }

#[test]
    fn scoring_test_fu_menzen_ron() {
        // Closed hand ron = +10 fu
        let context = GameContext::new(WinType::Ron, Honor::East, Honor::South)
            .with_winning_tile(Tile::suited(Suit::Man, 4));

        let tiles = parse_hand("234m456p789s11122z").unwrap();
        let counts = to_counts(&tiles);
        let structures = decompose_hand(&counts);

        let fu = calculate_fu(&structures[0], &context);

        // Base 20 + Menzen Ron 10 + triplet fu = at least 30
        assert!(fu.total >= 30);
        assert_eq!(fu.breakdown.menzen_ron, 10);
    }

#[test]
    fn scoring_test_fu_tsumo_bonus() {
        // Tsumo = +2 fu (non-pinfu hand)
        let context = GameContext::new(WinType::Tsumo, Honor::East, Honor::South)
            .with_winning_tile(Tile::honor(Honor::East));

        let tiles = parse_hand("123m456p789s11122z").unwrap();
        let counts = to_counts(&tiles);
        let structures = decompose_hand(&counts);

        let fu = calculate_fu(&structures[0], &context);

        assert_eq!(fu.breakdown.tsumo, 2);
    }

#[test]
    fn scoring_test_fu_triplet_simple_open() {
        // Open triplet of simples = 2 fu
        let context = GameContext::new(WinType::Ron, Honor::East, Honor::South)
            .open()
            .with_winning_tile(Tile::suited(Suit::Man, 5));

        // 555m (simple triplet) + sequences
        let tiles = parse_hand("555m456p789s11122z").unwrap();
        let counts = to_counts(&tiles);
        let structures = decompose_hand(&counts);

        let fu = calculate_fu(&structures[0], &context);

        // Should have 2 fu from the simple triplet (open)
        // Plus 8 fu from terminal/honor triplet (111z, but this is closed...
        // Wait, in an open hand, are the non-called melds closed?
        // Yes! Only the called melds are open. But for simplicity we're treating
        // all melds as having the same open/closed status as the hand.
        // This is a simplification - proper implementation would track each meld.
        assert!(fu.breakdown.melds >= 2);
    }

#[test]
    fn scoring_test_fu_triplet_terminal_closed() {
        // Closed triplet of terminals = 8 fu
        let context = GameContext::new(WinType::Tsumo, Honor::East, Honor::South)
            .with_winning_tile(Tile::suited(Suit::Man, 2));

        // 111m (terminal triplet, closed) + sequences
        let tiles = parse_hand("111234m456p789s22z").unwrap();
        let counts = to_counts(&tiles);
        let structures = decompose_hand(&counts);

        let fu = calculate_fu(&structures[0], &context);

        // Closed terminal triplet = 8 fu
        assert!(fu.breakdown.melds >= 8);
    }

#[test]
    fn scoring_test_fu_yakuhai_pair() {
        // Dragon pair = 2 fu
        let context = GameContext::new(WinType::Ron, Honor::East, Honor::South)
            .with_winning_tile(Tile::suited(Suit::Man, 4));

        // 234m 456p 789s 111z 55z - pair of white dragons (5z)
        let tiles = parse_hand("234m456p789s11155z").unwrap();
        let counts = to_counts(&tiles);
        let structures = decompose_hand(&counts);

        assert!(!structures.is_empty(), "Should have valid decomposition");
        let fu = calculate_fu(&structures[0], &context);

        assert_eq!(fu.breakdown.pair, 2);
    }

#[test]
    fn scoring_test_fu_double_wind_pair() {
        // Pair of double wind (both round and seat) = 4 fu
        let context = GameContext::new(WinType::Ron, Honor::East, Honor::East)
            .with_winning_tile(Tile::suited(Suit::Man, 4));

        // 234m 456p 789s 222z 11z - pair of east (both round and seat wind)
        let tiles = parse_hand("234m456p789s22211z").unwrap();
        let counts = to_counts(&tiles);
        let structures = decompose_hand(&counts);

        assert!(!structures.is_empty(), "Should have valid decomposition");
        let fu = calculate_fu(&structures[0], &context);

        // Double wind = 4 fu (2 for round wind + 2 for seat wind)
        assert_eq!(fu.breakdown.pair, 4);
    }

#[test]
    fn scoring_test_fu_wait_kanchan() {
        // Kanchan wait = 2 fu
        let context = GameContext::new(WinType::Ron, Honor::East, Honor::South)
            .with_winning_tile(Tile::suited(Suit::Man, 3)); // Middle of 234

        let tiles = parse_hand("234m456p789s11122z").unwrap();
        let counts = to_counts(&tiles);
        let structures = decompose_hand(&counts);

        let fu = calculate_fu(&structures[0], &context);

        assert_eq!(fu.breakdown.wait, 2);
    }

#[test]
    fn scoring_test_fu_ron_completed_triplet_simple() {
        // When winning by ron on a shanpon wait, the triplet completed by
        // the winning tile should be treated as "open" for fu purposes.
        // Simple triplet completed by ron = 2 fu (not 4 fu)

        // Hand: 222m 678m 444p 666p 11z - shanpon wait on 2m/1z
        // Winning on 2m by ron
        // Note: Using West round wind so the East (1z) pair doesn't add fu
        let context = GameContext::new(WinType::Ron, Honor::West, Honor::South)
            .with_winning_tile(Tile::suited(Suit::Man, 2));

        let tiles = parse_hand("222678m444666p11z").unwrap();
        let counts = to_counts(&tiles);
        let structures = decompose_hand(&counts);

        let fu = calculate_fu(&structures[0], &context);

        // 222m completed by ron = 2 fu (open)
        // 444p closed = 4 fu
        // 666p closed = 4 fu
        // 11z pair = 0 fu (not yakuhai since round=West, seat=South)
        // Base 20 + Menzen Ron 10 + melds (2+4+4) = 40 fu
        assert_eq!(fu.breakdown.melds, 10); // 2 + 4 + 4
        assert_eq!(fu.breakdown.pair, 0);
        assert_eq!(fu.total, 40);
    }

#[test]
    fn scoring_test_fu_ron_completed_triplet_honor() {
        // Honor triplet completed by ron = 4 fu (not 8 fu)

        // Hand: 66p 456s 444z with open melds (222s) (555z)
        // Winning on 4z (North) by ron

        let parsed = parse_hand_with_aka("66p456s444z(222s)(555z)").unwrap();
        let counts = to_counts(&parsed.tiles);
        let called_melds: Vec<_> = parsed
            .called_melds
            .iter()
            .map(|cm| cm.meld.clone())
            .collect();
        let structures = decompose_hand_with_melds(&counts, &called_melds);

        let context = GameContext::new(WinType::Ron, Honor::South, Honor::South)
            .open()
            .with_winning_tile(Tile::honor(Honor::North));

        let fu = calculate_fu(&structures[0], &context);

        // (222s) open simple = 2 fu
        // (555z) open honor = 4 fu
        // 444z completed by ron = 4 fu (open honor, not 8 fu closed)
        // Base 20 + melds (2+4+4) = 30 fu
        assert_eq!(fu.breakdown.melds, 10); // 2 + 4 + 4
        assert_eq!(fu.total, 30);
    }

#[test]
    fn scoring_test_fu_tsumo_triplet_stays_closed() {
        // When winning by tsumo, triplets should remain closed
        // Simple triplet by tsumo = 4 fu (closed)

        let context = GameContext::new(WinType::Tsumo, Honor::East, Honor::South)
            .with_winning_tile(Tile::suited(Suit::Man, 2));

        let tiles = parse_hand("222678m444666p11z").unwrap();
        let counts = to_counts(&tiles);
        let structures = decompose_hand(&counts);

        let fu = calculate_fu(&structures[0], &context);

        // 222m by tsumo = 4 fu (closed)
        // 444p closed = 4 fu
        // 666p closed = 4 fu
        // Base 20 + Tsumo 2 + melds (4+4+4) = 34 → 40 fu
        assert_eq!(fu.breakdown.melds, 12); // 4 + 4 + 4
        assert_eq!(fu.total, 40);
    }

#[test]
    fn scoring_test_fu_nobetan_triplet_stays_closed() {
        // Nobetan pattern: 11123 waiting on 1 or 4
        // When winning on 1 by ron, the triplet 111 should remain CLOSED
        // because the 1 also appears in the sequence 123 (not a true shanpon).
        //
        // Hand: 99m 111123p 789s (222z) - won on 1p by ron
        // This is the exact case from the Tenhou validation mismatch.

        let parsed = parse_hand_with_aka("99m111123p789s(222z)").unwrap();
        let counts = to_counts(&parsed.tiles);
        let called_melds: Vec<_> = parsed
            .called_melds
            .iter()
            .map(|cm| cm.meld.clone())
            .collect();
        let structures = decompose_hand_with_melds(&counts, &called_melds);

        // Round wind South, Seat wind North - (222z) is South = yakuhai
        let context = GameContext::new(WinType::Ron, Honor::South, Honor::North)
            .open()
            .with_winning_tile(Tile::suited(Suit::Pin, 1));

        let fu = calculate_fu(&structures[0], &context);

        // 111p is NOT a true shanpon (1p also in 123p sequence) = 8 fu (closed terminal)
        // (222z) open honor = 4 fu
        // Base 20 + melds (8+4) = 32 → 40 fu
        assert_eq!(fu.breakdown.melds, 12); // 8 + 4
        assert_eq!(fu.total, 40);
    }

#[test]
    fn test_fu_nobetan_open_sequence_does_not_count() {
        // When the winning tile appears in an OPEN (called) sequence,
        // that should NOT trigger the nobetan exception.
        // Open sequences were completed before the wait was established.
        //
        // Hand: 99m 111p 456s 789s (123p) - ron on 1p
        // The 1p appears in both 111p triplet AND (123p) open chi.
        // But since (123p) is open, it doesn't count as nobetan.
        // The 111p triplet should be treated as "opened by ron" (shanpon wait).

        let parsed = parse_hand_with_aka("99m111p456s789s(123p)").unwrap();
        let counts = to_counts(&parsed.tiles);
        let called_melds: Vec<_> = parsed
            .called_melds
            .iter()
            .map(|cm| cm.meld.clone())
            .collect();
        let structures = decompose_hand_with_melds(&counts, &called_melds);

        let context = GameContext::new(WinType::Ron, Honor::East, Honor::East)
            .open()
            .with_winning_tile(Tile::suited(Suit::Pin, 1));

        let fu = calculate_fu(&structures[0], &context);

        // 111p is a TRUE shanpon (open 123p doesn't count) = 4 fu (open terminal)
        // (123p) open sequence = 0 fu
        // 456s closed sequence = 0 fu
        // 789s closed sequence = 0 fu
        // 99m pair = 0 fu
        // Base 20 + melds 4 = 24 → 30 fu
        assert_eq!(fu.breakdown.melds, 4); // 111p open terminal triplet = 4 fu
        assert_eq!(fu.total, 30);
    }

#[test]
    fn scoring_test_fu_rounding() {
        // Fu should round up to nearest 10
        assert_eq!(round_up_to_10(22), 30);
        assert_eq!(round_up_to_10(30), 30);
        assert_eq!(round_up_to_10(31), 40);
        assert_eq!(round_up_to_10(25), 30); // But chiitoitsu stays 25
    }

#[test]
    fn scoring_test_fu_kan_simple_open() {

        // Open kan of simples = 8 fu
        let kan = Meld::kan(Tile::suited(Suit::Man, 5), KanType::Open);
        assert_eq!(meld_fu(&kan), 8);

        // Added kan (shouminkan) is also open = 8 fu
        let added_kan = Meld::kan(Tile::suited(Suit::Pin, 3), KanType::Added);
        assert_eq!(meld_fu(&added_kan), 8);
    }

#[test]
    fn scoring_test_fu_kan_simple_closed() {

        // Closed kan of simples = 16 fu
        let kan = Meld::kan(Tile::suited(Suit::Sou, 7), KanType::Closed);
        assert_eq!(meld_fu(&kan), 16);
    }

#[test]
    fn scoring_test_fu_kan_terminal_open() {

        // Open kan of terminals = 16 fu
        let kan = Meld::kan(Tile::suited(Suit::Man, 1), KanType::Open);
        assert_eq!(meld_fu(&kan), 16);

        let kan_9 = Meld::kan(Tile::suited(Suit::Pin, 9), KanType::Added);
        assert_eq!(meld_fu(&kan_9), 16);
    }

#[test]
    fn scoring_test_fu_kan_terminal_closed() {

        // Closed kan of terminals = 32 fu
        let kan = Meld::kan(Tile::suited(Suit::Sou, 1), KanType::Closed);
        assert_eq!(meld_fu(&kan), 32);
    }

#[test]
    fn scoring_test_fu_kan_honor_open() {

        // Open kan of honors = 16 fu
        let kan = Meld::kan(Tile::honor(Honor::East), KanType::Open);
        assert_eq!(meld_fu(&kan), 16);

        let dragon_kan = Meld::kan(Tile::honor(Honor::White), KanType::Added);
        assert_eq!(meld_fu(&dragon_kan), 16);
    }

#[test]
    fn scoring_test_fu_kan_honor_closed() {

        // Closed kan of honors = 32 fu
        let kan = Meld::kan(Tile::honor(Honor::Red), KanType::Closed);
        assert_eq!(meld_fu(&kan), 32);

        let wind_kan = Meld::kan(Tile::honor(Honor::North), KanType::Closed);
        assert_eq!(meld_fu(&wind_kan), 32);
    }

#[test]
    fn scoring_test_fu_comparison_triplet_vs_kan() {

        // Kan fu should be 4x the equivalent triplet fu
        let simple_tile = Tile::suited(Suit::Man, 5);
        let terminal_tile = Tile::suited(Suit::Pin, 1);

        // Open simple: triplet 2, kan 8
        let triplet_open = Meld::Koutsu(simple_tile, true);
        let kan_open = Meld::kan(simple_tile, KanType::Open);
        assert_eq!(meld_fu(&kan_open), meld_fu(&triplet_open) * 4);

        // Closed simple: triplet 4, kan 16
        let triplet_closed = Meld::koutsu(simple_tile);
        let kan_closed = Meld::kan(simple_tile, KanType::Closed);
        assert_eq!(meld_fu(&kan_closed), meld_fu(&triplet_closed) * 4);

        // Open terminal: triplet 4, kan 16
        let triplet_term_open = Meld::Koutsu(terminal_tile, true);
        let kan_term_open = Meld::kan(terminal_tile, KanType::Open);
        assert_eq!(meld_fu(&kan_term_open), meld_fu(&triplet_term_open) * 4);

        // Closed terminal: triplet 8, kan 32
        let triplet_term_closed = Meld::koutsu(terminal_tile);
        let kan_term_closed = Meld::kan(terminal_tile, KanType::Closed);
        assert_eq!(meld_fu(&kan_term_closed), meld_fu(&triplet_term_closed) * 4);
    }

#[test]
    fn scoring_test_score_level_mangan() {
        assert_eq!(determine_score_level(5, 30, false), ScoreLevel::Mangan);
        assert_eq!(determine_score_level(4, 40, false), ScoreLevel::Mangan);
        assert_eq!(determine_score_level(3, 70, false), ScoreLevel::Mangan);
    }

#[test]
    fn scoring_test_score_level_haneman() {
        assert_eq!(determine_score_level(6, 30, false), ScoreLevel::Haneman);
        assert_eq!(determine_score_level(7, 30, false), ScoreLevel::Haneman);
    }

#[test]
    fn scoring_test_score_level_baiman() {
        assert_eq!(determine_score_level(8, 30, false), ScoreLevel::Baiman);
        assert_eq!(determine_score_level(10, 30, false), ScoreLevel::Baiman);
    }

#[test]
    fn scoring_test_score_level_sanbaiman() {
        assert_eq!(determine_score_level(11, 30, false), ScoreLevel::Sanbaiman);
        assert_eq!(determine_score_level(12, 30, false), ScoreLevel::Sanbaiman);
    }

#[test]
    fn scoring_test_score_level_yakuman() {
        assert_eq!(determine_score_level(13, 30, false), ScoreLevel::Yakuman);
        assert_eq!(determine_score_level(13, 30, true), ScoreLevel::Yakuman);
    }

#[test]
    fn scoring_test_basic_points_simple() {
        // 1 han 30 fu = 30 × 2^3 = 240
        assert_eq!(calculate_basic_points(1, 30, false), 240);

        // 2 han 30 fu = 30 × 2^4 = 480
        assert_eq!(calculate_basic_points(2, 30, false), 480);

        // 3 han 30 fu = 30 × 2^5 = 960
        assert_eq!(calculate_basic_points(3, 30, false), 960);

        // 4 han 30 fu = 30 × 2^6 = 1920
        assert_eq!(calculate_basic_points(4, 30, false), 1920);
    }

#[test]
    fn scoring_test_basic_points_mangan_cap() {
        // 4 han 40 fu = mangan = 2000
        assert_eq!(calculate_basic_points(4, 40, false), 2000);

        // 5 han = mangan = 2000
        assert_eq!(calculate_basic_points(5, 30, false), 2000);
    }

#[test]
    fn scoring_test_basic_points_limits() {
        assert_eq!(calculate_basic_points(6, 30, false), 3000); // Haneman
        assert_eq!(calculate_basic_points(8, 30, false), 4000); // Baiman
        assert_eq!(calculate_basic_points(11, 30, false), 6000); // Sanbaiman
        assert_eq!(calculate_basic_points(13, 30, false), 8000); // Yakuman
    }

#[test]
    fn scoring_test_payment_dealer_tsumo() {
        // Dealer tsumo mangan: 4000 all (× 3 = 12000)
        let payment = calculate_payment(2000, true, WinType::Tsumo);

        assert_eq!(payment.from_non_dealer, Some(4000));
        assert_eq!(payment.from_dealer, None);
        assert_eq!(payment.total, 12000);
    }

#[test]
    fn scoring_test_payment_non_dealer_tsumo() {
        // Non-dealer tsumo mangan: 4000/2000
        let payment = calculate_payment(2000, false, WinType::Tsumo);

        assert_eq!(payment.from_dealer, Some(4000));
        assert_eq!(payment.from_non_dealer, Some(2000));
        assert_eq!(payment.total, 8000);
    }

#[test]
    fn scoring_test_payment_dealer_ron() {
        // Dealer ron mangan: 12000
        let payment = calculate_payment(2000, true, WinType::Ron);

        assert_eq!(payment.from_discarder, Some(12000));
        assert_eq!(payment.total, 12000);
    }

#[test]
    fn scoring_test_payment_non_dealer_ron() {
        // Non-dealer ron mangan: 8000
        let payment = calculate_payment(2000, false, WinType::Ron);

        assert_eq!(payment.from_discarder, Some(8000));
        assert_eq!(payment.total, 8000);
    }

#[test]
    fn scoring_test_payment_rounding() {
        // Payments round up to nearest 100
        // 1 han 30 fu non-dealer ron = 240 × 4 = 960 → 1000
        let payment = calculate_payment(240, false, WinType::Ron);
        assert_eq!(payment.from_discarder, Some(1000));
    }

#[test]
    fn scoring_test_common_scores() {
        // Test some common score patterns

        // 1 han 30 fu non-dealer ron = 240 × 4 = 960 → 1000
        let payment = calculate_payment(calculate_basic_points(1, 30, false), false, WinType::Ron);
        assert_eq!(payment.total, 1000);

        // 2 han 30 fu non-dealer ron = 480 × 4 = 1920 → 2000
        let payment = calculate_payment(calculate_basic_points(2, 30, false), false, WinType::Ron);
        assert_eq!(payment.total, 2000);

        // 3 han 40 fu non-dealer ron = 1280 × 4 = 5120 → 5200
        let payment = calculate_payment(calculate_basic_points(3, 40, false), false, WinType::Ron);
        assert_eq!(payment.total, 5200);

        // 4 han 30 fu non-dealer ron = 1920 × 4 = 7680 → 7700 (NOT mangan, need 40+ fu)
        let payment = calculate_payment(calculate_basic_points(4, 30, false), false, WinType::Ron);
        assert_eq!(payment.total, 7700);

        // 4 han 40 fu non-dealer ron = mangan = 8000
        let payment = calculate_payment(calculate_basic_points(4, 40, false), false, WinType::Ron);
        assert_eq!(payment.total, 8000);
    }

#[test]
    fn scoring_test_format_score() {
        let context = GameContext::new(WinType::Tsumo, Honor::East, Honor::South)
            .riichi()
            .with_winning_tile(Tile::suited(Suit::Man, 4));

        let tiles = parse_hand("234m456p789s11122z").unwrap();
        let counts = to_counts(&tiles);
        let structures = decompose_hand(&counts);
        let yaku_result = detect_yaku_with_context(&structures[0], &counts, &context);
        let score_result = calculate_score(&structures[0], &yaku_result, &context);

        let formatted = format_score(&score_result, &yaku_result);

        // Should contain key information
        assert!(formatted.contains("Riichi"));
        assert!(formatted.contains("han"));
        assert!(formatted.contains("fu"));
        assert!(formatted.contains("Total:"));
    }

#[test]
    fn scoring_test_hand_with_closed_kan_fu() {

        // Hand: [1111m] 222m 333m 555p 11z (15 tiles with closed kan)
        let parsed = parse_hand_with_aka("[1111m]222333m555p11z").unwrap();
        let counts = to_counts(&parsed.tiles);
        let called_melds: Vec<_> = parsed
            .called_melds
            .iter()
            .map(|cm| cm.meld.clone())
            .collect();

        let structures = decompose_hand_with_melds(&counts, &called_melds);
        assert!(!structures.is_empty());

        let context = GameContext::new(WinType::Tsumo, Honor::East, Honor::East)
            .with_winning_tile(Tile::suited(Suit::Man, 2));

        let fu = calculate_fu(&structures[0], &context);

        // Closed terminal kan = 32 fu
        // Closed simple triplet 222m = 4 fu
        // Closed simple triplet 333m = 4 fu
        // Closed simple triplet 555p = 4 fu
        // Double wind pair 11z = 4 fu
        // Tsumo = 2 fu
        // Base = 20 fu
        // Total = 32 + 4 + 4 + 4 + 4 + 2 + 20 = 70 fu
        assert_eq!(fu.total, 70);
    }

#[test]
    fn scoring_test_hand_with_open_kan_fu() {

        // Hand: (5555m) 123p 456p 789s 11z (15 tiles with open kan)
        let parsed = parse_hand_with_aka("(5555m)123456p789s11z").unwrap();
        let counts = to_counts(&parsed.tiles);
        let called_melds: Vec<_> = parsed
            .called_melds
            .iter()
            .map(|cm| cm.meld.clone())
            .collect();

        let structures = decompose_hand_with_melds(&counts, &called_melds);
        assert!(!structures.is_empty());

        let context = GameContext::new(WinType::Ron, Honor::East, Honor::South)
            .open()
            .with_winning_tile(Tile::suited(Suit::Pin, 3));

        let fu = calculate_fu(&structures[0], &context);

        // Open simple kan = 8 fu
        // Verify the kan contributes the right fu
        assert_eq!(fu.breakdown.melds, 8);
        // Total fu will include base 20 + kan 8 + wait fu, rounded up
        assert!(fu.total >= 30);
    }

#[test]
    fn scoring_test_hand_with_honor_kan() {

        // Hand: [5555z] 123m 456p 789s 11z (15 tiles with closed dragon kan)
        let parsed = parse_hand_with_aka("[5555z]123m456p789s11z").unwrap();
        let counts = to_counts(&parsed.tiles);
        let called_melds: Vec<_> = parsed
            .called_melds
            .iter()
            .map(|cm| cm.meld.clone())
            .collect();

        let structures = decompose_hand_with_melds(&counts, &called_melds);
        assert!(!structures.is_empty());

        let context = GameContext::new(WinType::Tsumo, Honor::East, Honor::East)
            .with_winning_tile(Tile::suited(Suit::Man, 2));

        let fu = calculate_fu(&structures[0], &context);

        // Closed honor kan = 32 fu
        // Sequences = 0 fu each
        // Double wind pair = 4 fu
        // Tsumo = 2 fu
        // Base = 20 fu
        // Total = 32 + 0 + 0 + 0 + 4 + 2 + 20 = 58 -> rounded to 60 fu
        assert_eq!(fu.total, 60);
    }
