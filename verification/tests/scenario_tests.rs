use agari::context::{indicator_to_dora, GameContext, WinType};
use agari::evaluate::infer_best_winning_tile;
use agari::hand::{decompose_hand, decompose_hand_with_melds, dedup_structures};
use agari::parse::{parse_hand, parse_hand_with_aka, to_counts};
use agari::scoring::{calculate_fu, calculate_score, ScoreLevel, ScoringResult};
use agari::shanten::{calculate_shanten_with_melds, calculate_ukeire, calculate_ukeire_with_melds};
use agari::tile::{index_to_tile, Honor, Suit, Tile};
use agari::yaku::{detect_yaku_with_context, Yaku};

fn score_hand(hand: &str, context: &GameContext) -> Vec<ScoringResult> {
    let tiles = parse_hand(hand).unwrap();
    let counts = to_counts(&tiles);
    let structures = decompose_hand(&counts);
    structures
        .iter()
        .map(|s| {
            let yaku_result = detect_yaku_with_context(s, &counts, context);
            calculate_score(s, &yaku_result, context)
        })
        .collect()
}

fn best_score(results: &[ScoringResult]) -> &ScoringResult {
    results
        .iter()
        .max_by(|a, b| {
            a.payment
                .total
                .cmp(&b.payment.total)
                .then_with(|| a.han.cmp(&b.han))
                .then_with(|| b.fu.total.cmp(&a.fu.total))
        })
        .unwrap()
}

#[test]
fn scenario_basic_pinfu_self_draw() {
    // a closed all-sequence hand won by self-draw on a two-sided wait
    let context = GameContext::new(WinType::Tsumo, Honor::East, Honor::South)
        .with_winning_tile(Tile::suited(Suit::Sou, 4));
    let results = score_hand("123456m789p234s55p", &context);
    let best = best_score(&results);
    assert_eq!(best.han, 2);
    assert_eq!(best.fu.total, 20);
    assert_eq!(best.payment.from_dealer, Some(700));
    assert_eq!(best.payment.from_non_dealer, Some(400));
    assert_eq!(best.payment.total, 1500);
}

#[test]
fn scenario_seven_pairs_exact_fu() {
    // seven pairs won by discard as a non-dealer: 25 fu, 1600 points
    let context = GameContext::new(WinType::Ron, Honor::East, Honor::South)
        .with_winning_tile(Tile::honor(Honor::Red));
    let results = score_hand("1122m3344p5566s77z", &context);
    let best = best_score(&results);
    assert_eq!(best.han, 2);
    assert_eq!(best.fu.total, 25);
    assert_eq!(best.payment.from_discarder, Some(1600));
}

#[test]
fn scenario_dealer_first_draw_limit() {
    // the dealer's first-draw win suppresses all other patterns and dora
    let context = GameContext::new(WinType::Tsumo, Honor::East, Honor::East)
        .tenhou()
        .with_winning_tile(Tile::suited(Suit::Man, 4))
        .with_dora(vec![Tile::suited(Suit::Man, 1)]);
    let tiles = parse_hand("234m456p789s11122z").unwrap();
    let counts = to_counts(&tiles);
    let structures = decompose_hand(&counts);
    let yaku = detect_yaku_with_context(&structures[0], &counts, &context);
    assert!(yaku.yaku_list.contains(&Yaku::Tenhou));
    assert_eq!(yaku.yaku_list.len(), 1);
    assert_eq!(yaku.total_han, 13);
    assert_eq!(yaku.total_han_with_dora(), 13);
    let score = calculate_score(&structures[0], &yaku, &context);
    assert_eq!(score.payment.total, 48000);
}

#[test]
fn scenario_discard_completed_triplet_fu() {
    // the triplet completed by the discard counts as open for fu
    let context = GameContext::new(WinType::Ron, Honor::West, Honor::South)
        .with_winning_tile(Tile::suited(Suit::Man, 2));
    let tiles = parse_hand("222678m444666p11z").unwrap();
    let counts = to_counts(&tiles);
    let structures = decompose_hand(&counts);
    let fu = calculate_fu(&structures[0], &context);
    assert_eq!(fu.breakdown.melds, 10);
    assert_eq!(fu.breakdown.pair, 0);
    assert_eq!(fu.breakdown.wait, 0);
    assert_eq!(fu.total, 40);
}

#[test]
fn scenario_closed_sequence_keeps_triplet_concealed() {
    // the winning tile also fits a closed sequence, so the triplet stays
    // closed for fu, and the called round-wind triplet scores
    let parsed = parse_hand_with_aka("99m111123p789s(222z)").unwrap();
    let counts = to_counts(&parsed.tiles);
    let called: Vec<_> = parsed.called_melds.iter().map(|cm| cm.meld).collect();
    let structures = decompose_hand_with_melds(&counts, &called);
    let context = GameContext::new(WinType::Ron, Honor::South, Honor::North)
        .open()
        .with_winning_tile(Tile::suited(Suit::Pin, 1));
    let fu = calculate_fu(&structures[0], &context);
    assert_eq!(fu.breakdown.melds, 12);
    assert_eq!(fu.total, 40);

    let mut all_tiles = parsed.tiles.clone();
    for cm in &parsed.called_melds {
        all_tiles.extend(cm.tiles.iter().copied());
    }
    let all_counts = to_counts(&all_tiles);
    let yaku = detect_yaku_with_context(&structures[0], &all_counts, &context);
    assert!(yaku.yaku_list.contains(&Yaku::Yakuhai(Honor::South)));
}

#[test]
fn scenario_called_melds_keep_shanten_honest() {
    // eleven hand tiles and one called triplet: ready, with few waits
    let parsed = parse_hand_with_aka("23678p234567s(222z)").unwrap();
    let counts = to_counts(&parsed.tiles);
    let k = parsed.called_melds.len() as u8;
    assert_eq!(calculate_shanten_with_melds(&counts, k).shanten, 0);
    let ukeire = calculate_ukeire_with_melds(&counts, k);
    assert!(ukeire.tiles.len() <= 5);
}

#[test]
fn indicator_mapping_is_a_bijection() {
    // all 34 indicator results are distinct, so the mapping is a bijection
    let mut seen: Vec<Tile> = Vec::new();
    for idx in 0..34 {
        let dora = indicator_to_dora(index_to_tile(idx));
        assert!(!seen.contains(&dora));
        seen.push(dora);
    }
    assert_eq!(seen.len(), 34);
}

#[test]
fn indicator_mapping_cycles_winds_and_dragons() {
    let winds = [Honor::East, Honor::South, Honor::West, Honor::North, Honor::East];
    for w in winds.windows(2) {
        assert_eq!(indicator_to_dora(Tile::honor(w[0])), Tile::honor(w[1]));
    }
    let dragons = [Honor::White, Honor::Green, Honor::Red, Honor::White];
    for d in dragons.windows(2) {
        assert_eq!(indicator_to_dora(Tile::honor(d[0])), Tile::honor(d[1]));
    }
    assert_eq!(
        indicator_to_dora(Tile::suited(Suit::Pin, 9)),
        Tile::suited(Suit::Pin, 1)
    );
}

#[test]
fn deduplication_is_idempotent() {
    // running deduplication on an already deduplicated list changes nothing
    let tiles = parse_hand("111222333m11155z").unwrap();
    let counts = to_counts(&tiles);
    let structures = decompose_hand(&counts);
    assert!(structures.len() >= 2);
    let once = dedup_structures(structures.clone());
    assert_eq!(once.len(), structures.len());
    let twice = dedup_structures(once.clone());
    assert_eq!(twice, once);
}

#[test]
fn selection_is_stable_under_shuffling() {
    // reversing the decomposition list leaves the selected score unchanged
    let tiles = parse_hand("22334455667799s").unwrap();
    let counts = to_counts(&tiles);
    let structures = decompose_hand(&counts);
    assert!(structures.len() >= 2);
    let context = GameContext::new(WinType::Tsumo, Honor::East, Honor::South);
    let (picked, _) = infer_best_winning_tile(&structures, &counts, context, &tiles);
    let reversed: Vec<_> = structures.iter().rev().cloned().collect();
    let context2 = GameContext::new(WinType::Tsumo, Honor::East, Honor::South);
    let (picked2, _) = infer_best_winning_tile(&reversed, &counts, context2, &tiles);
    assert!(!picked.is_empty() && !picked2.is_empty());
    assert_eq!(picked[0].2.payment.total, picked2[0].2.payment.total);
    assert_eq!(picked[0].2.han, picked2[0].2.han);
    assert_eq!(picked[0].2.fu.total, picked2[0].2.fu.total);
}

#[test]
fn open_hand_without_patterns_scores_no_yaku() {
    // an open hand with no pattern at all yields an empty list
    let context = GameContext::new(WinType::Ron, Honor::West, Honor::North)
        .open()
        .with_winning_tile(Tile::suited(Suit::Man, 1));
    let tiles = parse_hand("123m456p789s23455s").unwrap();
    let counts = to_counts(&tiles);
    let structures = decompose_hand(&counts);
    assert!(!structures.is_empty());
    let yaku = detect_yaku_with_context(&structures[0], &counts, &context);
    assert!(yaku.yaku_list.is_empty());
    assert_eq!(yaku.total_han, 0);
}

#[test]
fn acceptance_lists_the_missing_pair_tile() {
    // a hand waiting on its pair accepts exactly the three remaining copies
    let tiles = parse_hand("123m456p789s1112z").unwrap();
    let counts = to_counts(&tiles);
    let ukeire = calculate_ukeire(&counts);
    assert_eq!(ukeire.shanten, 0);
    assert!(ukeire
        .tiles
        .iter()
        .any(|t| t.tile == Tile::honor(Honor::South) && t.available == 3));
}

#[test]
fn open_hand_fu_never_falls_below_thirty() {
    // an open all-sequence hand with a plain pair still reaches 30 fu
    let parsed = parse_hand_with_aka("234m567m99m456p(567s)").unwrap();
    let counts = to_counts(&parsed.tiles);
    let called: Vec<_> = parsed.called_melds.iter().map(|cm| cm.meld).collect();
    let structures = decompose_hand_with_melds(&counts, &called);
    assert!(!structures.is_empty());
    let context = GameContext::new(WinType::Ron, Honor::West, Honor::North)
        .open()
        .with_winning_tile(Tile::suited(Suit::Man, 4));
    let fu = calculate_fu(&structures[0], &context);
    assert_eq!(fu.total, 30);
}

#[test]
fn winning_check_agrees_with_decomposition() {
    // the boolean check and the decomposer agree on both answers
    let win = parse_hand("123m456p789s11122z").unwrap();
    let win_counts = to_counts(&win);
    assert!(agari::hand::is_winning_hand(&win_counts));
    assert!(!decompose_hand(&win_counts).is_empty());

    let lose = parse_hand("1234m5678p9s12355z").unwrap();
    let lose_counts = to_counts(&lose);
    assert!(!agari::hand::is_winning_hand(&lose_counts));
    assert!(decompose_hand(&lose_counts).is_empty());
}

#[test]
fn inference_skips_interpretations_without_patterns() {
    // an open hand where no candidate winning tile yields any pattern:
    // nothing is kept, so the caller can report that the hand cannot win
    let tiles = parse_hand("123m456p789s23455s").unwrap();
    let counts = to_counts(&tiles);
    let structures = decompose_hand(&counts);
    assert!(!structures.is_empty());
    let context = GameContext::new(WinType::Ron, Honor::West, Honor::North).open();
    let (picked, _) = infer_best_winning_tile(&structures, &counts, context, &tiles);
    assert!(picked.is_empty());

    // the same hand closed scores everywhere (a closed discard win still
    // needs a pattern, but self-draw grants one), so something is kept
    let context2 = GameContext::new(WinType::Tsumo, Honor::West, Honor::North);
    let (picked2, _) = infer_best_winning_tile(&structures, &counts, context2, &tiles);
    assert!(!picked2.is_empty());
    assert!(picked2.iter().all(|e| !e.1.yaku_list.is_empty()));
}

#[test]
fn inference_reports_the_inferred_tile() {
    // the returned context names the hand tile the selection used, and
    // the kept interpretation is the best one: pinfu with self-draw
    let tiles = parse_hand("123456m789p234s55p").unwrap();
    let counts = to_counts(&tiles);
    let structures = decompose_hand(&counts);
    let context = GameContext::new(WinType::Tsumo, Honor::East, Honor::South);
    let (picked, picked_context) =
        infer_best_winning_tile(&structures, &counts, context, &tiles);
    assert!(!picked.is_empty());
    let inferred = picked_context.winning_tile.expect("an inferred winning tile");
    assert!(tiles.contains(&inferred));
    assert_eq!(picked[0].2.han, 2);
    assert_eq!(picked[0].2.fu.total, 20);
    assert_eq!(picked[0].2.payment.total, 1500);
}
