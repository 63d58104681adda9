use vstd::prelude::*;

use crate::context::{ctx_wf, dora_sum, GameContext, WinType};
use crate::hand::{represented_in, structure_wf, HandStructure};
use crate::scoring::{calculate_score, ScoringResult};
use crate::tile::{tile_index_spec, tile_wf, Honor, Tile, TileCounts};
use crate::scoring::{basic_points_value, fu_total_spec, round_up_to_100_spec};
use crate::yaku::{
    ctx_scalars_equal, detect_yaku_with_context, detected_total, lemma_some_yaku_scalars,
    limit_fires, some_yaku, YakuResult,
};

verus! {

broadcast use vstd::seq_lib::lemma_seq_contains_after_push;

/// The order interpretations compete by: highest payment first, then
/// highest han, then lowest fu.
pub open spec fn score_key(s: ScoringResult) -> (int, int, int) {
    (s.payment.total as int, s.han as int, 255 - s.fu.total as int)
}

/// All bonus-tile han of a hand under a context.
pub open spec fn dora_total_spec(c: Seq<u8>, ctx: GameContext) -> int {
    dora_sum(c, ctx.dora_indicators@) + (if ctx.is_riichi {
        dora_sum(c, ctx.ura_dora_indicators@)
    } else {
        0int
    }) + ctx.aka_count
}

/// The han the engine reports: bonus tiles count only off the limit tiers.
pub open spec fn reported_han(s: HandStructure, c: Seq<u8>, ctx: GameContext) -> int {
    if limit_fires(s, c, ctx) {
        detected_total(s, c, ctx)
    } else {
        detected_total(s, c, ctx) + dora_total_spec(c, ctx)
    }
}

/// The total payment the split produces for given base points.
pub open spec fn payment_total_value(basic: int, is_dealer: bool, wt: WinType) -> int {
    match wt {
        WinType::Tsumo => if is_dealer {
            3 * round_up_to_100_spec(basic * 2)
        } else {
            round_up_to_100_spec(basic * 2) + 2 * round_up_to_100_spec(basic)
        },
        WinType::Ron => round_up_to_100_spec(basic * (if is_dealer {
            6int
        } else {
            4int
        })),
    }
}

/// The score key an interpretation reaches, as a function of the
/// decomposition, the full tile multiset and the context alone.
pub open spec fn candidate_key(s: HandStructure, c: Seq<u8>, ctx: GameContext) -> (int, int,
    int) {
    let han = reported_han(s, c, ctx);
    let fu = fu_total_spec(s, ctx);
    let basic = basic_points_value(han, fu, limit_fires(s, c, ctx));
    (payment_total_value(basic, ctx.seat_wind == crate::tile::Honor::East, ctx.win_type), han,
        255 - fu)
}

/// The candidate key reads only the context's scalar fields, the
/// indicator views and the red-five count.
pub proof fn lemma_candidate_key_congruent(s: HandStructure, c: Seq<u8>, a: GameContext,
    b: GameContext)
    requires
        ctx_scalars_equal(a, b),
        a.dora_indicators@ == b.dora_indicators@,
        a.ura_dora_indicators@ == b.ura_dora_indicators@,
        a.aka_count == b.aka_count,
    ensures
        candidate_key(s, c, a) == candidate_key(s, c, b),
        some_yaku(s, c, a) == some_yaku(s, c, b),
{
    lemma_some_yaku_scalars(s, c, a, b);
    crate::yaku::lemma_detected_total_scalars(s, c, a, b);
    match s {
        HandStructure::Standard { melds, pair } => {
            crate::scoring::lemma_melds_fu_sum_scalars(melds@, melds@, a, b);
        }
        _ => {}
    }
}

/// Lexicographic comparison of two score keys.
pub open spec fn key_le(a: (int, int, int), b: (int, int, int)) -> bool {
    a.0 < b.0 || (a.0 == b.0 && (a.1 < b.1 || (a.1 == b.1 && a.2 <= b.2)))
}

/// `m` is the best key of the list: it occurs, and nothing beats it.
pub open spec fn is_best_key(keys: Seq<(int, int, int)>, m: (int, int, int)) -> bool {
    keys.contains(m) && forall|k: int| 0 <= k < keys.len() ==> key_le(#[trigger] keys[k], m)
}

/// The best score key of a list of interpretations depends only on which
/// keys occur and how often, never on their order: shuffling the
/// decomposition list cannot change the selected score.
pub proof fn lemma_selection_stable(a: Seq<(int, int, int)>, b: Seq<(int, int, int)>,
    m: (int, int, int))
    requires
        a.to_multiset() == b.to_multiset(),
        is_best_key(a, m),
    ensures
        is_best_key(b, m),
{
    broadcast use vstd::seq_lib::group_to_multiset_ensures;

    assert(a.to_multiset().count(m) > 0);
    assert(b.contains(m));
    assert forall|k: int| 0 <= k < b.len() implies key_le(#[trigger] b[k], m) by {
        assert(b.contains(b[k]));
        assert(b.to_multiset().count(b[k]) > 0);
        assert(a.contains(b[k]));
        let i = choose|i: int| 0 <= i < a.len() && a[i] == b[k];
    }
}

/// Two distinct best keys cannot both exist: the selection is a function
/// of the multiset of interpretations.
pub proof fn lemma_best_key_unique(keys: Seq<(int, int, int)>, m1: (int, int, int),
    m2: (int, int, int))
    requires
        is_best_key(keys, m1),
        is_best_key(keys, m2),
    ensures
        m1 == m2,
{
    let i1 = choose|i: int| 0 <= i < keys.len() && keys[i] == m1;
    let i2 = choose|i: int| 0 <= i < keys.len() && keys[i] == m2;
    assert(key_le(keys[i1], m2));
    assert(key_le(keys[i2], m1));
}

/// Is `a` strictly better than `b` in the interpretation order?
fn key_better(a: &ScoringResult, b: &ScoringResult) -> (r: bool)
    ensures
        r == (!key_le(score_key(*a), score_key(*b)) && key_le(score_key(*b), score_key(*a))),
{
    if a.payment.total != b.payment.total {
        return a.payment.total > b.payment.total;
    }
    if a.han != b.han {
        return a.han > b.han;
    }
    a.fu.total < b.fu.total
}

/// Do two interpretations tie in the order?
fn key_equal(a: &ScoringResult, b: &ScoringResult) -> (r: bool)
    ensures
        r == (score_key(*a) == score_key(*b)),
{
    a.payment.total == b.payment.total && a.han == b.han && a.fu.total == b.fu.total
}

/// Warnings for option combinations that contradict the riichi rules:
/// hidden indicators or a one-shot win claimed without riichi, and riichi
/// claimed for an open hand. One warning is returned per broken rule.
pub fn validate_riichi_dependencies(
    riichi: bool,
    has_ura_dora: bool,
    ippatsu: bool,
    has_open_melds: bool,
    open_flag: bool,
) -> (r: Vec<String>)
    ensures
        r@.len() == (if has_ura_dora && !riichi {
            1int
        } else {
            0int
        }) + (if ippatsu && !riichi {
            1int
        } else {
            0int
        }) + (if riichi && has_open_melds {
            1int
        } else {
            0int
        }) + (if riichi && open_flag {
            1int
        } else {
            0int
        }),
{
    let mut warnings: Vec<String> = Vec::new();
    if has_ura_dora && !riichi {
        warnings.push(String::from_str(
            "Ura dora (--ura) specified without riichi. Ura dora only apply when winning with riichi.",
        ));
    }
    if ippatsu && !riichi {
        warnings.push(String::from_str(
            "Ippatsu (--ippatsu) specified without riichi. Ippatsu only applies when winning within one turn of riichi.",
        ));
    }
    if riichi && has_open_melds {
        warnings.push(String::from_str(
            "Riichi specified but hand has open melds. Riichi requires a closed hand (menzen). Use [...] for closed kans instead of (...).",
        ));
    }
    if riichi && open_flag {
        warnings.push(String::from_str(
            "Both --riichi and --open specified. Riichi requires a closed hand (menzen).",
        ));
    }
    warnings
}

/// The preconditions the pattern detector puts on a context and hand.
pub open spec fn eval_wf(counts: TileCounts, ctx: GameContext) -> bool {
    counts.wf() && ctx_wf(ctx) && dora_sum(counts@, ctx.dora_indicators@) + dora_sum(counts@,
        ctx.ura_dora_indicators@) + ctx.aka_count <= 100
}

/// The context that scores a candidate winning tile.
pub open spec fn ctx_with_tile(ctx: GameContext, t: Tile) -> GameContext {
    GameContext { winning_tile: Some(t), ..ctx }
}

/// Some decomposition among the first `upto` lists a pattern when tile `t`
/// is taken as the winning tile.
pub open spec fn scores_with_tile(structures: Seq<HandStructure>, c: Seq<u8>,
    base: GameContext, t: Tile, upto: int) -> bool {
    exists|k: int| 0 <= k < upto && some_yaku(#[trigger] structures.index(k), c,
        ctx_with_tile(base, t))
}

/// Some decomposition lists a pattern under one of the first `upto`
/// candidate winning tiles.
pub open spec fn any_scores(structures: Seq<HandStructure>, c: Seq<u8>, base: GameContext,
    cands: Seq<Tile>, upto: int) -> bool {
    exists|i: int| 0 <= i < upto && scores_with_tile(structures, c, base,
        #[trigger] cands.index(i), structures.len() as int)
}

/// Some hand tile, taken as the winning tile, gives some decomposition a
/// listed pattern.
pub open spec fn some_candidate_scores(structures: Seq<HandStructure>, c: Seq<u8>,
    base: GameContext, tiles: Seq<Tile>) -> bool {
    exists|t: Tile| #[trigger] tiles.contains(t) && scores_with_tile(structures, c, base, t,
        structures.len() as int)
}

/// Keys compare totally.
pub proof fn lemma_key_le_total(a: (int, int, int), b: (int, int, int))
    ensures
        key_le(a, b) || key_le(b, a),
{
}

/// The key order is transitive.
pub proof fn lemma_key_le_trans(a: (int, int, int), b: (int, int, int), c: (int, int, int))
    requires
        key_le(a, b),
        key_le(b, c),
    ensures
        key_le(a, c),
{
}

/// A scoring candidate stays at or below the bound.
pub open spec fn scored_key_le(structures: Seq<HandStructure>, c: Seq<u8>, base: GameContext,
    t: Tile, k: int, bk: (int, int, int)) -> bool {
    some_yaku(structures.index(k), c, ctx_with_tile(base, t)) ==> key_le(candidate_key(
        structures.index(k), c, ctx_with_tile(base, t)), bk)
}

/// Every interpretation under the first `ci` candidate tiles stays at or
/// below the bound.
pub open spec fn all_scored_below(structures: Seq<HandStructure>, c: Seq<u8>,
    base: GameContext, cands: Seq<Tile>, ci: int, bk: (int, int, int)) -> bool {
    forall|i: int, k: int| 0 <= i < ci && 0 <= k < structures.len()
        ==> #[trigger] scored_key_le(structures, c, base, cands.index(i), k, bk)
}

/// Every interpretation of the first `si` decompositions under tile `t`
/// stays at or below the bound.
pub open spec fn tile_scored_below(structures: Seq<HandStructure>, c: Seq<u8>,
    base: GameContext, t: Tile, si: int, bk: (int, int, int)) -> bool {
    forall|k: int| 0 <= k < si ==> #[trigger] scored_key_le(structures, c, base, t, k, bk)
}

/// When no winning tile was given, try every distinct tile of the hand as
/// the winning tile, skip every interpretation that lists no pattern, and
/// keep the interpretations that reach the best (payment, han, lowest-fu)
/// key, together with a context attaining it. The result is empty exactly
/// when no hand tile gives any decomposition a listed pattern, and no
/// scoring interpretation anywhere beats the kept key.
#[verifier::loop_isolation(false)]
#[verifier::rlimit(100)]
pub fn infer_best_winning_tile(
    structures: &Vec<HandStructure>,
    all_tiles_counts: &TileCounts,
    base_context: GameContext,
    tiles: &Vec<Tile>,
) -> (r: (Vec<(HandStructure, YakuResult, ScoringResult)>, GameContext))
    requires
        eval_wf(*all_tiles_counts, base_context),
        forall|k: int| 0 <= k < structures@.len() ==> structure_wf(#[trigger] structures@[k]),
        forall|k: int| 0 <= k < tiles@.len() ==> tile_wf(#[trigger] tiles@[k]),
    ensures
        forall|k: int| 0 <= k < r.0@.len() ==> represented_in((#[trigger] r.0@[k]).0,
            structures@),
        // every kept interpretation ties on the selected score key
        forall|k: int, l: int| 0 <= k < r.0@.len() && 0 <= l < r.0@.len()
            ==> score_key((#[trigger] r.0@[k]).2) == score_key((#[trigger] r.0@[l]).2),
        // an interpretation with no listed pattern is never kept
        forall|k: int| 0 <= k < r.0@.len() ==> (#[trigger] r.0@[k]).1.yaku_list@.len() > 0,
        // something is kept exactly when some hand tile makes some
        // decomposition score
        (r.0@.len() > 0) == some_candidate_scores(structures@, all_tiles_counts@,
            base_context, tiles@),
        // the kept key is the maximum over every candidate interpretation
        r.0@.len() > 0 ==> forall|t: Tile, k: int| tiles@.contains(t) && 0 <= k
            < structures@.len() ==> #[trigger] scored_key_le(structures@, all_tiles_counts@,
            base_context, t, k, score_key(r.0@[0].2)),
        // the returned context names a hand tile attaining that key
        r.0@.len() > 0 ==> exists|t: Tile, k: int| tiles@.contains(t) && 0 <= k
            < structures@.len() && r.1.winning_tile == Some(t)
            && some_yaku(structures@.index(k), all_tiles_counts@, ctx_with_tile(base_context,
            t))
            && #[trigger] candidate_key(structures@.index(k), all_tiles_counts@,
            ctx_with_tile(base_context, t)) == score_key(r.0@[0].2),
{
    let mut best_results: Vec<(HandStructure, YakuResult, ScoringResult)> = Vec::new();
    let mut best_context = base_context.clone();
    let mut have_best = false;
    let ghost mut best_i: int = 0;
    let ghost mut best_k: int = 0;

    // candidate winning tiles: each distinct tile of the hand, in
    // canonical order
    let mut seen = TileCounts::new();
    let mut candidates: Vec<Tile> = Vec::new();
    let mut q: usize = 0;
    while q < tiles.len()
        invariant
            seen.wf(),
            q <= tiles@.len(),
            forall|k: int| 0 <= k < tiles@.len() ==> tile_wf(#[trigger] tiles@[k]),
            forall|k: int| 0 <= k < candidates@.len() ==> tile_wf(#[trigger] candidates@[k])
                && tiles@.contains(candidates@[k]),
            forall|t: Tile| tile_wf(t) ==> ((seen@[tile_index_spec(t)] != 0)
                == candidates@.contains(t)),
            forall|t: Tile| tiles@.take(q as int).contains(t) ==> candidates@.contains(t),
        decreases tiles@.len() - q,
    {
        let t = tiles[q];
        if seen.get(t) == 0 {
            seen.set_idx(crate::tile::tile_to_index(t), 1);
            candidates.push(t);
            proof {
                assert forall|t2: Tile| tile_wf(t2) implies ((seen@[tile_index_spec(t2)] != 0)
                    == candidates@.contains(t2)) by {
                    crate::tile::lemma_tile_index_bijective(t2);
                    crate::tile::lemma_tile_index_bijective(tiles@[q as int]);
                }
            }
        }
        proof {
            assert forall|t2: Tile| tiles@.take(q as int + 1).contains(t2) implies
                candidates@.contains(t2) by {
                let i = choose|i: int| 0 <= i < q + 1
                    && #[trigger] tiles@.take(q as int + 1).index(i) == t2;
                if i < q {
                    assert(tiles@.take(q as int).index(i) == t2);
                } else {
                    assert(t2 == tiles@[q as int]);
                    crate::tile::lemma_tile_index_bijective(t2);
                }
            }
        }
        q = q + 1;
    }
    proof {
        assert(tiles@.take(tiles@.len() as int) =~= tiles@);
    }

    let ghost cands = candidates@;
    let mut ci: usize = 0;
    while ci < candidates.len()
        invariant
            eval_wf(*all_tiles_counts, base_context),
            cands == candidates@,
            forall|k: int| 0 <= k < structures@.len() ==> structure_wf(#[trigger] structures@[k]),
            forall|k: int| 0 <= k < candidates@.len() ==> tile_wf(#[trigger] candidates@[k])
                && tiles@.contains(candidates@[k]),
            ci <= candidates@.len(),
            !have_best ==> best_results@.len() == 0,
            have_best ==> best_results@.len() > 0,
            forall|k: int| 0 <= k < best_results@.len() ==> represented_in(
                (#[trigger] best_results@[k]).0, structures@),
            forall|k: int, l: int| 0 <= k < best_results@.len() && 0 <= l < best_results@.len()
                ==> score_key((#[trigger] best_results@[k]).2)
                    == score_key((#[trigger] best_results@[l]).2),
            forall|k: int| 0 <= k < best_results@.len()
                ==> (#[trigger] best_results@[k]).1.yaku_list@.len() > 0,
            have_best == any_scores(structures@, all_tiles_counts@, base_context, cands,
                ci as int),
            have_best ==> all_scored_below(structures@, all_tiles_counts@, base_context,
                cands, ci as int, score_key(best_results@[0].2)),
            have_best ==> 0 <= best_i < cands.len() && 0 <= best_k < structures@.len()
                && best_context.winning_tile == Some(cands[best_i])
                && some_yaku(structures@.index(best_k), all_tiles_counts@,
                    ctx_with_tile(base_context, cands[best_i]))
                && candidate_key(structures@.index(best_k), all_tiles_counts@,
                    ctx_with_tile(base_context, cands[best_i]))
                    == score_key(best_results@[0].2),
        decreases candidates@.len() - ci,
    {
        let winning_tile = candidates[ci];
        let context = base_context.clone().with_winning_tile(winning_tile);
        proof {
            assert(ctx_scalars_equal(context, ctx_with_tile(base_context,
                cands[ci as int])));
        }
        let mut si: usize = 0;
        while si < structures.len()
            invariant
                eval_wf(*all_tiles_counts, base_context),
                eval_wf(*all_tiles_counts, context),
                cands == candidates@,
                ci < candidates@.len(),
                winning_tile == cands[ci as int],
                ctx_scalars_equal(context, ctx_with_tile(base_context, cands[ci as int])),
                context.dora_indicators@ == base_context.dora_indicators@,
                context.ura_dora_indicators@ == base_context.ura_dora_indicators@,
                context.aka_count == base_context.aka_count,
                forall|k: int| 0 <= k < structures@.len() ==> structure_wf(
                    #[trigger] structures@[k]),
                si <= structures@.len(),
                !have_best ==> best_results@.len() == 0,
                have_best ==> best_results@.len() > 0,
                forall|k: int| 0 <= k < best_results@.len() ==> represented_in(
                    (#[trigger] best_results@[k]).0, structures@),
                forall|k: int, l: int| 0 <= k < best_results@.len() && 0 <= l
                    < best_results@.len() ==> score_key((#[trigger] best_results@[k]).2)
                        == score_key((#[trigger] best_results@[l]).2),
                forall|k: int| 0 <= k < best_results@.len()
                    ==> (#[trigger] best_results@[k]).1.yaku_list@.len() > 0,
                have_best == (any_scores(structures@, all_tiles_counts@, base_context, cands,
                    ci as int) || scores_with_tile(structures@, all_tiles_counts@,
                    base_context, cands[ci as int], si as int)),
                have_best ==> all_scored_below(structures@, all_tiles_counts@, base_context,
                    cands, ci as int, score_key(best_results@[0].2)),
                have_best ==> tile_scored_below(structures@, all_tiles_counts@, base_context,
                    cands[ci as int], si as int, score_key(best_results@[0].2)),
                have_best ==> 0 <= best_i < cands.len() && 0 <= best_k < structures@.len()
                    && best_context.winning_tile == Some(cands[best_i])
                    && some_yaku(structures@.index(best_k), all_tiles_counts@,
                        ctx_with_tile(base_context, cands[best_i]))
                    && candidate_key(structures@.index(best_k), all_tiles_counts@,
                        ctx_with_tile(base_context, cands[best_i]))
                        == score_key(best_results@[0].2),
            decreases structures@.len() - si,
        {
            let yaku_result = detect_yaku_with_context(&structures[si], all_tiles_counts,
                &context);
            proof {
                lemma_candidate_key_congruent(structures@[si as int], all_tiles_counts@,
                    context, ctx_with_tile(base_context, cands[ci as int]));
            }
            if yaku_result.yaku_list.len() > 0 {
                // an interpretation without a pattern cannot win and is
                // skipped
                let score = calculate_score(&structures[si], &yaku_result, &context);
                proof {
                    // the computed score is the spec-level key of this
                    // candidate
                    assert(score.han as int == reported_han(structures@[si as int],
                        all_tiles_counts@, context));
                    assert(score_key(score) == candidate_key(structures@[si as int],
                        all_tiles_counts@, context));
                    assert(score_key(score) == candidate_key(structures@.index(si as int),
                        all_tiles_counts@, ctx_with_tile(base_context, cands[ci as int])));
                }
                let is_better = if !have_best {
                    true
                } else {
                    key_better(&score, &best_results[0].2)
                };
                let structure = structures[si].clone();
                proof {
                    crate::hand::lemma_structure_eq_sym(structure, structures@[si as int]);
                }
                let ghost old_bk = if have_best {
                    score_key(best_results@[0].2)
                } else {
                    score_key(score)
                };
                let ghost was_best = have_best;
                if is_better {
                    best_context = context.clone();
                    best_results = Vec::new();
                    best_results.push((structure, yaku_result, score));
                    have_best = true;
                    proof {
                        best_i = ci as int;
                        best_k = si as int;
                        let bk = score_key(best_results@[0].2);
                        assert(bk == score_key(score));
                        if was_best {
                            assert(key_le(old_bk, bk));
                            assert forall|i: int, k: int| 0 <= i < ci as int && 0 <= k
                                < structures@.len() implies #[trigger] scored_key_le(
                                structures@, all_tiles_counts@, base_context,
                                cands.index(i), k, bk) by {
                                assert(scored_key_le(structures@, all_tiles_counts@,
                                    base_context, cands.index(i), k, old_bk));
                                if some_yaku(structures@.index(k), all_tiles_counts@,
                                    ctx_with_tile(base_context, cands.index(i))) {
                                    lemma_key_le_trans(candidate_key(structures@.index(k),
                                        all_tiles_counts@, ctx_with_tile(base_context,
                                        cands.index(i))), old_bk, bk);
                                }
                            }
                            assert forall|k: int| 0 <= k < si as int + 1 implies
                                #[trigger] scored_key_le(structures@, all_tiles_counts@,
                                base_context, cands[ci as int], k, bk) by {
                                if k < si as int {
                                    assert(scored_key_le(structures@, all_tiles_counts@,
                                        base_context, cands[ci as int], k, old_bk));
                                    if some_yaku(structures@.index(k), all_tiles_counts@,
                                        ctx_with_tile(base_context, cands[ci as int])) {
                                        lemma_key_le_trans(candidate_key(
                                            structures@.index(k), all_tiles_counts@,
                                            ctx_with_tile(base_context, cands[ci as int])),
                                            old_bk, bk);
                                    }
                                }
                            }
                        } else {
                            // nothing scored before this interpretation
                            assert forall|i: int, k: int| 0 <= i < ci as int && 0 <= k
                                < structures@.len() implies #[trigger] scored_key_le(
                                structures@, all_tiles_counts@, base_context,
                                cands.index(i), k, bk) by {
                                if some_yaku(structures@.index(k), all_tiles_counts@,
                                    ctx_with_tile(base_context, cands.index(i))) {
                                    assert(scores_with_tile(structures@, all_tiles_counts@,
                                        base_context, cands.index(i),
                                        structures@.len() as int));
                                    assert(any_scores(structures@, all_tiles_counts@,
                                        base_context, cands, ci as int));
                                    assert(false);
                                }
                            }
                            assert forall|k: int| 0 <= k < si as int + 1 implies
                                #[trigger] scored_key_le(structures@, all_tiles_counts@,
                                base_context, cands[ci as int], k, bk) by {
                                if k < si as int {
                                    if some_yaku(structures@.index(k), all_tiles_counts@,
                                        ctx_with_tile(base_context, cands[ci as int])) {
                                        assert(scores_with_tile(structures@,
                                            all_tiles_counts@, base_context,
                                            cands[ci as int], si as int));
                                        assert(false);
                                    }
                                }
                            }
                        }
                    }
                } else {
                    let tie = key_equal(&score, &best_results[0].2);
                    if tie {
                        best_results.push((structure, yaku_result, score));
                    }
                    proof {
                        let bk = score_key(best_results@[0].2);
                        assert(key_le(score_key(score), bk)) by {
                            lemma_key_le_total(score_key(score), bk);
                        }
                        assert forall|k: int| 0 <= k < si as int + 1 implies
                            #[trigger] scored_key_le(structures@, all_tiles_counts@,
                            base_context, cands[ci as int], k, bk) by {
                        }
                    }
                }
                proof {
                    assert(some_yaku(structures@.index(si as int), all_tiles_counts@,
                        ctx_with_tile(base_context, cands[ci as int])));
                    assert(scores_with_tile(structures@, all_tiles_counts@, base_context,
                        cands[ci as int], si as int + 1));
                }
            } else {
                proof {
                    assert(have_best == (any_scores(structures@, all_tiles_counts@,
                        base_context, cands, ci as int) || scores_with_tile(structures@,
                        all_tiles_counts@, base_context, cands[ci as int],
                        si as int + 1))) by {
                        if scores_with_tile(structures@, all_tiles_counts@, base_context,
                            cands[ci as int], si as int + 1) {
                            let k = choose|k: int| 0 <= k < si + 1 && some_yaku(
                                #[trigger] structures@.index(k), all_tiles_counts@,
                                ctx_with_tile(base_context, cands[ci as int]));
                            if k == si as int {
                                assert(false);
                            }
                        }
                    }
                    if have_best {
                        assert forall|k: int| 0 <= k < si as int + 1 implies
                            #[trigger] scored_key_le(structures@, all_tiles_counts@,
                            base_context, cands[ci as int], k,
                            score_key(best_results@[0].2)) by {
                        }
                    }
                }
            }
            si = si + 1;
        }
        ci = ci + 1;
        proof {
            assert(have_best == any_scores(structures@, all_tiles_counts@, base_context,
                cands, ci as int)) by {
                if scores_with_tile(structures@, all_tiles_counts@, base_context,
                    cands[ci - 1], structures@.len() as int) {
                    assert(any_scores(structures@, all_tiles_counts@, base_context, cands,
                        ci as int)) by {
                        assert(0 <= ci - 1 < ci);
                    }
                }
                if any_scores(structures@, all_tiles_counts@, base_context, cands, ci as int) {
                    let i = choose|i: int| 0 <= i < ci && scores_with_tile(structures@,
                        all_tiles_counts@, base_context, #[trigger] cands.index(i),
                        structures@.len() as int);
                    if i == ci - 1 {
                    } else {
                        assert(any_scores(structures@, all_tiles_counts@, base_context,
                            cands, ci as int - 1));
                    }
                }
            }
            if have_best {
                assert forall|i: int, k: int| 0 <= i < ci as int && 0 <= k
                    < structures@.len() implies #[trigger] scored_key_le(structures@,
                    all_tiles_counts@, base_context, cands.index(i), k,
                    score_key(best_results@[0].2)) by {
                    if i == ci - 1 {
                        assert(scored_key_le(structures@, all_tiles_counts@, base_context,
                            cands[ci - 1], k, score_key(best_results@[0].2)));
                    }
                }
            }
        }
    }

    proof {
        // candidate tiles and hand tiles name the same set, so the
        // existence statements agree
        assert((best_results@.len() > 0) == some_candidate_scores(structures@,
            all_tiles_counts@, base_context, tiles@)) by {
            if any_scores(structures@, all_tiles_counts@, base_context, cands,
                cands.len() as int) {
                let i = choose|i: int| 0 <= i < cands.len() && scores_with_tile(structures@,
                    all_tiles_counts@, base_context, #[trigger] cands.index(i),
                    structures@.len() as int);
                assert(tiles@.contains(cands[i]));
            }
            if some_candidate_scores(structures@, all_tiles_counts@, base_context, tiles@) {
                let t = choose|t: Tile| #[trigger] tiles@.contains(t) && scores_with_tile(
                    structures@, all_tiles_counts@, base_context, t,
                    structures@.len() as int);
                assert(candidates@.contains(t));
                let i = choose|i: int| 0 <= i < cands.len()
                    && #[trigger] cands.index(i) == t;
                assert(any_scores(structures@, all_tiles_counts@, base_context, cands,
                    cands.len() as int));
            }
        }
        if best_results@.len() > 0 {
            // maximality over every hand tile
            assert forall|t: Tile, k: int| tiles@.contains(t) && 0 <= k < structures@.len()
                implies #[trigger] scored_key_le(structures@, all_tiles_counts@,
                base_context, t, k, score_key(best_results@[0].2)) by {
                assert(candidates@.contains(t));
                let i = choose|i: int| 0 <= i < cands.len() && #[trigger] cands.index(i) == t;
                assert(scored_key_le(structures@, all_tiles_counts@, base_context,
                    cands.index(i), k, score_key(best_results@[0].2)));
            }
            // the kept context names the attaining tile
            assert(tiles@.contains(cands[best_i]));
            assert(some_yaku(structures@.index(best_k), all_tiles_counts@,
                ctx_with_tile(base_context, cands[best_i])));
            assert(candidate_key(structures@.index(best_k), all_tiles_counts@,
                ctx_with_tile(base_context, cands[best_i]))
                == score_key(best_results@[0].2));
        }
    }
    (best_results, best_context)
}

/// The selected key is a function of the decomposition multiset: two runs
/// whose decomposition lists are permutations of one another, over the
/// same hand tiles and base context, select the same score key. Together
/// with the selection contract this is the shuffle-stability of the
/// best-interpretation choice.
pub proof fn lemma_inference_stable(
    s1: Seq<HandStructure>,
    s2: Seq<HandStructure>,
    c: Seq<u8>,
    base: GameContext,
    tiles: Seq<Tile>,
    bk1: (int, int, int),
    bk2: (int, int, int),
)
    requires
        s1.to_multiset() == s2.to_multiset(),
        exists|t: Tile, k: int| tiles.contains(t) && 0 <= k < s1.len()
            && some_yaku(s1.index(k), c, ctx_with_tile(base, t))
            && #[trigger] candidate_key(s1.index(k), c, ctx_with_tile(base, t)) == bk1,
        forall|t: Tile, k: int| tiles.contains(t) && 0 <= k < s1.len()
            ==> #[trigger] scored_key_le(s1, c, base, t, k, bk1),
        exists|t: Tile, k: int| tiles.contains(t) && 0 <= k < s2.len()
            && some_yaku(s2.index(k), c, ctx_with_tile(base, t))
            && #[trigger] candidate_key(s2.index(k), c, ctx_with_tile(base, t)) == bk2,
        forall|t: Tile, k: int| tiles.contains(t) && 0 <= k < s2.len()
            ==> #[trigger] scored_key_le(s2, c, base, t, k, bk2),
    ensures
        bk1 == bk2,
{
    broadcast use vstd::seq_lib::group_to_multiset_ensures;

    let (t1, k1) = choose|t1: Tile, k1: int| tiles.contains(t1) && 0 <= k1 < s1.len()
        && some_yaku(s1.index(k1), c, ctx_with_tile(base, t1))
        && #[trigger] candidate_key(s1.index(k1), c, ctx_with_tile(base, t1)) == bk1;
    assert(s1.contains(s1.index(k1)));
    assert(s2.contains(s1.index(k1))) by {
        assert(s2.to_multiset().count(s1.index(k1)) > 0);
    }
    let j1 = choose|j1: int| 0 <= j1 < s2.len() && s2.index(j1) == s1.index(k1);
    assert(scored_key_le(s2, c, base, t1, j1, bk2));
    assert(key_le(bk1, bk2));

    let (t2, k2) = choose|t2: Tile, k2: int| tiles.contains(t2) && 0 <= k2 < s2.len()
        && some_yaku(s2.index(k2), c, ctx_with_tile(base, t2))
        && #[trigger] candidate_key(s2.index(k2), c, ctx_with_tile(base, t2)) == bk2;
    assert(s2.contains(s2.index(k2)));
    assert(s1.contains(s2.index(k2))) by {
        assert(s1.to_multiset().count(s2.index(k2)) > 0);
    }
    let j2 = choose|j2: int| 0 <= j2 < s1.len() && s1.index(j2) == s2.index(k2);
    assert(scored_key_le(s1, c, base, t2, j2, bk1));
    assert(key_le(bk2, bk1));
}

} // verus!
