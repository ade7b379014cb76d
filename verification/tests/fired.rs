use naitou_shogi::book::{BookState, Formation};
use naitou_shogi::engine::compare::improves_best;
use naitou_shogi::engine::fired::{
    improves_best_traced, revise_traced, try_candidate_traced, CandidateOutcome, ComparisonStep,
    Revision,
};
use naitou_shogi::engine::leaf::LeafEvaluation;
use naitou_shogi::engine::revise::{move_facts, revise};
use naitou_shogi::engine::search::{try_candidate, SearchState};
use naitou_shogi::engine::Engine;
use naitou_shogi::movegen::com::generate_moves_com;
use naitou_shogi::moves::{Move, UndoableMove};
use naitou_shogi::piece::{C_GOLD, C_KING, GOLD, NO_PIECE};
use naitou_shogi::position::Position;
use naitou_shogi::sfen::decode::sfen_decode_position;
use naitou_shogi::shogi::{SQ_41, SQ_42, SQ_51, SQ_52, SQ_55};

fn com_to_move() -> Engine {
    let (side, board, hands) = sfen_decode_position(
        "sfen lnsgkgsnl/1r5b1/ppppppppp/9/9/2P6/PP1PPPPPP/1B5R1/LNSGKGSNL w - 1",
    )
    .unwrap();
    Engine {
        pos: Position::new(side, board, hands),
        progress_ply: 1,
        progress_level: 0,
        progress_level_sub: 0,
        book_state: BookState::new(Formation::Sikenbisha),
        naitou_best_src_value: 0,
    }
}

#[test]
fn test_revise_traced_lists_the_revisions_that_fire() {

    let engine = com_to_move();
    let root = engine.evaluate_root();
    let umv = UndoableMove::from_move_walk(Move::new_walk(SQ_51(), SQ_52()), C_KING, NO_PIECE);
    let start = LeafEvaluation { hum_hanging: true, score_nega: 10, score_posi: 5, ..LeafEvaluation::worst() };

    let mut plain = start;
    revise(&root, umv, &mut plain);
    let mut traced = start;
    let steps = revise_traced(&root, umv, &mut traced);
    assert_eq!(traced, plain);
    assert_eq!(steps.len(), 24);
    assert_eq!(steps[0].before, start);
    let fired: Vec<Revision> = steps.iter().filter(|s| s.fired).map(|s| s.revision).collect();

    // A hanging piece of HUM and a move of the king always fire, in this order.
    let hanging = fired.iter().position(|r| *r == Revision::HumHanging).unwrap();
    let king = fired.iter().position(|r| *r == Revision::CaptureByKing).unwrap();
    assert!(hanging < king);
    // A pawn does not move here, and nothing is dropped.
    assert!(!fired.contains(&Revision::CaptureByPawn));
    assert!(!fired.contains(&Revision::UselessDrop));

    // Each step is what the conditions say, one revision after the other.
    let facts = move_facts(&root, umv);
    let mut e = start;
    for (i, revision) in Revision::all().into_iter().enumerate() {
        assert_eq!(steps[i].revision, revision);
        assert_eq!(steps[i].before, e);
        assert_eq!(steps[i].fired, revision.holds(&root, &facts, &e));
        let next = revision.apply(&root, &facts, e);
        if !steps[i].fired {
            assert_eq!(next, e);
        }
        e = next;
    }
    assert_eq!(Revision::all().len(), 24);
    assert_eq!(Revision::all()[0], Revision::CaptureByPawn);
    assert_eq!(Revision::all()[23], Revision::GoodCapturingCheck);
}

#[test]
fn test_improves_best_traced_names_the_step() {

    let engine = com_to_move();
    let root = engine.evaluate_root();
    assert!(root.disadv_price < 30);
    let walk = UndoableMove::from_move_walk(Move::new_walk(SQ_41(), SQ_42()), C_GOLD, NO_PIECE);
    let drop = UndoableMove::from_move_drop(Move::new_drop(GOLD, SQ_55()));
    let base = LeafEvaluation { disadv_price: 0, score_nega: 0, ..LeafEvaluation::worst() };
    let cases = [
        (LeafEvaluation { disadv_price: 40, ..base }, walk, ComparisonStep::Suicide, false),
        (LeafEvaluation { score_nega: 3, ..base }, walk, ComparisonStep::NegaWorseCapturePriceEqual, false),
        (
            LeafEvaluation { score_nega: 3, capture_price: 4, ..base },
            walk,
            ComparisonStep::NegaWorseCapturePriceBetter,
            true,
        ),
        (LeafEvaluation { capture_price: 1, ..base }, walk, ComparisonStep::NegaEqual, true),
        (LeafEvaluation { com_promo_count: 1, ..base }, walk, ComparisonStep::ComPromoCount, true),
        (LeafEvaluation { score_posi: 1, ..base }, walk, ComparisonStep::ScorePosi, true),
        (LeafEvaluation { adv_price: 1, ..base }, walk, ComparisonStep::AdvPrice, true),
        (base, drop, ComparisonStep::PreferWalk, false),
        (
            LeafEvaluation { hum_king_threat_around25: 1, ..base },
            walk,
            ComparisonStep::WalkHumKingThreatAround25,
            true,
        ),
        (
            LeafEvaluation { com_king_threat_around25: 1, ..base },
            walk,
            ComparisonStep::WalkComKingThreatAround25,
            true,
        ),
        (
            LeafEvaluation { com_loose_count: 1, ..base },
            walk,
            ComparisonStep::WalkComLooseCount,
            true,
        ),
        (base, walk, ComparisonStep::WalkSrcToComKing, false),
        (LeafEvaluation { src_to_com_king: 1, ..base }, walk, ComparisonStep::WalkSrcToComKing, true),
    ];
    for (cand, umv, step, better) in cases {
        let (improved, decided) = improves_best_traced(&root, &base, &cand, umv, 0);
        assert_eq!((decided, improved), (step, better));
        assert_eq!(improved, improves_best(&root, &base, &cand, umv, 0));
    }
}

#[test]
fn test_try_candidate_traced_agrees_with_the_search() {

    let mut engine = com_to_move();
    let root = engine.evaluate_root();
    let start = engine.position().copy();
    let fresh = || SearchState {
        best_mv: None,
        best_eval: LeafEvaluation::worst(),
        best_src_value: 0,
        done: false,
    };
    let mut plain = fresh();
    let mut traced = fresh();
    let mut seen = 0;
    for m in generate_moves_com(engine.position()).to_vec() {
        plain = try_candidate(&mut engine.pos, 0, &root, plain, m);
        let best_before = traced.best_eval;
        let (next, outcome) = try_candidate_traced(&mut engine.pos, 0, &root, traced, m);
        traced = next;
        assert_eq!(traced.best_mv, plain.best_mv);
        assert_eq!(traced.best_eval, plain.best_eval);
        assert_eq!(traced.best_src_value, plain.best_src_value);
        if let CandidateOutcome::Evaluated(t) = outcome {
            seen += 1;
            assert_eq!(t.steps.len(), 24);
            assert_eq!(t.steps[0].before, t.initial);
            assert_eq!(t.mv, m);
            assert_eq!(t.taken, traced.best_mv == Some(m));
            if t.taken {
                assert_eq!(traced.best_eval, t.revised);
            } else {
                assert_eq!(traced.best_eval, best_before);
            }
            assert_eq!(t.step.is_none(), t.revised.hum_is_checkmated);
        }
        assert!(engine.position().same(&start));
    }
    assert!(seen > 0);
    assert!(traced.best_mv.is_some());
}

#[test]
fn test_a_rejected_candidate_comes_with_its_reason() {
    // Both bishops look at each other: COM's bishop can give itself away.
    let (side, board, hands) = sfen_decode_position(
        "sfen lnsgkgsnl/1r5b1/pppppp1pp/6p2/9/2P6/PP1PPPPPP/1B5R1/LNSGKGSNL w - 1",
    )
    .unwrap();
    let mut engine = Engine {
        pos: Position::new(side, board, hands),
        progress_ply: 3,
        progress_level: 0,
        progress_level_sub: 0,
        book_state: BookState::new(Formation::Sikenbisha),
        naitou_best_src_value: 0,
    };
    let root = engine.evaluate_root();
    let mut st = SearchState {
        best_mv: None,
        best_eval: LeafEvaluation::worst(),
        best_src_value: 0,
        done: false,
    };
    let mut rejected = 0;
    for m in generate_moves_com(engine.position()).to_vec() {
        let best_before = st.best_mv;
        let (next, outcome) = try_candidate_traced(&mut engine.pos, 0, &root, st, m);
        match outcome {
            CandidateOutcome::Rejected(why) => {
                rejected += 1;
                assert_eq!(why, naitou_shogi::engine::fired::Rejection::Sacrifice);
                assert_eq!(next.best_mv, best_before);
            }
            CandidateOutcome::Evaluated(t) => assert_eq!(t.mv, m),
            CandidateOutcome::Skipped => panic!("every candidate can be played here"),
        }
        st = next;
    }
    // Nothing mates here, so every rejection is a sacrifice, and there is one.
    assert!(rejected >= 1);
}
