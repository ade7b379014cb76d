use naitou_shogi::book::{BookState, Formation};
use naitou_shogi::engine::search::EngineResponseRaw;
use naitou_shogi::engine::{Engine, EngineResponse};
use naitou_shogi::moves::Move;
use naitou_shogi::naitou::Handicap;
use naitou_shogi::piece::PAWN;
use naitou_shogi::position::Position;
use naitou_shogi::sfen::decode::{sfen_decode_move, sfen_decode_position};
use naitou_shogi::sfen::encode::sfen_encode_move;
use naitou_shogi::shogi::{COM, HUM};

fn mv(s: &str) -> Move {
    sfen_decode_move(s).unwrap()
}

fn step(engine: &mut Engine, s: &str) -> EngineResponse {
    let m = mv(s);
    assert!(engine.position().is_playable(m));
    engine.do_step(m).unwrap()
}

fn reply_of(resp: &EngineResponse) -> String {
    sfen_encode_move(resp.move_com().unwrap().to_move())
}

fn engine_at(sfen: &str, progress_ply: u8, progress_level: u8) -> Engine {
    let (side, board, hands) = sfen_decode_position(sfen).unwrap();
    Engine {
        pos: Position::new(side, board, hands),
        progress_ply,
        progress_level,
        progress_level_sub: 0,
        book_state: BookState::new(Formation::Sikenbisha),
        naitou_best_src_value: 0,
    }
}

#[test]
fn test_book_move_after_7g7f() {
    let (mut engine, first) = Engine::new(Handicap::HumSenteSikenbisha);
    assert!(first.is_none());
    let unused_before = engine.book_state().mask_unused_moves.count_ones();

    let resp = step(&mut engine, "7g7f");

    assert!(matches!(resp, EngineResponse::Move(_)));
    assert_eq!(reply_of(&resp), "3c3d");
    assert_eq!(engine.book_state().formation(), Formation::Sikenbisha);
    assert_eq!(engine.progress_ply(), 2);
    assert_eq!(engine.progress_level(), 0);
    assert_eq!(engine.book_state().mask_unused_moves.count_ones(), unused_before - 1);
    assert_eq!(engine.position().side_to_move(), HUM);
}

#[test]
fn test_book_branch_on_pawn_2e() {
    let (mut engine, _) = Engine::new(Handicap::HumSenteSikenbisha);

    let resp1 = step(&mut engine, "2g2f");
    assert_eq!(reply_of(&resp1), "3c3d");
    let branch_before = engine.book_state().mask_unused_branch;

    let resp2 = step(&mut engine, "2f2e");
    assert_eq!(reply_of(&resp2), "2b3c");
    let branch_after = engine.book_state().mask_unused_branch;
    assert_eq!(branch_before.count_ones(), branch_after.count_ones() + 1);
    assert_eq!(branch_before & !branch_after, 1 << 8);
}

#[test]
fn test_hum_nimaiochi_has_no_first_move() {
    let (engine, first) = Engine::new(Handicap::HumNimaiochi);
    assert!(first.is_none());
    assert_eq!(engine.position().side_to_move(), HUM);
    assert_eq!(engine.progress_ply(), 0);
    assert_eq!(engine.book_state().formation(), Formation::HumNimaiochi);
}

#[test]
fn test_com_sente_first_move_is_the_book_move() {
    let (mut engine, first) = Engine::new(Handicap::ComSenteSikenbisha);
    let first = first.unwrap();
    assert_eq!(sfen_encode_move(first.to_move()), "3c3d");
    assert_eq!(engine.progress_ply(), 1);
    assert_eq!(engine.position().side_to_move(), HUM);
    // At progress ply 0 the book entry is not used up.
    assert_eq!(engine.book_state().mask_unused_moves & 1, 1);

    let before = engine.clone();
    let resp = step(&mut engine, "7g7f");
    assert!(resp.move_com().is_some());
    engine.undo_step(&resp);
    assert_eq!(engine.naitou_best_src_value, before.naitou_best_src_value);
    assert_eq!(engine.progress_ply(), before.progress_ply());
    assert_eq!(engine.progress_level(), before.progress_level());
    assert_eq!(engine.progress_level_sub(), before.progress_level_sub());
    assert_eq!(engine.book_state(), before.book_state());
    assert_eq!(engine.position().board(), before.position().board());
    assert_eq!(engine.position().hands(), before.position().hands());
    assert_eq!(engine.position().side_to_move(), before.position().side_to_move());
    assert_eq!(engine.position().ply(), before.position().ply());
    assert_eq!(
        engine.position().effect_count_board(HUM),
        before.position().effect_count_board(HUM)
    );
    assert_eq!(
        engine.position().effect_count_board(COM),
        before.position().effect_count_board(COM)
    );
}

#[test]
fn test_self_check_is_refused() {
    // HUM's king on 5i is attacked by the rook on 5a.
    let mut engine = engine_at("sfen 3kr4/9/9/9/9/9/9/9/4K1G2 b - 1", 10, 1);
    let before = engine.clone();

    let stay = mv("3i3h");
    assert!(engine.position().is_playable(stay));
    assert!(engine.do_step(stay).is_err());
    assert_eq!(engine.position().board(), before.position().board());
    assert_eq!(engine.position().side_to_move(), HUM);
    assert_eq!(engine.progress_ply(), 10);

    let away = mv("5i4i");
    assert!(engine.position().is_playable(away));
    assert!(engine.do_step(away).is_ok());
}

#[test]
fn test_root_with_hum_king_en_prise_is_hum_suicide() {
    // COM to move, and HUM's king on 5i stands on the file of COM's rook.
    let mut engine = engine_at("sfen 3kr4/9/9/9/9/9/9/9/4K1G2 w - 1", 10, 1);
    let root = engine.evaluate_root();
    assert!(root.adv_price >= 30);
    assert_eq!(engine.think(None), EngineResponseRaw::HumSuicide);
}

#[test]
fn test_pawn_drop_mate_is_rejected() {
    // HUM's king on 1i is shut in by its own knight and by the gold on
    // 2g; a pawn dropped on 1h, guarded by that gold, would mate.
    let sfen = "sfen 4k4/9/9/9/9/9/7g1/9/7NK w p 1";
    let mut engine = engine_at(sfen, 10, 1);
    let drop = Move::new_drop(PAWN, naitou_shogi::shogi::SQ_18());
    assert!(engine.position().is_playable(drop));

    match engine.think(None) {
        EngineResponseRaw::Move(m) => {
            assert_ne!(m.best_mv, drop);
            assert!(!m.hum_is_checkmated);
        }
        EngineResponseRaw::HumWin => {}
        EngineResponseRaw::HumSuicide => panic!("the root is not a suicide of HUM"),
    }
}

#[test]
fn test_mate_is_played() {
    // Gold on 2g, HUM's king on 1i shut in: a gold dropped on 2h mates,
    // and it is the first mate that the scan meets.
    let sfen = "sfen 4k4/9/9/9/9/9/7g1/9/7NK w g 1";
    let mut engine = engine_at(sfen, 10, 1);
    match engine.think(None) {
        EngineResponseRaw::Move(m) => {
            assert!(m.hum_is_checkmated);
            assert_eq!(sfen_encode_move(m.best_mv), "G*2h");
        }
        other => panic!("expected a mating move, got {:?}", other),
    }
}

#[test]
fn test_undo_step_restores_the_engine() {
    let (mut engine, _) = Engine::new(Handicap::HumSenteNakabisha);
    let moves = ["7g7f", "2g2f", "2f2e", "6i7h", "3i4h"];
    let mut history = vec![];
    for m in moves {
        let before = engine.clone();
        let resp = step(&mut engine, m);
        history.push((before, resp));
    }
    while let Some((before, resp)) = history.pop() {
        engine.undo_step(&resp);
        assert_eq!(engine.position().board(), before.position().board());
        assert_eq!(engine.position().hands(), before.position().hands());
        assert_eq!(engine.position().ply(), before.position().ply());
        assert_eq!(engine.progress_ply(), before.progress_ply());
        assert_eq!(engine.progress_level(), before.progress_level());
        assert_eq!(engine.progress_level_sub(), before.progress_level_sub());
        assert_eq!(engine.book_state(), before.book_state());
        assert_eq!(engine.naitou_best_src_value, before.naitou_best_src_value);
        assert_eq!(engine.position().bb_occupied(), before.position().bb_occupied());
        assert_eq!(engine.position().king_square(HUM), before.position().king_square(HUM));
        assert_eq!(engine.position().king_square(COM), before.position().king_square(COM));
        assert_eq!(engine.position().com_nonking_count(), before.position().com_nonking_count());
    }
}

#[test]
fn test_progress_levels() {
    let (mut engine, _) = Engine::new(Handicap::HumSenteSikenbisha);
    engine.progress_ply = 49;
    engine.progress_level = 1;
    let umv = engine.do_move_hum(mv("7g7f")).unwrap();
    assert_eq!(engine.progress_ply(), 50);
    assert_eq!(engine.progress_level(), 1);
    assert_eq!(umv.progress_ply, 49);

    engine.progress_ply = 50;
    engine.pos = Position::new(
        HUM,
        engine.position().board().clone(),
        *engine.position().hands(),
    );
    engine.do_move_hum(mv("2g2f")).unwrap();
    assert_eq!(engine.progress_ply(), 51);
    assert_eq!(engine.progress_level(), 2);

    engine.progress_ply = 70;
    engine.pos = Position::new(
        HUM,
        engine.position().board().clone(),
        *engine.position().hands(),
    );
    engine.do_move_hum(mv("2f2e")).unwrap();
    assert_eq!(engine.progress_ply(), 71);
    assert_eq!(engine.progress_level(), 3);

    engine.progress_ply = 100;
    engine.increment_progress_ply();
    assert_eq!(engine.progress_ply(), 100);
}

#[test]
fn test_engine_stays_consistent_and_steps_can_be_taken_back() {
    let (mut engine, _) = Engine::new(Handicap::HumSenteNakabisha);
    assert!(engine.is_consistent());
    let start = engine.position().copy();
    let mut trail: Vec<EngineResponse> = Vec::new();
    for s in ["7g7f", "2g2f", "2f2e", "6i7h", "3i4h", "5i6h"] {
        let resp = step(&mut engine, s);
        assert!(engine.is_consistent(), "after {}", s);
        assert!(engine.can_take_back(&resp));
        assert_eq!(engine.position().side_to_move(), HUM);
        trail.push(resp);
    }
    assert_eq!(engine.progress_ply(), 12);
    while let Some(resp) = trail.pop() {
        assert!(engine.can_take_back(&resp));
        engine.undo_step(&resp);
        assert!(engine.is_consistent());
    }
    assert!(engine.position().same(&start));
    assert_eq!(engine.progress_ply(), 0);
    assert_eq!(*engine.book_state(), BookState::new(Formation::Nakabisha));
}
