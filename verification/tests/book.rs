use naitou_shogi::book::{BookState, Formation};
use naitou_shogi::moves::Move;
use naitou_shogi::naitou::Handicap;
use naitou_shogi::position::Position;
use naitou_shogi::sfen::decode::{sfen_decode_move, sfen_decode_position};

fn position_of(sfen: &str) -> Position {
    let (side_to_move, board, hands) = sfen_decode_position(sfen).unwrap();
    Position::new(side_to_move, board, hands)
}

fn mv(s: &str) -> Move {
    sfen_decode_move(s).unwrap()
}

const COM_TO_MOVE: &str = "sfen lnsgkgsnl/1r5b1/ppppppppp/9/9/9/PPPPPPPPP/1B5R1/LNSGKGSNL w - 1";

#[test]
fn test_formation_from_handicap() {
    assert_eq!(Formation::from_handicap(Handicap::HumSenteSikenbisha), Formation::Sikenbisha);
    assert_eq!(Formation::from_handicap(Handicap::ComSenteSikenbisha), Formation::Sikenbisha);
    assert_eq!(Formation::from_handicap(Handicap::HumSenteNakabisha), Formation::Nakabisha);
    assert_eq!(Formation::from_handicap(Handicap::ComSenteNakabisha), Formation::Nakabisha);
    assert_eq!(Formation::from_handicap(Handicap::HumHishaochi), Formation::HumHishaochi);
    assert_eq!(Formation::from_handicap(Handicap::HumNimaiochi), Formation::HumNimaiochi);
    assert_eq!(Formation::from_handicap(Handicap::ComHishaochi), Formation::ComHishaochi);
    assert_eq!(Formation::from_handicap(Handicap::ComNimaiochi), Formation::ComNimaiochi);
    assert!(Formation::Nothing.is_nothing());
    assert!(!Formation::Sikenbisha.is_nothing());
}

#[test]
fn test_new_state_has_every_entry_unused() {
    let state = BookState::new(Formation::Sikenbisha);
    assert_eq!(state.formation(), Formation::Sikenbisha);
    assert_eq!(state.mask_unused_branch, (1 << Formation::Sikenbisha.book_branch().len()) - 1);
    assert_eq!(state.mask_unused_moves, (1 << Formation::Sikenbisha.book_moves().len()) - 1);
    assert!(state.is_consistent());
    for formation in [
        Formation::Nakabisha,
        Formation::Sikenbisha,
        Formation::Kakugawari,
        Formation::Sujichigai,
        Formation::HumHishaochi,
        Formation::HumNimaiochi,
        Formation::ComHishaochi,
        Formation::ComNimaiochi,
    ] {
        assert!(!formation.book_moves().is_empty());
        assert!(formation.book_branch().len() <= 20);
        assert!(formation.book_moves().len() <= 20);
        assert!(BookState::new(formation).is_consistent());
    }
}

#[test]
fn test_moves_of_the_list_come_in_order_and_are_used_up() {
    let pos = position_of(COM_TO_MOVE);
    let mut state = BookState::new(Formation::Sikenbisha);
    let all = state.mask_unused_moves;

    assert_eq!(state.next_move(&pos, 1), Some(mv("3c3d")));
    assert_eq!(state.mask_unused_moves, all & !1);
    assert_eq!(state.next_move(&pos, 2), Some(mv("4c4d")));
    assert_eq!(state.mask_unused_moves, all & !3);
    assert_eq!(state.next_move(&pos, 3), Some(mv("3a3b")));
    assert_eq!(state.formation(), Formation::Sikenbisha);
    assert!(state.is_consistent());
}

#[test]
fn test_at_progress_ply_0_nothing_is_used_up() {
    let pos = position_of(COM_TO_MOVE);
    let mut state = BookState::new(Formation::Sikenbisha);
    let fresh = state;
    assert_eq!(state.next_move(&pos, 0), Some(mv("3c3d")));
    assert_eq!(state, fresh);
    assert_eq!(state.next_move(&pos, 0), Some(mv("3c3d")));
}

#[test]
fn test_branch_entry_comes_before_the_list() {
    // HUM's pawn stands on 2e.
    let pos = position_of("sfen lnsgkgsnl/1r5b1/ppppppppp/9/7P1/9/PPPPPPP1P/1B5R1/LNSGKGSNL w - 1");
    let mut state = BookState::new(Formation::Sikenbisha);
    let branches = state.mask_unused_branch;
    let moves = state.mask_unused_moves;

    assert_eq!(state.next_move(&pos, 3), Some(mv("2b3c")));
    assert_eq!(state.mask_unused_branch, branches & !(1 << 8));
    assert_eq!(state.mask_unused_moves, moves);
    // The entry is used: the list is next.
    assert_eq!(state.next_move(&pos, 4), Some(mv("3c3d")));
}

#[test]
fn test_change_of_formation() {
    // HUM's bishop has taken on 2b and promoted.
    let pos = position_of("sfen lnsgkgsnl/1r5+B1/pppppp1pp/6p2/9/2P6/PP1PPPPPP/7R1/LNSGKGSNL w - 1");
    let mut state = BookState::new(Formation::Sikenbisha);
    let reply = state.next_move(&pos, 4);
    assert_eq!(state.formation(), Formation::Kakugawari);
    assert_eq!(reply, Some(mv("3c3d")));
    assert_eq!(
        state.mask_unused_branch,
        (1 << Formation::Kakugawari.book_branch().len()) - 1
    );

    // Past progress ply 5 the formation stays.
    let mut late = BookState::new(Formation::Sikenbisha);
    late.next_move(&pos, 6);
    assert_eq!(late.formation(), Formation::Sikenbisha);
}

#[test]
fn test_used_up_list_leaves_the_book() {
    let pos = position_of(COM_TO_MOVE);
    let mut state = BookState::new(Formation::Sikenbisha);
    state.mask_unused_moves = 0;
    assert_eq!(state.next_move(&pos, 7), None);
    assert_eq!(state.formation(), Formation::Nothing);
    assert!(state.formation().is_nothing());
}

#[test]
fn test_change_formation_starts_afresh() {
    let mut state = BookState::new(Formation::Sikenbisha);
    state.mask_unused_moves = 0;
    state.mask_unused_branch = 0;
    state.change_formation(Formation::Sujichigai);
    assert_eq!(state, BookState::new(Formation::Sujichigai));
}

#[test]
fn test_is_consistent_sees_a_mark_beyond_the_table() {
    let mut state = BookState::new(Formation::Sujichigai);
    assert!(state.is_consistent());
    state.mask_unused_branch |= 1 << 31;
    assert!(!state.is_consistent());
}
