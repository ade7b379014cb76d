use naitou_shogi::moves::Move;
use naitou_shogi::movegen::com::generate_moves_com;
use naitou_shogi::movegen::general::{
    generate_captures, generate_evasions, generate_evasions_naitou, generate_moves,
    position_is_checkmated, position_is_checkmated_naitou,
};
use naitou_shogi::movelist::MoveArray;
use naitou_shogi::piece::{NO_PIECE, PAWN};
use naitou_shogi::position::Position;
use naitou_shogi::sfen::decode::{sfen_decode_move, sfen_decode_position};
use naitou_shogi::sfen::encode::sfen_encode_move;
use naitou_shogi::shogi::{SQ_55, SQ_76, SQ_77};
use naitou_shogi::validity::is_buildable;

fn position_of(sfen: &str) -> Position {
    let (side_to_move, board, hands) = sfen_decode_position(sfen).unwrap();
    assert!(is_buildable(&board, &hands));
    Position::new(side_to_move, board, hands)
}

fn texts(mvs: &MoveArray) -> Vec<String> {
    mvs.to_vec().into_iter().map(sfen_encode_move).collect()
}

fn sorted(mut v: Vec<String>) -> Vec<String> {
    v.sort();
    v
}

/// The number of lines of `depth` moves that end with a capture.
fn count_captures(pos: &mut Position, depth: u32) -> u64 {
    let us = pos.side_to_move();
    let them = us.inv();
    if pos.is_checked(them) {
        return 0;
    }
    if depth == 0 {
        return 1;
    }
    let mvs = if depth == 1 {
        generate_captures(pos)
    } else if pos.is_checked(us) {
        generate_evasions(pos)
    } else {
        generate_moves(pos)
    };
    let mut res = 0;
    for mv in mvs.to_vec() {
        if !pos.is_playable(mv) {
            continue;
        }
        let umv = pos.do_move(mv);
        res += count_captures(pos, depth - 1);
        pos.undo_move(umv);
    }
    res
}

#[test]
fn test_generate_captures_startpos_shallow() {
    let mut pos = position_of("startpos");
    assert_eq!(count_captures(&mut pos, 1), 0);
    assert_eq!(count_captures(&mut pos, 2), 0);
    assert_eq!(count_captures(&mut pos, 3), 59);
}

#[test]
fn test_generate_captures_max_moves_shallow() {
    let mut pos = position_of("sfen R8/2K1S1SSk/4B4/9/9/9/9/9/1L1L1L3 b RBGSNLP3g3n17p 1");
    assert_eq!(count_captures(&mut pos, 1), 0);
    assert_eq!(count_captures(&mut pos, 2), 538);
}

#[test]
fn test_generate_captures_lists_the_captures() {
    let pos = position_of("sfen 4k4/9/9/9/3pPp3/9/9/4R4/4K4 b - 1");
    assert!(texts(&generate_captures(&pos)).is_empty());
    let pos = position_of("sfen 4k4/9/4p4/3p1p3/4B4/3P1p3/9/9/4K4 b - 1");
    assert_eq!(
        sorted(texts(&generate_captures(&pos))),
        vec!["5e4d", "5e4f", "5e6d"]
    );
    // Into the zone a bishop may promote or not.
    let pos = position_of("sfen 4k4/9/3p5/4B4/9/9/9/9/4K4 b - 1");
    assert_eq!(
        sorted(texts(&generate_captures(&pos))),
        vec!["5d6c", "5d6c+"]
    );
}

#[test]
fn test_generate_moves_startpos() {
    let pos = position_of("startpos");
    let mvs = generate_moves(&pos);
    assert_eq!(mvs.len(), 30);
    assert_eq!(
        sorted(texts(&mvs)),
        sorted(
            [
                "1g1f", "2g2f", "3g3f", "4g4f", "5g5f", "6g6f", "7g7f", "8g8f", "9g9f", "1i1h",
                "9i9h", "3i3h", "3i4h", "7i7h", "7i6h", "4i3h", "4i4h", "4i5h", "6i5h", "6i6h",
                "6i7h", "5i4h", "5i5h", "5i6h", "2h1h", "2h3h", "2h4h", "2h5h", "2h6h", "2h7h",
            ]
            .iter()
            .map(|s| s.to_string())
            .collect()
        )
    );
}

#[test]
fn test_generated_moves_start_on_own_pieces_and_spare_them() {
    let sfens = [
        "startpos",
        "sfen R8/2K1S1SSk/4B4/9/9/9/9/9/1L1L1L3 b RBGSNLP3g3n17p 1",
        "sfen lnsgkgsnl/1r5b1/ppppppppp/9/9/9/PPPPPPPPP/1B5R1/LNSGKGSNL w - 1",
        "sfen 4k4/9/4+P4/9/9/9/9/9/4K4 w 2R2B4G4S4N4L17p 1",
    ];
    for sfen in sfens {
        let pos = position_of(sfen);
        let us = pos.side_to_move();
        let mvs = generate_moves(&pos);
        assert!(!mvs.is_empty());
        for mv in mvs.to_vec() {
            assert!(mv.is_valid());
            let dst = pos.board().get(mv.dst());
            if mv.is_drop() {
                assert!(pos.hand(us).get(mv.dropped_piece_kind()) > 0);
                assert_eq!(dst, NO_PIECE);
            } else {
                let src = pos.board().get(mv.src());
                assert!(src.is_piece() && src.side() == us);
                assert!(!(dst.is_piece() && dst.side() == us));
            }
        }
    }
}

#[test]
fn test_promotion_rules_of_the_general_generator() {
    // A pawn, a lance and a knight that must promote, a silver that may.
    let pos = position_of("sfen 8k/P2L2N2/9/1S7/9/9/9/9/4K4 b - 1");
    let mvs = sorted(texts(&generate_moves(&pos)));
    assert!(mvs.contains(&"9b9a+".to_string()));
    assert!(!mvs.contains(&"9b9a".to_string()));
    assert!(mvs.contains(&"6b6a+".to_string()));
    assert!(!mvs.contains(&"6b6a".to_string()));
    assert!(!mvs.iter().any(|m| m.starts_with("3b")));
    assert!(mvs.contains(&"8d8c".to_string()));
    assert!(mvs.contains(&"8d8c+".to_string()));
    assert!(mvs.contains(&"8d7e".to_string()));
    assert!(!mvs.contains(&"8d7e+".to_string()));
}

#[test]
fn test_drop_rules_of_the_general_generator() {
    let pos = position_of("sfen 4k4/9/9/9/9/9/4P4/9/4K4 b PLN 1");
    let mvs = texts(&generate_moves(&pos));
    // No second pawn on file 5, no pawn or lance on the last rank, no
    // knight on the last two.
    assert!(!mvs.contains(&"P*5e".to_string()));
    assert!(mvs.contains(&"P*4e".to_string()));
    assert!(!mvs.contains(&"P*4a".to_string()));
    assert!(mvs.contains(&"P*4b".to_string()));
    assert!(!mvs.contains(&"L*4a".to_string()));
    assert!(mvs.contains(&"L*4b".to_string()));
    assert!(!mvs.contains(&"N*4a".to_string()));
    assert!(!mvs.contains(&"N*4b".to_string()));
    assert!(mvs.contains(&"N*4c".to_string()));
    // 78 empty squares: pawns on 8 files without rank 1 and without 5a's
    // file, lances without rank 1, knights without ranks 1 and 2.
    let drops = mvs.iter().filter(|m| m.contains('*')).count();
    assert_eq!(drops, 8 * 8 + (78 - 8) + (78 - 8 - 9));
}

#[test]
fn test_generate_moves_com_startpos_order() {
    let pos = position_of("sfen lnsgkgsnl/1r5b1/ppppppppp/9/9/9/PPPPPPPPP/1B5R1/LNSGKGSNL w - 1");
    assert_eq!(
        texts(&generate_moves_com(&pos)),
        vec![
            "9a9b", "7a6b", "7a7b", "6a5b", "6a6b", "6a7b", "5a4b", "5a5b", "5a6b", "4a3b",
            "4a4b", "4a5b", "3a3b", "3a4b", "1a1b", "8b9b", "8b7b", "8b6b", "8b5b", "8b4b",
            "8b3b", "9c9d", "8c8d", "7c7d", "6c6d", "5c5d", "4c4d", "3c3d", "2c2d", "1c1d",
        ]
    );
}

#[test]
fn test_generate_moves_com_drops_and_promotions() {
    let pos = position_of("sfen 4k4/9/9/9/9/4p4/9/9/4K4 w pr 1");
    let mvs = texts(&generate_moves_com(&pos));
    assert_eq!(mvs.len(), 78 + 64 + 5 + 1);
    assert_eq!(
        mvs[..13].to_vec(),
        vec![
            "P*9a", "R*9a", "P*8a", "R*8a", "P*7a", "R*7a", "P*6a", "R*6a", "5a4b", "5a5b",
            "5a6b", "5a4a", "5a6a",
        ]
    );
    // The pawn promotes as soon as it can, and no pawn is dropped on its file.
    assert!(mvs.contains(&"5f5g+".to_string()));
    assert!(!mvs.contains(&"5f5g".to_string()));
    assert!(!mvs.contains(&"P*5c".to_string()));
    assert!(mvs.contains(&"R*5c".to_string()));
    assert!(!mvs.contains(&"P*4i".to_string()));
    assert_eq!(mvs[mvs.len() - 1], "R*1i");
}

#[test]
fn test_generate_moves_com_ray_order() {
    // Bishop: up-left, down-left, up-right, down-right; rook: up, down, left, right.
    let pos = position_of("sfen 8k/9/9/9/4b4/9/9/9/K8 w - 1");
    let mvs = texts(&generate_moves_com(&pos));
    assert_eq!(
        mvs,
        vec![
            "1a1b", "1a2b", "1a2a", "5e6d", "5e7c", "5e8b", "5e9a", "5e6f", "5e7g+", "5e8h+",
            "5e9i+", "5e4d", "5e3c", "5e2b", "5e4f", "5e3g+", "5e2h+", "5e1i+",
        ]
    );
    let pos = position_of("sfen 8k/9/9/9/4r4/9/9/9/K8 w - 1");
    let mvs = texts(&generate_moves_com(&pos));
    assert_eq!(
        mvs,
        vec![
            "1a1b", "1a2b", "1a2a", "5e5d", "5e5c", "5e5b", "5e5a", "5e5f", "5e5g+", "5e5h+",
            "5e5i+", "5e6e", "5e7e", "5e8e", "5e9e", "5e4e", "5e3e", "5e2e", "5e1e",
        ]
    );
}

#[test]
fn test_generate_moves_com_does_not_depend_on_the_way() {
    let (side, board, hands) = sfen_decode_position("startpos").unwrap();
    let mut one = Position::new(side, board.clone(), hands);
    let mut two = Position::new(side, board, hands);
    for s in ["7g7f", "3c3d", "2g2f", "8c8d", "2f2e"] {
        one.do_move(sfen_decode_move(s).unwrap());
    }
    for s in ["2g2f", "8c8d", "2f2e", "3c3d", "7g7f"] {
        two.do_move(sfen_decode_move(s).unwrap());
    }
    assert_eq!(one.board(), two.board());
    let a = generate_moves_com(&one);
    let b = generate_moves_com(&two);
    assert_eq!(a.to_vec(), b.to_vec());
    assert_eq!(a.len(), 38);

    let fresh = position_of(
        "sfen lnsgkgsnl/1r5b1/p1pppp1pp/1p4p2/7P1/2P6/PP1PPPP1P/1B5R1/LNSGKGSNL w - 1",
    );
    assert_eq!(generate_moves_com(&fresh).to_vec(), a.to_vec());
}

#[test]
fn test_generate_evasions() {
    // The rook checks along the file: the king steps aside. Nothing can block.
    let pos = position_of("sfen 4k4/9/9/9/4R4/9/9/9/4K4 w - 1");
    assert_eq!(
        sorted(texts(&generate_evasions(&pos))),
        vec!["5a4a", "5a4b", "5a6a", "5a6b"]
    );
    // With a gold in hand every square between may take it.
    let pos = position_of("sfen 4k4/9/9/9/4R4/9/9/9/4K4 w g 1");
    let all = sorted(texts(&generate_evasions(&pos)));
    for s in ["G*5b", "G*5c", "G*5d", "5a4a"] {
        assert!(all.contains(&s.to_string()), "{} is missing", s);
    }
    // The console looks only at drops next to the king.
    let near = sorted(texts(&generate_evasions_naitou(&pos)));
    assert!(near.contains(&"G*5b".to_string()));
    assert!(!near.contains(&"G*5c".to_string()));
    assert!(!near.contains(&"G*5d".to_string()));
    assert!(near.contains(&"5a4a".to_string()));
}

#[test]
fn test_position_is_checkmated() {
    // Gold on 5b held by the pawn on 5c.
    let mut mated = position_of("sfen 4k4/4G4/4P4/9/9/9/9/9/4K4 w - 1");
    let before = mated.copy();
    assert!(mated.is_checked(naitou_shogi::shogi::COM));
    assert!(position_is_checkmated(&mut mated));
    assert!(position_is_checkmated_naitou(&mut mated));
    assert!(mated.is_checkmated());
    assert!(mated.same(&before));

    // The gold is not held: the king takes it.
    let mut free = position_of("sfen 4k4/4G4/9/9/9/9/9/9/4K4 w - 1");
    assert!(free.is_checked(naitou_shogi::shogi::COM));
    assert!(!position_is_checkmated(&mut free));
    assert!(!position_is_checkmated_naitou(&mut free));

    // A far check that only a knight dropped in between answers.  Next to
    // the king no knight can be dropped, and the console looks nowhere else.
    let mut far = position_of("sfen K7R/9/9/9/9/9/9/7p1/7pk w n 1");
    assert!(far.is_checked(naitou_shogi::shogi::COM));
    assert!(!position_is_checkmated(&mut far));
    assert!(position_is_checkmated_naitou(&mut far));
}

#[test]
fn test_move_array_holds_what_is_pushed() {
    let mut mvs = MoveArray::new();
    assert!(mvs.is_empty());
    assert_eq!(mvs.len(), 0);
    let a = Move::new_walk(SQ_77(), SQ_76());
    let b = Move::new_drop(PAWN, SQ_55());
    mvs.push(a);
    mvs.push(b);
    assert!(!mvs.is_empty());
    assert_eq!(mvs.len(), 2);
    assert_eq!(mvs.get(0), a);
    assert_eq!(mvs.get(1), b);
    assert_eq!(mvs.to_vec(), vec![a, b]);
    mvs.clear();
    assert!(mvs.is_empty());
    assert_eq!(mvs.to_vec(), Vec::<Move>::new());
}

#[test]
fn test_move_array_keeps_the_first_600() {
    let mut mvs = MoveArray::new();
    let a = Move::new_walk(SQ_77(), SQ_76());
    let b = Move::new_drop(PAWN, SQ_55());
    for _ in 0..600 {
        mvs.push(a);
    }
    assert_eq!(mvs.len(), 600);
    mvs.push(b);
    assert_eq!(mvs.len(), 600);
    assert_eq!(mvs.get(599), a);
    assert!(!mvs.to_vec().contains(&b));
}
