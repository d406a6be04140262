use oxide_chess::bitboard::OxideBitboard;
use oxide_chess::castle::OxideCastleRights;
use oxide_chess::chess_move::{promotion_piece_to_move_type, OxideMove, OxideMoveType};
use oxide_chess::piece::{OxidePiece, OxideSidedPiece};
use oxide_chess::position::OxidePosition;
use oxide_chess::side::OxideSide;
use oxide_chess::square::OxideSquare;
use oxide_chess::square::OxideSquare::{A1, B2, D4, D5, E4, E7, E8, F8, H1, H8};

#[test]
fn castle_rights_are_a_set() {
    assert!(OxideCastleRights::All.contains(OxideCastleRights::WhiteKingBlackQueen));
    assert!(!OxideCastleRights::WhiteAll.contains(OxideCastleRights::BothKings));
    assert!(OxideCastleRights::WhiteAll.intersects(OxideCastleRights::BothKings));
    assert!(!OxideCastleRights::WhiteAll.intersects(OxideCastleRights::BlackAll));
    assert!(!OxideCastleRights::NONE.intersects(OxideCastleRights::All));
    let mut rights = OxideCastleRights::WhiteKing;
    rights.insert(OxideCastleRights::BlackAll);
    assert_eq!(rights, OxideCastleRights::BlackAllWhiteKing);
    rights.remove(OxideCastleRights::BothKings);
    assert_eq!(rights, OxideCastleRights::BlackQueen);
    assert_eq!(OxideCastleRights::WhiteAll | OxideCastleRights::BlackKing, OxideCastleRights::WhiteAllBlackKing);
    assert_eq!(OxideCastleRights::WhiteAll & OxideCastleRights::BothQueens, OxideCastleRights::WhiteQueen);
    assert_eq!(!OxideCastleRights::WhiteAll, OxideCastleRights::BlackAll);
    assert_eq!(OxideCastleRights::WhiteAll.symmetric_difference(OxideCastleRights::BothKings), OxideCastleRights::WhiteQueenBlackKing);
    assert_eq!(OxideCastleRights::from_bits(9), OxideCastleRights::WhiteKingBlackQueen);
    assert_eq!(OxideCastleRights::BlackAllWhiteQueen.bits(), 14);
    assert_eq!(OxideCastleRights::from_flags(true, false, true, false), OxideCastleRights::BothKings);
}

#[test]
fn castle_paths_lie_between_king_and_rook() {
    assert_eq!(OxideCastleRights::NONE.castle_path(), OxideBitboard(0));
    assert_eq!(OxideCastleRights::WhiteKing.castle_path(), OxideBitboard(0x60));
    assert_eq!(OxideCastleRights::WhiteQueen.castle_path(), OxideBitboard(0xe));
    assert_eq!(OxideCastleRights::BlackKing.castle_path(), OxideBitboard(0x6000000000000000));
    assert_eq!(OxideCastleRights::BlackQueen.castle_path(), OxideBitboard(0x0e00000000000000));
    assert_eq!(OxideCastleRights::All.castle_path(), OxideBitboard(0x6e0000000000006e));
}

#[test]
fn moves_are_built_up() {
    let quiet = OxideMove::new(E7, F8);
    assert_eq!(quiet.set_capture(), OxideMove::new_capture(E7, F8));
    assert_eq!(quiet.set_capture().set_capture(), OxideMove::new_capture(E7, F8));
    assert_eq!(quiet.set_promotion(OxidePiece::Rook).move_type(), OxideMoveType::RookPromotion);
    assert_eq!(quiet.set_capture().set_promotion(OxidePiece::Knight), OxideMove::new_promoting_capture(E7, F8, OxidePiece::Knight));
    assert_eq!(OxideMove::new_promotion(E7, E8, OxidePiece::Queen).set_capture().move_type(), OxideMoveType::QueenPromotingCapture);
    assert_eq!(OxideMove::new_promotion(E7, E8, OxidePiece::Queen).set_promotion(OxidePiece::Bishop).promotion(), OxidePiece::Bishop);
    assert_eq!(promotion_piece_to_move_type(OxidePiece::Bishop, true), OxideMoveType::BishopPromotingCapture);
    assert_eq!(promotion_piece_to_move_type(OxidePiece::Queen, false), OxideMoveType::QueenPromotion);
}

#[test]
fn moves_are_written_with_their_marks() {
    assert_eq!(OxideMove::white_king_castle().to_string(), "E1G1");
    assert_eq!(OxideMove::new(E7, F8).to_string(), "E7F8");
    assert_eq!(OxideMove::new_capture(E4, D5).to_string(), "E4xD5");
    assert_eq!(OxideMove::new_en_passant_capture(E4, D5).to_string(), "E4xD5");
    assert_eq!(OxideMove::new_promotion(E7, E8, OxidePiece::Knight).to_string(), "E7E8n");
    assert_eq!(OxideMove::new_promoting_capture(E7, F8, OxidePiece::Queen).to_string(), "E7xF8q");
    assert_eq!(OxideMove::new_promoting_capture(E7, F8, OxidePiece::Rook).to_string(), "E7xF8r");
    assert_eq!(OxideMove::new_promotion(E7, E8, OxidePiece::Bishop).to_string(), "E7E8b");
    assert_eq!(OxideMove::new(E7, F8).simple_move().to_string(), "E7F8");
    assert_eq!(A1.to_string(), "A1");
    assert_eq!(H8.to_string(), "H8");
    assert_eq!(B2.file_char(), 'B');
    assert_eq!(B2.rank_char(), '2');
}

#[test]
fn bitboards_shift_by_numbers() {
    assert_eq!(OxideBitboard(0x8000000000000001) << 1, OxideBitboard(0x2));
    assert_eq!(OxideBitboard(0x8000000000000001) >> 1, OxideBitboard(0x4000000000000000));
    assert_eq!(OxideBitboard(0xff) << 63, OxideBitboard(0x8000000000000000));
    assert_eq!(OxideBitboard(0x100) >> 0, OxideBitboard(0x100));
}

#[test]
fn bitboards_tell_their_squares() {
    let board = OxideBitboard(0x8000000010000001);
    assert!(board.contains(A1));
    assert!(board.contains(E4));
    assert!(board.contains(H8));
    assert!(!board.contains(D4));
    assert!(!board.is_empty());
    assert!(OxideBitboard::empty().is_empty());
    assert_eq!(board.count(), 3);
    assert_eq!(OxideBitboard::full().count(), 64);
    assert_eq!(board.squares(), vec![A1, E4, H8]);
    assert_eq!(OxideBitboard::file_mask(3), OxideBitboard::d_file());
    assert_eq!(OxideBitboard::rank_mask(6), OxideBitboard::rank_7());
    assert_eq!(OxideBitboard::rank_2(), OxideBitboard(0xff00));
    assert_eq!(OxideBitboard::rank_3(), OxideBitboard(0xff0000));
    assert_eq!(OxideBitboard::rank_6(), OxideBitboard(0xff0000000000));
    assert_eq!(OxideSquare::at(27), D4);
    assert_eq!(D4.x_offset(), 3);
    assert_eq!(D4.y_offset(), 3);
}

#[test]
fn diagonal_and_cardinal_fills_cover_the_lines() {
    // D4 on an empty board.
    assert_eq!(OxideBitboard(0x8000000).cardinal_fill(), OxideBitboard(0x08080808ff080808));
    assert_eq!(OxideBitboard(0x8000000).diagonal_fill(), OxideBitboard(0x8041221408142241));
    assert_eq!(OxideBitboard(0x8000000).north_east_fill(), OxideBitboard(0x8040201008000000));
    assert_eq!(OxideBitboard(0x8000000).north_west_fill(), OxideBitboard(0x0001020408000000));
    assert_eq!(OxideBitboard(0x8000000).south_east_fill(), OxideBitboard(0x0000000008102040));
    assert_eq!(OxideBitboard(0x8000000).south_west_fill(), OxideBitboard(0x0000000008040201));
}

#[test]
fn position_knows_its_kings_and_sets() {
    let mut position = OxidePosition::new();
    assert!(!position.side_has_king(OxideSide::White));
    position.add_piece(OxideSidedPiece::WhiteKing, A1);
    position.add_piece(OxideSidedPiece::BlackKing, H8);
    position.add_piece(OxideSidedPiece::BlackRook, H1);
    assert!(position.side_has_king(OxideSide::White));
    assert!(position.side_has_king(OxideSide::Black));
    assert_eq!(position.occupied(), OxideBitboard(0x8000000000000081));
    assert_eq!(position.empty(), OxideBitboard(!0x8000000000000081));
    assert_eq!(position.piece_mask(OxidePiece::King), OxideBitboard(0x8000000000000001));
    assert_eq!(position.mask_for_side(OxideSide::Black), OxideBitboard(0x8000000000000080));
    assert_eq!(position.sided_piece_mask(OxideSidedPiece::BlackRook), OxideBitboard(0x80));
    assert_eq!(OxidePiece::from_char('q'), OxidePiece::Queen);
    assert_eq!(OxidePiece::from_char('N'), OxidePiece::Knight);
    assert_eq!(OxidePiece::from_char('x'), OxidePiece::Empty);
    assert_eq!(OxideSidedPiece::from_char('q'), OxideSidedPiece::BlackQueen);
    assert_eq!(OxideSidedPiece::from_char('x'), OxideSidedPiece::Empty);
    assert_eq!(OxideSidedPiece::WhiteBishop.to_char(), 'B');
    assert_eq!(OxidePiece::Rook.add_side(OxideSide::Black), OxideSidedPiece::BlackRook);
    assert_eq!(OxidePiece::Empty.add_side(OxideSide::Black), OxideSidedPiece::Empty);
    assert_eq!(OxideSide::White.opposite_side(), OxideSide::Black);
}

#[test]
fn diagram_shows_board_and_state() {
    let position = OxidePosition::from_fen("rnbqkbnr/pppppppp/8/8/8/8/PPPPPPPP/RNBQKBNR w KQkq - 0 1").unwrap();
    let expected = [
        "  ABCDEFGH".to_string(),
        "8|rnbqkbnr|8     En-Passant: -".to_string(),
        "7|pppppppp|7  Castle-Rights: KQkq".to_string(),
        "6|        |6   Side-to-Move: w".to_string(),
        "5|        |5 Halfmove-Clock: 0".to_string(),
        format!("4|        |4    Zobrist-Key: {}", position.zobrist_hash()),
        "3|        |3".to_string(),
        "2|PPPPPPPP|2".to_string(),
        "1|RNBQKBNR|1".to_string(),
        "  ABCDEFGH\n".to_string(),
    ]
    .join("\n");
    assert_eq!(position.diagram(), expected);
    let position = OxidePosition::from_fen("4k3/8/8/8/4P3/8/8/4K3 b - e3 12 30").unwrap();
    let picture = position.diagram();
    let lines: Vec<&str> = picture.lines().collect();
    assert_eq!(lines.len(), 10);
    assert_eq!(lines[1], "8|    k   |8     En-Passant: E3");
    assert_eq!(lines[2], "7|        |7  Castle-Rights: -");
    assert_eq!(lines[3], "6|        |6   Side-to-Move: b");
    assert_eq!(lines[4], "5|        |5 Halfmove-Clock: 12");
    assert_eq!(lines[5], format!("4|    P   |4    Zobrist-Key: {}", position.zobrist_hash()));
    assert_eq!(lines[8], "1|    K   |1");
}
