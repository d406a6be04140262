use oxide_chess::bitboard::OxideBitboard;
use oxide_chess::board::OxideBoard;
use oxide_chess::castle::OxideCastleRights;
use oxide_chess::chess_move::{OxideIllegalMoveError, OxideMove};
use oxide_chess::movegen::{
    can_castle, capture_moves, castle_path_is_clear, evasion_moves, generate_all, generate_castles,
    generate_king_moves, generate_pawn_moves, generate_piece_moves, king_way_is_safe, target_squares, legal_moves, non_evasion_moves, pseudo_legal_filter, quiet_check_moves, quiet_moves,
};
use oxide_chess::movelist::MoveList;
use oxide_chess::piece::{OxidePiece, OxideSidedPiece};
use oxide_chess::position::OxidePosition;
use oxide_chess::side::OxideSide;
use oxide_chess::square::OxideSquare;
use oxide_chess::square::OxideSquare::{
    A1, B1, C1, D1, E1, F1, G1, A2, D2, E2, F2, B3, C3, D3, E3, F3, H3, A4, C4, D4, E4, A5, B5, D5, E5, H5, D6, E6, F6,
    D7, E7, F7, A8, D8, E8, G8,
};

const START: &str = "rnbqkbnr/pppppppp/8/8/8/8/PPPPPPPP/RNBQKBNR w KQkq - 0 1";

fn board_of(fen: &str) -> OxideBoard {
    OxideBoard::new(OxidePosition::from_fen(fen).expect("the record of the test is valid"))
}

fn refusal(fen: &str, m: OxideMove) -> OxideIllegalMoveError {
    let mut board = board_of(fen);
    let before = board;
    let error = board.make_move(m).expect_err("the move must be refused");
    assert_eq!(board, before, "a refused move must leave the board as it is");
    error
}

#[test]
fn legal_move_is_made() {
    let mut board = board_of(START);
    let before = board;
    let state = board.make_move(OxideMove::new_double_pawn_push(E2, E4)).expect("the move is legal");
    assert_eq!(board.position().to_fen(), "rnbqkbnr/pppppppp/8/8/4P3/8/PPPP1PPP/RNBQKBNR b KQkq e3 0 1");
    assert_eq!(board.undo_move(OxideMove::new_double_pawn_push(E2, E4), state), Ok(()));
    assert_eq!(board, before);
}

#[test]
fn clocks_count() {
    let mut board = board_of(START);
    board.make_move(OxideMove::new(G1, F3)).expect("the move is legal");
    assert_eq!(board.position().to_fen(), "rnbqkbnr/pppppppp/8/8/8/5N2/PPPPPPPP/RNBQKB1R b KQkq - 1 1");
    board.make_move(OxideMove::new(G8, F6)).expect("the move is legal");
    assert_eq!(board.position().to_fen(), "rnbqkb1r/pppppppp/5n2/8/8/5N2/PPPPPPPP/RNBQKB1R w KQkq - 2 2");
    assert_eq!(board.position().halfmove_clock(), 2);
    assert_eq!(board.position().halfmove_count(), 2);
    assert_eq!(board.position().fullmove_count(), 2);
    board.make_move(OxideMove::new(E2, E3)).expect("the move is legal");
    assert_eq!(board.position().halfmove_clock(), 0);
}

#[test]
fn capture_is_recorded_and_taken_back() {
    let mut board = board_of("4k3/8/8/3p4/4P3/8/8/4K3 w - - 5 9");
    let before = board;
    let m = OxideMove::new_capture(E4, D5);
    let state = board.make_move(m).expect("the capture is legal");
    assert_eq!(board.state().captured_piece(), OxidePiece::Pawn);
    assert_eq!(state.captured_piece(), OxidePiece::Empty);
    assert_eq!(state.halfmove_clock(), 5);
    assert_eq!(board.position().to_fen(), "4k3/8/8/3P4/8/8/8/4K3 b - - 0 9");
    board.undo_move_unchecked(m, state);
    assert_eq!(board, before);
}

#[test]
fn castle_moves_the_rook_and_ends_the_rights() {
    let mut board = board_of("r3k2r/8/8/8/8/8/8/R3K2R w KQkq - 0 1");
    let before = board;
    let state = board.make_move(OxideMove::white_king_castle()).expect("the castle is legal");
    assert_eq!(board.position().to_fen(), "r3k2r/8/8/8/8/8/8/R4RK1 b kq - 1 1");
    assert_eq!(state.castle_rights(), OxideCastleRights::All);
    let reply = board.make_move(OxideMove::black_queen_castle()).expect("the castle is legal");
    assert_eq!(board.position().to_fen(), "2kr3r/8/8/8/8/8/8/R4RK1 w - - 2 2");
    assert_eq!(board.undo_move(OxideMove::black_queen_castle(), reply), Ok(()));
    assert_eq!(board.undo_move(OxideMove::white_king_castle(), state), Ok(()));
    assert_eq!(board, before);
}

#[test]
fn rook_move_and_rook_capture_end_one_right() {
    let mut board = board_of("r3k2r/8/8/8/8/8/8/R3K2R w KQkq - 0 1");
    board.make_move(OxideMove::new_capture(A1, A8)).expect("the capture is legal");
    assert_eq!(board.position().castle_rights(), OxideCastleRights::BothKings);
}

#[test]
fn en_passant_takes_the_pawn_behind() {
    let mut board = board_of("4k3/8/8/3pP3/8/8/8/4K3 w - d6 0 1");
    let before = board;
    let m = OxideMove::new_en_passant_capture(E5, D6);
    assert!(legal_moves(&board).contains(&m));
    let state = board.make_move(m).expect("the capture in passing is legal");
    assert_eq!(board.position().to_fen(), "4k3/8/3P4/8/8/8/8/4K3 b - - 0 1");
    assert_eq!(board.state().captured_piece(), OxidePiece::Pawn);
    assert_eq!(board.undo_move(m, state), Ok(()));
    assert_eq!(board, before);
}

#[test]
fn en_passant_that_uncovers_the_king_is_not_legal() {
    // Both pawns leave the fifth rank and the rook on H5 would attack the king on A5.
    let fen = "4k3/8/8/K2pP2r/8/8/8/8 w - d6 0 1";
    let m = OxideMove::new_en_passant_capture(E5, D6);
    assert!(!legal_moves(&board_of(fen)).contains(&m));
    assert_eq!(refusal(fen, m), OxideIllegalMoveError::SelfCheck);
}

#[test]
fn pinned_piece_moves_along_the_pin_only() {
    let board = board_of("4k3/4r3/8/8/8/8/4R3/4K3 w - - 0 1");
    let moves = legal_moves(&board);
    assert!(moves.contains(&OxideMove::new(E2, E3)));
    assert!(moves.contains(&OxideMove::new_capture(E2, E7)));
    assert!(!moves.contains(&OxideMove::new(E2, D2)));
    assert_eq!(board.state().blocking_mask(OxideSide::White), E2.to_mask());
    assert_eq!(board.state().pinning_mask(OxideSide::White), E7.to_mask());
    assert_eq!(board.state().blocking_mask(OxideSide::Black), E7.to_mask());
    assert_eq!(board.state().pinning_mask(OxideSide::Black), E2.to_mask());
}

#[test]
fn check_must_be_met() {
    let board = board_of("4k3/8/8/8/8/8/3PPP2/r3K3 w - - 0 1");
    assert!(board.in_check());
    assert_eq!(board.state().checkers_mask(), A1.to_mask());
    let moves = evasion_moves(&board).to_vec();
    // The king cannot leave the first rank and nothing can take the rook or step between.
    assert_eq!(moves, Vec::<OxideMove>::new());
    let board = board_of("4k3/8/8/8/8/8/3P1P2/r3K3 w - - 0 1");
    assert_eq!(evasion_moves(&board).to_vec(), vec![OxideMove::new(E1, E2)]);
    assert_eq!(legal_moves(&board).to_vec(), vec![OxideMove::new(E1, E2)]);
}

#[test]
fn double_check_leaves_king_moves_only() {
    let board = board_of("4k3/8/8/8/8/3n4/4r3/R3K2R w KQ - 0 1");
    assert_eq!(board.state().checkers_mask().count(), 2);
    for m in legal_moves(&board).to_vec() {
        assert_eq!(m.from(), E1);
        assert!(!m.is_king_castle() && !m.is_queen_castle());
    }
}

#[test]
fn castle_needs_right_free_way_and_safe_way() {
    let open = "r3k2r/8/8/8/8/8/8/R3K2R w KQkq - 0 1";
    let moves = non_evasion_moves(&board_of(open));
    assert!(moves.contains(&OxideMove::white_king_castle()));
    assert!(moves.contains(&OxideMove::white_queen_castle()));
    // Without the right.
    assert_eq!(refusal("r3k2r/8/8/8/8/8/8/R3K2R w Qkq - 0 1", OxideMove::white_king_castle()), OxideIllegalMoveError::CastlingWithoutPermission);
    // With a piece in the way.
    assert_eq!(refusal("r3k2r/8/8/8/8/8/8/RN2K2R w KQkq - 0 1", OxideMove::white_queen_castle()), OxideIllegalMoveError::CastlingWithoutPermission);
    // Over an attacked square.
    assert_eq!(refusal("r3k2r/8/8/8/8/8/8/R3K1rR w KQkq - 0 1", OxideMove::white_queen_castle()), OxideIllegalMoveError::CastlingThroughAttack);
    assert_eq!(refusal("4kr2/8/8/8/8/8/8/R3K2R w KQ - 0 1", OxideMove::white_king_castle()), OxideIllegalMoveError::CastlingThroughAttack);
    // Onto an attacked square.
    assert_eq!(refusal("4k1r1/8/8/8/8/8/8/R3K2R w KQ - 0 1", OxideMove::white_king_castle()), OxideIllegalMoveError::CastlingThroughAttack);
    // Out of check.
    assert_eq!(refusal("4r1k1/8/8/8/8/8/8/R3K2R w KQ - 0 1", OxideMove::white_king_castle()), OxideIllegalMoveError::CastlingThroughAttack);
    // A castle that is no castle of the side to move.
    assert_eq!(refusal("r3k2r/8/8/8/8/8/8/R3K2R w KQkq - 0 1", OxideMove::black_king_castle()), OxideIllegalMoveError::MovingPieceForWrongSide);
    // An attack on the square next to the rook does not hinder the castle.
    assert!(legal_moves(&board_of("1r2k3/8/8/8/8/8/8/R3K2R w KQ - 0 1")).contains(&OxideMove::white_queen_castle()));
}

#[test]
fn refusals_name_their_reason() {
    assert_eq!(refusal(START, OxideMove::new(E3, E4)), OxideIllegalMoveError::MovingFromEmptySquare);
    assert_eq!(refusal(START, OxideMove::new(E7, E6)), OxideIllegalMoveError::MovingPieceForWrongSide);
    assert_eq!(refusal(START, OxideMove::new_capture(D1, D2)), OxideIllegalMoveError::CapturingOwnPiece);
    assert_eq!(refusal(START, OxideMove::new_capture(E2, D3)), OxideIllegalMoveError::NonCapturingCapture);
    assert_eq!(refusal(START, OxideMove::new(E2, D3)), OxideIllegalMoveError::HorizontalPawnPush);
    assert_eq!(refusal(START, OxideMove::new(E2, E5)), OxideIllegalMoveError::InvalidPawnPush);
    assert_eq!(refusal(START, OxideMove::new(E2, E4)), OxideIllegalMoveError::InvalidPawnPush);
    assert_eq!(refusal("4k3/8/8/8/4p3/8/4P3/4K3 w - - 0 1", OxideMove::new_capture(E2, E4)), OxideIllegalMoveError::VerticalPawnCapture);
    assert_eq!(refusal(START, OxideMove::new_en_passant_capture(E2, D3)), OxideIllegalMoveError::NonExistentEnPassantCapture);
    assert_eq!(refusal(START, OxideMove::new(B1, B3)), OxideIllegalMoveError::InvalidKnightJump);
    assert_eq!(refusal("4k3/8/8/8/8/8/8/2B1K3 w - - 0 1", OxideMove::new(C1, C3)), OxideIllegalMoveError::InvalidDiagonalMovement);
    assert_eq!(refusal("4k3/8/8/8/8/8/8/R3K3 w - - 0 1", OxideMove::new(A1, B3)), OxideIllegalMoveError::InvalidCardinalMovement);
    assert_eq!(refusal("4k3/8/8/8/8/8/3P4/3QK3 w - - 0 1", OxideMove::new(D1, D4)), OxideIllegalMoveError::InvalidCardinalMovement);
    assert_eq!(refusal("4k3/8/8/8/8/8/3P4/3QK3 w - - 0 1", OxideMove::new(D1, A5)), OxideIllegalMoveError::InvalidDiagonalMovement);
    assert_eq!(refusal("4k3/4r3/8/8/8/8/4R3/4K3 w - - 0 1", OxideMove::new(E2, D2)), OxideIllegalMoveError::SelfCheck);
}

#[test]
fn undo_is_refused_where_the_pieces_do_not_fit() {
    let mut board = board_of(START);
    let state = *board.state();
    let before = board;
    // No move was played.
    assert_eq!(board.undo_move(OxideMove::new(E2, E3), state), Err(OxideIllegalMoveError::MovingFromEmptySquare));
    assert_eq!(board, before);
    let mut board = board_of("rnbqkbnr/pppppppp/8/8/4P3/8/PPPP1PPP/RNBQKBNR b KQkq e3 0 1");
    let state = *board.state();
    assert_eq!(board.undo_move(OxideMove::new(E2, E3), state), Err(OxideIllegalMoveError::MovingFromEmptySquare));
    assert_eq!(board.undo_move(OxideMove::new(E6, E7), state), Err(OxideIllegalMoveError::MovingPieceForWrongSide));
    assert_eq!(board.undo_move(OxideMove::new(D2, E4), state), Err(OxideIllegalMoveError::CapturingOwnPiece));
    assert_eq!(board.undo_move(OxideMove::new_capture(E2, E4), state), Err(OxideIllegalMoveError::NonCapturingCapture));
    assert_eq!(board.undo_move(OxideMove::new_en_passant_capture(E3, E4), state), Err(OxideIllegalMoveError::NonExistentEnPassantCapture));
    assert_eq!(board.undo_move(OxideMove::white_king_castle(), state), Err(OxideIllegalMoveError::CapturingOwnPiece));
    let mut castled = board_of("4k3/8/8/8/8/8/8/5RN1 b - - 1 1");
    let castled_state = *castled.state();
    assert_eq!(castled.undo_move(OxideMove::white_king_castle(), castled_state), Err(OxideIllegalMoveError::CastlingWithoutPermission));
    assert_eq!(board.undo_move(OxideMove::new_promotion(E7, E8, OxidePiece::Queen), state), Err(OxideIllegalMoveError::MovingPieceForWrongSide));
    let mut board = board_of("4Q2k/8/8/8/8/8/8/4K3 b - - 0 1");
    let state = *board.state();
    assert_eq!(board.undo_move(OxideMove::new_promotion(E7, E8, OxidePiece::Rook), state), Err(OxideIllegalMoveError::InvalidPawnPush));
    assert_eq!(board.undo_move(OxideMove::new_promotion(E7, E8, OxidePiece::Queen), state), Ok(()));
    assert_eq!(board.position().sided_piece_on_square(E7), OxideSidedPiece::WhitePawn);
}

#[test]
fn captures_and_quiet_moves_part_the_legal_moves() {
    let board = board_of("r3k2r/p1ppqpb1/bn2pnp1/3PN3/1p2P3/2N2Q1p/PPPBBPPP/R3K2R w KQkq - 0 1");
    let all = legal_moves(&board).to_vec();
    let captures = capture_moves(&board).to_vec();
    let quiet = quiet_moves(&board).to_vec();
    assert_eq!(all.len(), 48);
    assert_eq!(captures.len(), 8);
    assert_eq!(quiet.len(), 40);
    assert!(captures.iter().all(|m| m.is_capture() && all.contains(m)));
    assert!(quiet.iter().all(|m| !m.is_capture() && all.contains(m)));
}

#[test]
fn quiet_checks_give_check() {
    let board = board_of("4k3/8/8/8/8/8/3P4/R3KB2 w Q - 0 1");
    let checks = quiet_check_moves(&board).to_vec();
    assert_eq!(checks, vec![OxideMove::new(F1, B5), OxideMove::new(A1, A8)]);
    for m in &checks {
        assert!(board.gives_check(m));
        assert!(!board.is_discovery(m));
    }
    assert!(!board.gives_check(&OxideMove::new(D2, D3)));
    // The knight steps off the file of the rook and uncovers its check.
    let board = board_of("4k3/8/8/8/8/4N3/8/4RK2 w - - 0 1");
    let m = OxideMove::new(E3, C4);
    assert!(board.gives_check(&m));
    assert!(board.is_discovery(&m));
    assert!(quiet_check_moves(&board).contains(&m));
}

#[test]
fn check_masks_name_the_checking_squares() {
    let board = board_of("4k3/8/8/8/8/8/8/4K3 w - - 0 1");
    // A knight gives check to the king on E8 from the squares a knight jump away.
    assert_eq!(board.state().piece_check_mask(OxidePiece::Knight).0, 0x0044280000000000);
    // A white pawn gives check from D7 and F7.
    assert_eq!(board.state().piece_check_mask(OxidePiece::Pawn).0, 0x0028000000000000);
    // A rook gives check from the eighth rank and the E file up to the white king.
    assert_eq!(board.state().piece_check_mask(OxidePiece::Rook).0, 0xef10101010101010);
    assert!(board.state().piece_check_mask(OxidePiece::Queen).contains(A4));
    assert!(!board.state().piece_check_mask(OxidePiece::Bishop).contains(A8));
    assert!(board.state().piece_check_mask(OxidePiece::King).contains(D8));
}

#[test]
fn state_keeps_what_undo_needs() {
    let board = board_of("r3k2r/8/8/8/8/8/8/R3K2R b Kq - 17 40");
    let state = board.state();
    assert_eq!(state.castle_rights(), OxideCastleRights::WhiteKingBlackQueen);
    assert_eq!(state.en_passant_square(), None);
    assert_eq!(state.halfmove_clock(), 17);
    assert_eq!(state.captured_piece(), OxidePiece::Empty);
    assert_eq!(state.hasher().finish(), board.position().zobrist_hash());
    assert_eq!(board.position().recomputed_hash(), board.position().zobrist_hash());
    assert!(!board.in_check());
}

#[test]
fn moves_are_tested_one_by_one() {
    let board = board_of("4k3/4r3/8/8/8/8/4R3/4K3 w - - 0 1");
    // The rook is pinned: it can be placed on D2, which would leave the king attacked.
    assert!(board.can_place_move(&OxideMove::new(E2, D2)));
    assert!(!board.is_safe(&OxideMove::new(E2, D2)));
    assert!(!board.is_legal(&OxideMove::new(E2, D2)));
    assert!(board.is_generated(&OxideMove::new(E2, D2)));
    assert!(board.is_safe(&OxideMove::new(E2, E3)));
    assert!(board.is_legal(&OxideMove::new(E2, E3)));
    // A rook does not jump like a knight, though the pieces could be placed so.
    assert!(board.can_place_move(&OxideMove::new(E2, D4)));
    assert!(!board.is_generated(&OxideMove::new(E2, D4)));
    assert!(!board.is_legal(&OxideMove::new(E2, D4)));
    // Nothing can be placed from an empty square, onto an own piece or as a capture of nothing.
    assert!(!board.can_place_move(&OxideMove::new(D4, D5)));
    assert!(!board.can_place_move(&OxideMove::new(E1, E2)));
    assert!(!board.can_place_move(&OxideMove::new_capture(E2, E3)));
    assert!(!board.can_place_move(&OxideMove::new(E2, E7)));
    assert!(board.can_place_move(&OxideMove::new_capture(E2, E7)));
    assert!(!board.can_place_move(&OxideMove::white_king_castle()));
    assert!(!board.is_legal(&OxideMove::new(E7, E3)));
}

#[test]
fn no_legal_move_is_listed_twice() {
    for fen in [
        START,
        "r3k2r/p1ppqpb1/bn2pnp1/3PN3/1p2P3/2N2Q1p/PPPBBPPP/R3K2R w KQkq - 0 1",
        "r3k2r/Pppp1ppp/1b3nbN/nP6/BBP1P3/q4N2/Pp1P2PP/R2Q1RK1 w kq - 0 1",
    ] {
        let moves = legal_moves(&board_of(fen)).to_vec();
        for (i, m) in moves.iter().enumerate() {
            assert!(!moves[i + 1..].contains(m));
        }
    }
}

#[test]
fn filter_agrees_with_the_move_made() {
    for fen in [
        START,
        "r3k2r/p1ppqpb1/bn2pnp1/3PN3/1p2P3/2N2Q1p/PPPBBPPP/R3K2R w KQkq - 0 1",
        "r3k2r/Pppp1ppp/1b3nbN/nP6/BBP1P3/q4N2/Pp1P2PP/R2Q1RK1 w kq - 0 1",
        "4k3/4r3/8/8/8/8/4R3/4K3 w - - 0 1",
        "4k3/8/8/8/7b/8/5N2/r2BK3 w - - 0 1",
        "8/2p5/3p4/KP5r/1R3p1k/8/4P1P1/8 w - - 0 1",
        "8/8/8/KPp4r/8/8/8/4k3 w - c6 0 2",
        "k7/8/8/8/q2NK3/8/8/8 w - - 0 1",
    ] {
        let board = board_of(fen);
        let mut generated = MoveList::new();
        generate_all(&board, &mut generated, OxideBitboard::full(), true);
        assert!(!generated.is_empty());
        for m in generated.to_vec() {
            assert_eq!(pseudo_legal_filter(&board, &m), board.is_safe(&m), "{} on {}", m.to_string(), fen);
        }
    }
}

#[test]
fn free_piece_passes_and_pinned_piece_is_tried() {
    // The knight on F2 is pinned by the bishop, the bishop on D1 by the rook; the king is free.
    let board = board_of("4k3/8/8/8/7b/8/5N2/r2BK3 w - - 0 1");
    assert_eq!(board.state().blocking_mask(OxideSide::White), F2.to_mask() | D1.to_mask());
    assert!(!pseudo_legal_filter(&board, &OxideMove::new(F2, E4)));
    assert!(!pseudo_legal_filter(&board, &OxideMove::new(D1, E2)));
    // The test is on the places of the pieces alone: a piece that stays on the line of its pin passes.
    assert!(pseudo_legal_filter(&board, &OxideMove::new(D1, C1)));
    assert!(pseudo_legal_filter(&board, &OxideMove::new(E1, E2)));
    // A king is always tried: it may step into an attack.
    let board = board_of("4k3/8/8/8/8/8/r7/4K3 w - - 0 1");
    assert!(!pseudo_legal_filter(&board, &OxideMove::new(E1, E2)));
    assert!(pseudo_legal_filter(&board, &OxideMove::new(E1, D1)));
    // The knight is not pinned here: it goes where it likes.
    let board = board_of("4k3/8/8/8/8/8/5N2/r2BK3 w - - 0 1");
    assert_eq!(board.state().blocking_mask(OxideSide::White), D1.to_mask());
    assert!(pseudo_legal_filter(&board, &OxideMove::new(F2, E4)));
    assert!(pseudo_legal_filter(&board, &OxideMove::new(F2, H3)));
}

#[test]
fn pins_decide_where_the_king_is_not_attacked() {
    for fen in [
        START,
        "r3k2r/p1ppqpb1/bn2pnp1/3PN3/1p2P3/2N2Q1p/PPPBBPPP/R3K2R w KQkq - 0 1",
        "r4rk1/1pp1qppp/p1np1n2/2b1p1B1/2B1P1b1/P1NP1N2/1PP1QPPP/R4RK1 w - - 0 10",
        "4k3/4r3/8/8/8/8/4R3/4K3 w - - 0 1",
        "4k3/8/8/8/7b/8/5N2/r2BK3 w - - 0 1",
        "8/2p5/3p4/KP5r/1R3p1k/8/4P1P1/8 w - - 0 1",
        "k7/8/8/8/q2NK3/8/8/8 w - - 0 1",
        "4k3/8/8/b7/8/2P5/3P4/4K3 w - - 0 1",
        "4k3/8/8/8/8/8/q2PK3/8 w - - 0 1",
        "3r2k1/8/8/8/3Q4/8/8/3K4 w - - 0 1",
    ] {
        let board = board_of(fen);
        assert!(!board.in_check());
        let side = board.position().side_to_move();
        let king = board.position().king_square(side);
        let pinned = board.state().blocking_mask(side);
        let mut generated = MoveList::new();
        generate_all(&board, &mut generated, OxideBitboard::full(), true);
        let mut tried = 0;
        for m in generated.to_vec() {
            if m.from() == king || m.is_en_passant_capture() {
                continue;
            }
            let by_pins = !(pinned.contains(m.from()) && !OxideBitboard::aligned(m.from(), m.to(), king));
            assert_eq!(board.is_safe(&m), by_pins, "{} on {}", m.to_string(), fen);
            tried += 1;
        }
        assert!(tried > 0);
    }
}

#[test]
fn every_evasion_takes_the_checker_or_goes_between() {
    let mut met_by_capture = 0;
    let mut met_by_going_between = 0;
    let mut met_in_passing = 0;
    for fen in [
        "4k3/8/8/8/8/8/3P1P2/r3K3 w - - 0 1",
        "4k3/8/8/8/1b6/8/5N2/R2QK2R w KQ - 0 1",
        "4k3/8/8/8/8/5n2/3PP3/R2QKB1R w KQ - 0 1",
        "r3k2r/Pppp1ppp/1b3nbN/nP6/BBP1P3/q4N2/Pp1P2PP/R2Q1RK1 w kq - 0 1",
        "8/8/8/2k5/3Pp3/8/8/4K2R b - d3 0 1",
        "4k3/8/8/8/8/3n4/4r3/R3K2R w KQ - 0 1",
        "3rk3/8/8/8/8/8/2N1B3/R2K3R w - - 0 1",
    ] {
        let board = board_of(fen);
        assert!(board.in_check(), "{}", fen);
        let side = board.position().side_to_move();
        let king = board.position().king_square(side);
        let checkers = board.state().checkers_mask().squares();
        for m in legal_moves(&board).to_vec() {
            assert!(!m.is_king_castle() && !m.is_queen_castle());
            if m.from() == king {
                continue;
            }
            assert_eq!(checkers.len(), 1, "{} on {}", m.to_string(), fen);
            let checker = checkers[0];
            if m.is_en_passant_capture() && m.to() != checker {
                let victim = OxideSquare::at(m.from().offset() / 8 * 8 + m.to().offset() % 8);
                if victim == checker {
                    met_in_passing += 1;
                    continue;
                }
            }
            if m.is_capture() && m.to() == checker {
                met_by_capture += 1;
            } else {
                assert!(OxideBitboard::between_fill(checker, king).contains(m.to()), "{} on {}", m.to_string(), fen);
                met_by_going_between += 1;
            }
        }
    }
    assert!(met_by_capture > 0 && met_by_going_between > 0 && met_in_passing > 0);
}

#[test]
fn no_castle_is_generated_over_an_attacked_square() {
    // The rook on F8 attacks F1, which the king would pass.
    let board = board_of("4kr2/8/8/8/8/8/8/4K2R w K - 0 1");
    let mut list = MoveList::new();
    generate_castles(&board, &mut list);
    assert!(list.is_empty());
    assert!(!can_castle(&board, OxideCastleRights::WhiteKing));
    assert!(castle_path_is_clear(&board, OxideCastleRights::WhiteKing));
    let mut all = MoveList::new();
    generate_all(&board, &mut all, OxideBitboard::full(), true);
    assert!(!all.contains(&OxideMove::white_king_castle()));
    // The rook on G8 attacks G1, on which the king would land.
    let board = board_of("4k1r1/8/8/8/8/8/8/4K2R w K - 0 1");
    let mut list = MoveList::new();
    generate_castles(&board, &mut list);
    assert!(list.is_empty());
    // The king is in check.
    let board = board_of("4r1k1/8/8/8/8/8/8/R3K2R w KQ - 0 1");
    let mut list = MoveList::new();
    generate_castles(&board, &mut list);
    assert!(list.is_empty());
    // An attack on the rook or on the square beside it hinders nothing.
    let board = board_of("rr2k3/8/8/8/8/8/8/R3K2R w KQ - 0 1");
    let mut list = MoveList::new();
    generate_castles(&board, &mut list);
    assert_eq!(list.to_vec(), vec![OxideMove::white_king_castle(), OxideMove::white_queen_castle()]);
    assert!(can_castle(&board, OxideCastleRights::WhiteAll));
    assert!(king_way_is_safe(board.position(), OxideSide::White, false));
    // Black castles as White does.
    let board = board_of("r3k2r/8/8/8/8/8/8/3RK3 b kq - 0 1");
    let mut list = MoveList::new();
    generate_castles(&board, &mut list);
    assert_eq!(list.to_vec(), vec![OxideMove::black_king_castle()]);
}

#[test]
fn counters_need_room_only_where_they_grow() {
    // The half-move clock stands at its limit: a pawn move resets it, and a move that is refused counts nothing.
    let mut board = board_of("4k3/8/8/8/8/8/4P3/4K3 w - - 255 40");
    assert_eq!(board.make_move(OxideMove::new(E2, D3)), Err(OxideIllegalMoveError::HorizontalPawnPush));
    assert_eq!(board.position().halfmove_clock(), 255);
    let before = board;
    let state = board.make_move(OxideMove::new(E2, E3)).expect("the push is legal");
    assert_eq!(board.position().halfmove_clock(), 0);
    assert_eq!(state.halfmove_clock(), 255);
    assert_eq!(board.undo_move(OxideMove::new(E2, E3), state), Ok(()));
    assert_eq!(board, before);
}

#[test]
fn target_mask_cuts_the_moves_of_a_piece() {
    let board = board_of("r3k2r/p1ppqpb1/bn2pnp1/3PN3/1p2P3/2N2Q1p/PPPBBPPP/R3K2R w KQkq - 0 1");
    let position = board.position();
    let enemy = position.mask_for_side(OxideSide::Black);
    let free = position.empty();
    for piece in [OxidePiece::Knight, OxidePiece::Bishop, OxidePiece::Rook, OxidePiece::Queen, OxidePiece::King] {
        let mut all = MoveList::new();
        generate_piece_moves(&board, &mut all, piece, target_squares(position));
        let mut captures = MoveList::new();
        generate_piece_moves(&board, &mut captures, piece, enemy);
        let mut quiet = MoveList::new();
        generate_piece_moves(&board, &mut quiet, piece, free);
        let mut none = MoveList::new();
        generate_piece_moves(&board, &mut none, piece, OxideBitboard::empty());
        assert!(none.is_empty());
        let all = all.to_vec();
        let expected_captures: Vec<OxideMove> = all.iter().copied().filter(|m| m.is_capture()).collect();
        let expected_quiet: Vec<OxideMove> = all.iter().copied().filter(|m| !m.is_capture()).collect();
        assert_eq!(captures.to_vec(), expected_captures);
        assert_eq!(quiet.to_vec(), expected_quiet);
        assert_eq!(all.len(), expected_captures.len() + expected_quiet.len());
    }
    // The knight on E5 takes on D7, F7 and G6 and on no square of its own side.
    let mut captures = MoveList::new();
    generate_piece_moves(&board, &mut captures, OxidePiece::Knight, enemy);
    let captures = captures.to_vec();
    assert!(captures.contains(&OxideMove::new_capture(E5, D7)));
    assert!(captures.contains(&OxideMove::new_capture(E5, F7)));
    assert!(captures.iter().all(|m| m.is_capture()));
    // The king goes to D1 and F1 and nowhere else where only the first rank is a target.
    let mut king = MoveList::new();
    generate_king_moves(&board, &mut king, OxideBitboard::rank_1());
    assert_eq!(king.to_vec(), vec![OxideMove::new(E1, D1), OxideMove::new(E1, F1)]);
}

#[test]
fn target_mask_cuts_every_kind_of_move() {
    for fen in [
        START,
        "r3k2r/p1ppqpb1/bn2pnp1/3PN3/1p2P3/2N2Q1p/PPPBBPPP/R3K2R w KQkq - 0 1",
        "r3k2r/Pppp1ppp/1b3nbN/nP6/BBP1P3/q4N2/Pp1P2PP/R2Q1RK1 b kq - 0 1",
        "8/8/8/KPp4r/8/8/8/4k3 w - c6 0 2",
        "n1n5/PPPk4/8/8/8/8/4Kppp/5N1N b - - 0 1",
    ] {
        let board = board_of(fen);
        let position = board.position();
        let mut all = MoveList::new();
        generate_all(&board, &mut all, OxideBitboard::full(), false);
        let all = all.to_vec();
        for mask in [
            OxideBitboard::empty(),
            position.empty(),
            position.mask_for_side(position.side_to_move().opposite_side()),
            OxideBitboard::rank_8(),
            OxideBitboard::rank_1(),
            OxideBitboard::a_file(),
            OxideBitboard(0x0000_0018_1800_0000),
        ] {
            let mut cut = MoveList::new();
            generate_all(&board, &mut cut, mask, false);
            let expected: Vec<OxideMove> = all.iter().copied().filter(|m| mask.contains(m.to())).collect();
            assert_eq!(cut.to_vec(), expected, "{} with {:#x}", fen, mask.0);
            let mut pawns = MoveList::new();
            generate_pawn_moves(&board, &mut pawns, mask);
            let mut every_pawn = MoveList::new();
            generate_pawn_moves(&board, &mut every_pawn, OxideBitboard::full());
            let expected: Vec<OxideMove> =
                every_pawn.to_vec().into_iter().filter(|m| mask.contains(m.to())).collect();
            assert_eq!(pawns.to_vec(), expected);
        }
    }
    // The castles are not cut down.
    let board = board_of("r3k2r/8/8/8/8/8/8/R3K2R w KQkq - 0 1");
    let mut cut = MoveList::new();
    generate_all(&board, &mut cut, OxideBitboard::empty(), true);
    assert_eq!(cut.to_vec(), vec![OxideMove::white_king_castle(), OxideMove::white_queen_castle()]);
}

#[test]
fn piece_moves_are_cut_by_the_target_mask_alone() {
    // The rook attacks A2, which holds a pawn of its own side: with every square a target, the
    // capture onto it is listed, as a capture, since the square is occupied.
    let board = board_of("4k3/8/8/8/8/8/P3P3/R3K3 w - - 0 1");
    let mut all = MoveList::new();
    generate_piece_moves(&board, &mut all, OxidePiece::Rook, OxideBitboard::full());
    assert_eq!(
        all.to_vec(),
        vec![
            OxideMove::new(A1, B1),
            OxideMove::new(A1, C1),
            OxideMove::new(A1, D1),
            OxideMove::new_capture(A1, E1),
            OxideMove::new_capture(A1, A2),
        ]
    );
    // The caller keeps the squares of its own side out through the mask.
    let own = board.position().mask_for_side(OxideSide::White);
    let mut open = MoveList::new();
    generate_piece_moves(&board, &mut open, OxidePiece::Rook, !own);
    assert_eq!(open.to_vec(), vec![OxideMove::new(A1, B1), OxideMove::new(A1, C1), OxideMove::new(A1, D1)]);
    // The list of all moves holds no move onto a piece of the side to move.
    let mut every = MoveList::new();
    generate_all(&board, &mut every, OxideBitboard::full(), true);
    assert!(!every.contains(&OxideMove::new_capture(A1, A2)));
    assert!(!every.contains(&OxideMove::new_capture(A1, E1)));
    assert!(every.contains(&OxideMove::new(A1, D1)));
    // The king attacks the squares around it; the mask alone cuts them down.
    let mut king = MoveList::new();
    generate_king_moves(&board, &mut king, OxideBitboard::full());
    assert_eq!(king.to_vec().len(), 5);
}
