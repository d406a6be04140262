use oxide_chess::board::OxideBoard;
use oxide_chess::chess_move::OxideMove;
use oxide_chess::movegen::legal_moves;
use oxide_chess::position::OxidePosition;
use oxide_chess::square::OxideSquare::{B1, G1, A2, B2, C2, D2, E2, F2, G2, H2, A3, B3, C3, D3, E3, F3, G3, H3, A4, B4, C4, D4, E4, F4, G4, H4};

fn test_legal_moves(board: OxideBoard, expected_moves: &[OxideMove]) {
    let move_list = legal_moves(&board).to_vec();
    for legal_move in &move_list {
        assert!(expected_moves.contains(legal_move), "Legal move gen had extra move {}", legal_move.to_string());
    }
    for expected_move in expected_moves {
        assert!(move_list.contains(expected_move), "Legal move gen was missing expected move {}", expected_move.to_string());
    }
    assert_eq!(move_list.len(), expected_moves.len(), "Move gen found different number of legal moves than expected");
}

#[test]
fn default_position_legal_works() {
    let position = OxideBoard::new(OxidePosition::from_fen("rnbqkbnr/pppppppp/8/8/8/8/PPPPPPPP/RNBQKBNR w KQkq - 0 1").expect("Failed to parse test case FEN"));
    test_legal_moves(position, &[
        // Pawns
        OxideMove::new(A2, A3),
        OxideMove::new_double_pawn_push(A2, A4),
        OxideMove::new(B2, B3),
        OxideMove::new_double_pawn_push(B2, B4),
        OxideMove::new(C2, C3),
        OxideMove::new_double_pawn_push(C2, C4),
        OxideMove::new(D2, D3),
        OxideMove::new_double_pawn_push(D2, D4),
        OxideMove::new(E2, E3),
        OxideMove::new_double_pawn_push(E2, E4),
        OxideMove::new(F2, F3),
        OxideMove::new_double_pawn_push(F2, F4),
        OxideMove::new(G2, G3),
        OxideMove::new_double_pawn_push(G2, G4),
        OxideMove::new(H2, H3),
        OxideMove::new_double_pawn_push(H2, H4),
        // Knights
        OxideMove::new(B1, A3),
        OxideMove::new(B1, C3),
        OxideMove::new(G1, F3),
        OxideMove::new(G1, H3),
    ]);
}
