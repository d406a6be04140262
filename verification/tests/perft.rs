use oxide_chess::board::OxideBoard;
use oxide_chess::chess_move::OxideMove;
use oxide_chess::movegen::legal_moves;
use oxide_chess::piece::OxidePiece;
use oxide_chess::position::OxidePosition;
use oxide_chess::square::OxideSquare;

const START: &str = "rnbqkbnr/pppppppp/8/8/8/8/PPPPPPPP/RNBQKBNR w KQkq - 0 1";

fn board_of(fen: &str) -> OxideBoard {
    OxideBoard::new(OxidePosition::from_fen(fen).expect("the record of the test is valid"))
}

fn perft(board: &mut OxideBoard, depth: u32) -> u64 {
    let moves = legal_moves(board).to_vec();
    if depth <= 1 {
        return moves.len() as u64;
    }
    let mut nodes = 0;
    for m in moves {
        let before = *board;
        let state = board.make_move_unchecked(m);
        nodes += perft(board, depth - 1);
        board.undo_move_unchecked(m, state);
        assert_eq!(*board, before, "undo of {} did not restore the board", m.to_string());
    }
    nodes
}

#[test]
fn perft_start_depth_one() {
    assert_eq!(perft(&mut board_of(START), 1), 20);
}

#[test]
fn perft_start_depth_two() {
    assert_eq!(perft(&mut board_of(START), 2), 400);
}

#[test]
fn perft_start_depth_three() {
    assert_eq!(perft(&mut board_of(START), 3), 8902);
}

#[test]
fn perft_kiwipete() {
    let fen = "r3k2r/p1ppqpb1/bn2pnp1/3PN3/1p2P3/2N2Q1p/PPPBBPPP/R3K2R w KQkq - 0 1";
    assert_eq!(perft(&mut board_of(fen), 1), 48);
    assert_eq!(perft(&mut board_of(fen), 2), 2039);
}

#[test]
fn perft_rook_endgame() {
    let fen = "8/2p5/3p4/KP5r/1R3p1k/8/4P1P1/8 w - - 0 1";
    assert_eq!(perft(&mut board_of(fen), 1), 14);
    assert_eq!(perft(&mut board_of(fen), 2), 191);
    assert_eq!(perft(&mut board_of(fen), 3), 2812);
}

#[test]
fn perft_promotions() {
    let fen = "r3k2r/Pppp1ppp/1b3nbN/nP6/BBP1P3/q4N2/Pp1P2PP/R2Q1RK1 w kq - 0 1";
    assert_eq!(perft(&mut board_of(fen), 1), 6);
    assert_eq!(perft(&mut board_of(fen), 2), 264);
}

#[test]
fn perft_discoveries() {
    let fen = "rnbq1k1r/pp1Pbppp/2p5/8/2B5/8/PPP1NnPP/RNBQK2R w KQ - 1 8";
    assert_eq!(perft(&mut board_of(fen), 1), 44);
    assert_eq!(perft(&mut board_of(fen), 2), 1486);
}

#[test]
fn hash_returns_after_undo() {
    let mut board = board_of(START);
    let hash = board.position().zobrist_hash();
    for m in legal_moves(&board).to_vec() {
        let state = board.make_move_unchecked(m);
        assert_ne!(board.position().zobrist_hash(), hash);
        board.undo_move_unchecked(m, state);
        assert_eq!(board.position().zobrist_hash(), hash);
    }
}

#[test]
fn no_legal_move_leaves_the_king_attacked() {
    let fen = "r3k2r/p1ppqpb1/bn2pnp1/3PN3/1p2P3/2N2Q1p/PPPBBPPP/R3K2R w KQkq - 0 1";
    let mut board = board_of(fen);
    for m in legal_moves(&board).to_vec() {
        let state = board.make_move_unchecked(m);
        // The mover is now the side that is not to move: it must not be
        // capturable, so no move of the other side may take its king.
        let mover_king = board.position().king_square(board.position().side_to_move().opposite_side());
        for reply in legal_moves(&board).to_vec() {
            assert_ne!(reply.to(), mover_king);
        }
        board.undo_move_unchecked(m, state);
    }
}

#[test]
fn promotions_come_in_fours() {
    let board = board_of("2n4k/1P6/8/8/8/8/8/K7 w - - 0 1");
    let moves = legal_moves(&board).to_vec();
    for piece in [OxidePiece::Queen, OxidePiece::Knight, OxidePiece::Rook, OxidePiece::Bishop] {
        assert!(moves.contains(&OxideMove::new_promotion(OxideSquare::B7, OxideSquare::B8, piece)));
        assert!(moves.contains(&OxideMove::new_promoting_capture(OxideSquare::B7, OxideSquare::C8, piece)));
    }
    assert_eq!(moves.iter().filter(|m| m.is_promotion()).count(), 8);
}

#[test]
fn fen_round_trip() {
    let position = OxidePosition::from_fen(START).expect("the start record is valid");
    assert_eq!(position.to_fen(), START);
}
