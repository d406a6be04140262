use oxide_chess::castle::OxideCastleRights;
use oxide_chess::fen::OxideFenParseError;
use oxide_chess::piece::{OxidePiece, OxideSidedPiece};
use oxide_chess::position::OxidePosition;
use oxide_chess::side::OxideSide;
use oxide_chess::square::OxideSquare;

fn error_of(fen: &str) -> OxideFenParseError {
    OxidePosition::from_fen(fen).expect_err("the record must be refused")
}

#[test]
fn empty_record_is_refused() {
    assert_eq!(error_of(""), OxideFenParseError::EmptyFen);
    assert_eq!(error_of("  \t\n "), OxideFenParseError::EmptyFen);
}

#[test]
fn wrong_piece_letter_is_refused() {
    assert_eq!(error_of("rnbqkbnr/ppppxppp/8/8/8/8/PPPPPPPP/RNBQKBNR w KQkq - 0 1"), OxideFenParseError::InvalidPieceChar);
}

#[test]
fn piece_off_the_board_is_refused() {
    assert_eq!(error_of("8p/8/8/8/8/8/8/8 w - - 0 1"), OxideFenParseError::InvalidBoardOffset);
    // A rank of nine squares.
    assert_eq!(error_of("ppppppppp/8/8/8/8/8/8/8 w - - 0 1"), OxideFenParseError::InvalidBoardOffset);
}

#[test]
fn piece_on_a_square_twice_is_refused() {
    // The first rank is sixteen squares long.
    assert_eq!(error_of("p78/n6 w - - 0 1"), OxideFenParseError::InvalidBoardOffset);
}

#[test]
fn missing_side_is_refused() {
    assert_eq!(error_of("8/8/8/8/8/8/8/8"), OxideFenParseError::InvalidSideChar);
}

#[test]
fn missing_or_wrong_castle_field_is_refused() {
    assert_eq!(error_of("8/8/8/8/8/8/8/8 w"), OxideFenParseError::CastleParseError);
    assert_eq!(error_of("8/8/8/8/8/8/8/8 w KX - 0 1"), OxideFenParseError::CastleParseError);
    assert_eq!(error_of("8/8/8/8/8/8/8/8 w K- - 0 1"), OxideFenParseError::CastleParseError);
}

#[test]
fn wrong_en_passant_field_is_refused() {
    assert_eq!(error_of("8/8/8/8/8/8/8/8 w -"), OxideFenParseError::InvalidEnPassantSquare);
    assert_eq!(error_of("8/8/8/8/8/8/8/8 w - e 0 1"), OxideFenParseError::InvalidEnPassantSquare);
    assert_eq!(error_of("8/8/8/8/8/8/8/8 w - e33 0 1"), OxideFenParseError::InvalidEnPassantSquare);
    assert_eq!(error_of("8/8/8/8/8/8/8/8 w - e4 0 1"), OxideFenParseError::InvalidEnPassantSquare);
    assert_eq!(error_of("8/8/8/8/8/8/8/8 w - i3 0 1"), OxideFenParseError::InvalidFileChar);
    assert_eq!(error_of("8/8/8/8/8/8/8/8 w - e9 0 1"), OxideFenParseError::InvalidRankChar);
    assert_eq!(error_of("8/8/8/8/8/8/8/8 w - e0 0 1"), OxideFenParseError::InvalidRankChar);
}

#[test]
fn wrong_clocks_are_refused() {
    assert_eq!(error_of("8/8/8/8/8/8/8/8 w - - x 1"), OxideFenParseError::HalfMovesParseError);
    assert_eq!(error_of("8/8/8/8/8/8/8/8 w - - 256 1"), OxideFenParseError::HalfMovesParseError);
    assert_eq!(error_of("8/8/8/8/8/8/8/8 w - - -1 1"), OxideFenParseError::HalfMovesParseError);
    assert_eq!(error_of("8/8/8/8/8/8/8/8 w - - 0 x"), OxideFenParseError::FullMovesParseError);
    assert_eq!(error_of("8/8/8/8/8/8/8/8 w - - 0 0"), OxideFenParseError::FullMovesParseError);
    assert_eq!(error_of("8/8/8/8/8/8/8/8 w - - 0 32768"), OxideFenParseError::FullMovesParseError);
}

#[test]
fn clocks_may_be_missing() {
    let position = OxidePosition::from_fen("8/8/8/8/8/8/8/8 b - -").expect("the clocks may be missing");
    assert_eq!(position.halfmove_clock(), 0);
    assert_eq!(position.halfmove_count(), 0);
    assert_eq!(position.fullmove_count(), 1);
    let position = OxidePosition::from_fen("8/8/8/8/8/8/8/8 b - - 7").expect("the move number may be missing");
    assert_eq!(position.halfmove_clock(), 7);
    assert_eq!(position.fullmove_count(), 1);
}

#[test]
fn fields_are_read() {
    let position = OxidePosition::from_fen("4k3/8/8/3pP3/8/8/8/4K2R b Kq d6 12 34").expect("the record is valid");
    assert_eq!(position.side_to_move(), OxideSide::Black);
    assert_eq!(position.castle_rights(), OxideCastleRights::WhiteKingBlackQueen);
    assert_eq!(position.en_passant_square(), Some(OxideSquare::D6));
    assert_eq!(position.halfmove_clock(), 12);
    assert_eq!(position.fullmove_count(), 34);
    // Thirty-three moves of both sides and one of White were played.
    assert_eq!(position.halfmove_count(), 67);
    assert_eq!(position.sided_piece_on_square(OxideSquare::E8), OxideSidedPiece::BlackKing);
    assert_eq!(position.sided_piece_on_square(OxideSquare::D5), OxideSidedPiece::BlackPawn);
    assert_eq!(position.sided_piece_on_square(OxideSquare::E5), OxideSidedPiece::WhitePawn);
    assert_eq!(position.sided_piece_on_square(OxideSquare::H1), OxideSidedPiece::WhiteRook);
    assert_eq!(position.piece_on_square(OxideSquare::A1), OxidePiece::Empty);
    assert_eq!(position.side_on_square(OxideSquare::E1), Some(OxideSide::White));
    assert_eq!(position.side_on_square(OxideSquare::E2), None);
    assert_eq!(position.king_square(OxideSide::White), OxideSquare::E1);
    assert_eq!(position.king_square(OxideSide::Black), OxideSquare::E8);
}

#[test]
fn records_come_back() {
    for fen in [
        "rnbqkbnr/pppppppp/8/8/8/8/PPPPPPPP/RNBQKBNR w KQkq - 0 1",
        "r3k2r/p1ppqpb1/bn2pnp1/3PN3/1p2P3/2N2Q1p/PPPBBPPP/R3K2R w KQkq - 0 1",
        "4k3/8/8/3pP3/8/8/8/4K2R b Kq d6 12 34",
        "8/8/8/8/8/8/8/8 b - - 255 100",
        "rnbqkbnr/pp1ppppp/8/2p5/4P3/8/PPPP1PPP/RNBQKBNR w KQkq c6 0 2",
    ] {
        let position = OxidePosition::from_fen(fen).expect("the record is valid");
        assert_eq!(position.to_fen(), fen);
    }
}

#[test]
fn white_space_between_fields_is_free() {
    let spaced = OxidePosition::from_fen("  8/8/8/8/8/8/8/8\t\tw \n - \r - 3   4  ").expect("the record is valid");
    let plain = OxidePosition::from_fen("8/8/8/8/8/8/8/8 w - - 3 4").expect("the record is valid");
    assert_eq!(spaced, plain);
    assert_eq!(spaced.to_fen(), "8/8/8/8/8/8/8/8 w - - 3 4");
}

#[test]
fn side_field_names_a_side() {
    let start = |side: &str| format!("rnbqkbnr/pppppppp/8/8/8/8/PPPPPPPP/RNBQKBNR {} KQkq - 0 1", side);
    assert_eq!(OxidePosition::from_fen(&start("x")), Err(OxideFenParseError::InvalidSideChar));
    assert_eq!(OxidePosition::from_fen(&start("-")), Err(OxideFenParseError::InvalidSideChar));
    assert_eq!(OxidePosition::from_fen(&start("1")), Err(OxideFenParseError::InvalidSideChar));
    assert_eq!(OxidePosition::from_fen(&start("white")), Err(OxideFenParseError::InvalidSideChar));
    assert_eq!(OxidePosition::from_fen(&start("wb")), Err(OxideFenParseError::InvalidSideChar));
    assert_eq!(OxidePosition::from_fen(&start("w")).unwrap().side_to_move(), OxideSide::White);
    assert_eq!(OxidePosition::from_fen(&start("W")).unwrap().side_to_move(), OxideSide::White);
    assert_eq!(OxidePosition::from_fen(&start("b")).unwrap().side_to_move(), OxideSide::Black);
    assert_eq!(OxidePosition::from_fen(&start("B")).unwrap().side_to_move(), OxideSide::Black);
    // A wrong placement is named before a wrong side.
    assert_eq!(OxidePosition::from_fen("rnbqkbnr/ppppxppp/8/8/8/8/PPPPPPPP/RNBQKBNR x KQkq - 0 1").is_err(), true);
}

#[test]
fn every_rank_spells_eight_squares() {
    let rest = " w - - 0 1";
    for placement in [
        // A rank of nine squares, in the middle of the board.
        "8/ppppppppp/8/8/8/8/8/8",
        "8/8/8/8/8/8/8/7pp",
        "8/8/8/44p/8/8/8/8",
        "8/8/8/9/8/8/8/8",
        // A rank of seven squares.
        "8/8/8/8/7/8/8/8",
        "ppppppp/8/8/8/8/8/8/8",
        "8/8/8/8/8/8/8/k6",
        // A rank without a square, and a digit that spells none.
        "8//8/8/8/8/8/8",
        "8/8/8/8/8/8/8/08",
        "8/8/8/8/8/8/8/80",
        // Seven ranks, and nine.
        "8/8/8/8/8/8/8",
        "8/8/8/8/8/8/8/8/8",
        "8/8/8/8/8/8/8/8/",
        "/8/8/8/8/8/8/8/8",
    ] {
        let fen = format!("{}{}", placement, rest);
        assert_eq!(OxidePosition::from_fen(&fen), Err(OxideFenParseError::InvalidBoardOffset), "{}", fen);
    }
    // A wrong letter is named as a wrong piece wherever it stands.
    assert_eq!(error_of("8/8/8/8/8/8/8/7x w - - 0 1"), OxideFenParseError::InvalidPieceChar);
    assert_eq!(error_of("8/8/8/8/8/8/8/8x w - - 0 1"), OxideFenParseError::InvalidPieceChar);
    // Digits and letters may be mixed as they like where the rank comes to eight squares.
    let position = OxidePosition::from_fen("1p1p1p1p/n7/2k5/8/8/8/8/K3111R w K - 0 1").unwrap();
    assert_eq!(position.sided_piece_on_square(OxideSquare::H8), OxideSidedPiece::BlackPawn);
    assert_eq!(position.sided_piece_on_square(OxideSquare::A7), OxideSidedPiece::BlackKnight);
    assert_eq!(position.sided_piece_on_square(OxideSquare::C6), OxideSidedPiece::BlackKing);
    assert_eq!(position.sided_piece_on_square(OxideSquare::H1), OxideSidedPiece::WhiteRook);
    assert_eq!(position.occupied().count(), 8);
    // The castle field holds the letters of rights or a dash.
    assert_eq!(error_of("8/8/8/8/8/8/8/8 w KQkqx - 0 1"), OxideFenParseError::CastleParseError);
    assert_eq!(error_of("8/8/8/8/8/8/8/8 w -q - 0 1"), OxideFenParseError::CastleParseError);
}

#[test]
fn nothing_follows_the_move_number() {
    assert_eq!(error_of("8/8/8/8/8/8/8/8 w - - 0 1 x"), OxideFenParseError::FullMovesParseError);
    assert_eq!(error_of("8/8/8/8/8/8/8/8 w - - 0 1 2"), OxideFenParseError::FullMovesParseError);
    let position = OxidePosition::from_fen("8/8/8/8/8/8/8/8 w - - 3 11 \t\n").expect("white space may follow");
    assert_eq!(position.halfmove_clock(), 3);
    assert_eq!(position.fullmove_count(), 11);
}
