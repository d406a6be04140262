use oxide_chess::castle::OxideCastleRights;
use oxide_chess::fen::OxideFenParseError;
use oxide_chess::side::OxideSide;

#[test]
fn for_side_works() {
    assert_eq!(OxideCastleRights::NONE.for_side(OxideSide::White), OxideCastleRights::NONE);
    assert_eq!(OxideCastleRights::NONE.for_side(OxideSide::Black), OxideCastleRights::NONE);
    assert_eq!(OxideCastleRights::WhiteKing.for_side(OxideSide::White), OxideCastleRights::WhiteKing);
    assert_eq!(OxideCastleRights::WhiteKing.for_side(OxideSide::Black), OxideCastleRights::NONE);
    assert_eq!(OxideCastleRights::WhiteQueen.for_side(OxideSide::White), OxideCastleRights::WhiteQueen);
    assert_eq!(OxideCastleRights::WhiteQueen.for_side(OxideSide::Black), OxideCastleRights::NONE);
    assert_eq!(OxideCastleRights::WhiteAll.for_side(OxideSide::White), OxideCastleRights::WhiteAll);
    assert_eq!(OxideCastleRights::WhiteAll.for_side(OxideSide::Black), OxideCastleRights::NONE);
    assert_eq!(OxideCastleRights::BlackKing.for_side(OxideSide::White), OxideCastleRights::NONE);
    assert_eq!(OxideCastleRights::BlackKing.for_side(OxideSide::Black), OxideCastleRights::BlackKing);
    assert_eq!(OxideCastleRights::BothKings.for_side(OxideSide::White), OxideCastleRights::WhiteKing);
    assert_eq!(OxideCastleRights::BothKings.for_side(OxideSide::Black), OxideCastleRights::BlackKing);
    assert_eq!(OxideCastleRights::WhiteQueenBlackKing.for_side(OxideSide::White), OxideCastleRights::WhiteQueen);
    assert_eq!(OxideCastleRights::WhiteQueenBlackKing.for_side(OxideSide::Black), OxideCastleRights::BlackKing);
    assert_eq!(OxideCastleRights::WhiteAllBlackKing.for_side(OxideSide::White), OxideCastleRights::WhiteAll);
    assert_eq!(OxideCastleRights::WhiteAllBlackKing.for_side(OxideSide::Black), OxideCastleRights::BlackKing);
    assert_eq!(OxideCastleRights::BlackQueen.for_side(OxideSide::White), OxideCastleRights::NONE);
    assert_eq!(OxideCastleRights::BlackQueen.for_side(OxideSide::Black), OxideCastleRights::BlackQueen);
    assert_eq!(OxideCastleRights::WhiteKingBlackQueen.for_side(OxideSide::White), OxideCastleRights::WhiteKing);
    assert_eq!(OxideCastleRights::WhiteKingBlackQueen.for_side(OxideSide::Black), OxideCastleRights::BlackQueen);
    assert_eq!(OxideCastleRights::BothQueens.for_side(OxideSide::White), OxideCastleRights::WhiteQueen);
    assert_eq!(OxideCastleRights::BothQueens.for_side(OxideSide::Black), OxideCastleRights::BlackQueen);
    assert_eq!(OxideCastleRights::WhiteAllBlackQueen.for_side(OxideSide::White), OxideCastleRights::WhiteAll);
    assert_eq!(OxideCastleRights::WhiteAllBlackQueen.for_side(OxideSide::Black), OxideCastleRights::BlackQueen);
    assert_eq!(OxideCastleRights::BlackAll.for_side(OxideSide::White), OxideCastleRights::NONE);
    assert_eq!(OxideCastleRights::BlackAll.for_side(OxideSide::Black), OxideCastleRights::BlackAll);
    assert_eq!(OxideCastleRights::BlackAllWhiteKing.for_side(OxideSide::White), OxideCastleRights::WhiteKing);
    assert_eq!(OxideCastleRights::BlackAllWhiteKing.for_side(OxideSide::Black), OxideCastleRights::BlackAll);
    assert_eq!(OxideCastleRights::BlackAllWhiteQueen.for_side(OxideSide::White), OxideCastleRights::WhiteQueen);
    assert_eq!(OxideCastleRights::BlackAllWhiteQueen.for_side(OxideSide::Black), OxideCastleRights::BlackAll);
    assert_eq!(OxideCastleRights::All.for_side(OxideSide::White), OxideCastleRights::WhiteAll);
    assert_eq!(OxideCastleRights::All.for_side(OxideSide::Black), OxideCastleRights::BlackAll);
}

#[test]
fn try_from_str_works() {
    assert_eq!(OxideCastleRights::try_from("-"), Ok(OxideCastleRights::NONE));
    assert_eq!(OxideCastleRights::try_from("K"), Ok(OxideCastleRights::WhiteKing));
    assert_eq!(OxideCastleRights::try_from("Q"), Ok(OxideCastleRights::WhiteQueen));
    assert_eq!(OxideCastleRights::try_from("KQ"), Ok(OxideCastleRights::WhiteAll));
    assert_eq!(OxideCastleRights::try_from("k"), Ok(OxideCastleRights::BlackKing));
    assert_eq!(OxideCastleRights::try_from("Kk"), Ok(OxideCastleRights::BothKings));
    assert_eq!(OxideCastleRights::try_from("Qk"), Ok(OxideCastleRights::WhiteQueenBlackKing));
    assert_eq!(OxideCastleRights::try_from("KQk"), Ok(OxideCastleRights::WhiteAllBlackKing));
    assert_eq!(OxideCastleRights::try_from("q"), Ok(OxideCastleRights::BlackQueen));
    assert_eq!(OxideCastleRights::try_from("Kq"), Ok(OxideCastleRights::WhiteKingBlackQueen));
    assert_eq!(OxideCastleRights::try_from("Qq"), Ok(OxideCastleRights::BothQueens));
    assert_eq!(OxideCastleRights::try_from("KQq"), Ok(OxideCastleRights::WhiteAllBlackQueen));
    assert_eq!(OxideCastleRights::try_from("kq"), Ok(OxideCastleRights::BlackAll));
    assert_eq!(OxideCastleRights::try_from("Kkq"), Ok(OxideCastleRights::BlackAllWhiteKing));
    assert_eq!(OxideCastleRights::try_from("Qkq"), Ok(OxideCastleRights::BlackAllWhiteQueen));
    assert_eq!(OxideCastleRights::try_from("KQkq"), Ok(OxideCastleRights::All));
    assert_eq!(OxideCastleRights::try_from("?"), Err(OxideFenParseError::CastleParseError));
}

#[test]
fn castle_display_works() {
    assert_eq!(OxideCastleRights::NONE.to_string(), "-");
    assert_eq!(OxideCastleRights::WhiteKing.to_string(), "K");
    assert_eq!(OxideCastleRights::WhiteQueen.to_string(), "Q");
    assert_eq!(OxideCastleRights::WhiteAll.to_string(), "KQ");
    assert_eq!(OxideCastleRights::BlackKing.to_string(), "k");
    assert_eq!(OxideCastleRights::BothKings.to_string(), "Kk");
    assert_eq!(OxideCastleRights::WhiteQueenBlackKing.to_string(), "Qk");
    assert_eq!(OxideCastleRights::WhiteAllBlackKing.to_string(), "KQk");
    assert_eq!(OxideCastleRights::BlackQueen.to_string(), "q");
    assert_eq!(OxideCastleRights::WhiteKingBlackQueen.to_string(), "Kq");
    assert_eq!(OxideCastleRights::BothQueens.to_string(), "Qq");
    assert_eq!(OxideCastleRights::WhiteAllBlackQueen.to_string(), "KQq");
    assert_eq!(OxideCastleRights::BlackAll.to_string(), "kq");
    assert_eq!(OxideCastleRights::BlackAllWhiteKing.to_string(), "Kkq");
    assert_eq!(OxideCastleRights::BlackAllWhiteQueen.to_string(), "Qkq");
    assert_eq!(OxideCastleRights::All.to_string(), "KQkq");
}

#[test]
fn castle_field_holds_the_letters_of_rights_or_a_dash() {
    assert_eq!(OxideCastleRights::try_from("KQkqx"), Err(OxideFenParseError::CastleParseError));
    assert_eq!(OxideCastleRights::try_from("-q"), Err(OxideFenParseError::CastleParseError));
    assert_eq!(OxideCastleRights::try_from("K-"), Err(OxideFenParseError::CastleParseError));
    assert_eq!(OxideCastleRights::try_from("--"), Err(OxideFenParseError::CastleParseError));
    assert_eq!(OxideCastleRights::try_from("KQk "), Err(OxideFenParseError::CastleParseError));
    assert_eq!(OxideCastleRights::try_from("qkQK"), Ok(OxideCastleRights::All));
    assert_eq!(OxideCastleRights::try_from("KK"), Ok(OxideCastleRights::WhiteKing));
    assert_eq!(OxideCastleRights::parse(b"kqKQ"), Ok(OxideCastleRights::All));
    assert_eq!(OxideCastleRights::parse(b"KQkq1"), Err(OxideFenParseError::CastleParseError));
}
