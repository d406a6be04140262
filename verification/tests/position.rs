use oxide_chess::bitboard::OxideBitboard;
use oxide_chess::castle::OxideCastleRights;
use oxide_chess::piece::OxideSidedPiece;
use oxide_chess::position::OxidePosition;
use oxide_chess::side::OxideSide;

#[test]
fn from_default_fen_works() {
    let position = OxidePosition::from_fen("rnbqkbnr/pppppppp/8/8/8/8/PPPPPPPP/RNBQKBNR w KQkq - 0 1").expect("Failed to parse valid FEN");
    assert!(position.side_to_move().is_white());
    assert_eq!(position.castle_rights(), OxideCastleRights::All);
    assert_eq!(position.halfmove_clock(), 0);
    assert_eq!(position.fullmove_count(), 1);
    assert_eq!(position.mask_for_side(OxideSide::White), OxideBitboard(0xFFFFu64));
    assert_eq!(position.mask_for_side(OxideSide::Black), OxideBitboard(0xFFFF000000000000u64));
    assert_eq!(position.sided_piece_mask(OxideSidedPiece::WhitePawn), OxideBitboard(0xFF00u64));
    assert_eq!(position.sided_piece_mask(OxideSidedPiece::BlackPawn), OxideBitboard(0xFF000000000000u64));
    assert_eq!(position.sided_piece_mask(OxideSidedPiece::WhiteRook), OxideBitboard(0x81u64));
    assert_eq!(position.sided_piece_mask(OxideSidedPiece::BlackRook), OxideBitboard(0x8100000000000000u64));
    assert_eq!(position.sided_piece_mask(OxideSidedPiece::WhiteKnight), OxideBitboard(0x42u64));
    assert_eq!(position.sided_piece_mask(OxideSidedPiece::BlackKnight), OxideBitboard(0x4200000000000000u64));
    assert_eq!(position.sided_piece_mask(OxideSidedPiece::WhiteBishop), OxideBitboard(0x24u64));
    assert_eq!(position.sided_piece_mask(OxideSidedPiece::BlackBishop), OxideBitboard(0x2400000000000000u64));
    assert_eq!(position.sided_piece_mask(OxideSidedPiece::WhiteQueen), OxideBitboard(0x8u64));
    assert_eq!(position.sided_piece_mask(OxideSidedPiece::BlackQueen), OxideBitboard(0x800000000000000u64));
    assert_eq!(position.sided_piece_mask(OxideSidedPiece::WhiteKing), OxideBitboard(0x10u64));
    assert_eq!(position.sided_piece_mask(OxideSidedPiece::BlackKing), OxideBitboard(0x1000000000000000u64));
}
