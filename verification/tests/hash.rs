use oxide_chess::castle::OxideCastleRights;
use oxide_chess::piece::OxideSidedPiece;
use oxide_chess::position::OxidePosition;
use oxide_chess::square::OxideSquare::{A1, A3, B1, E1, E3, E6, H3, H6, H8};
use oxide_chess::zobrist::{castle_key, en_passant_key, piece_key, OxideZobristHasher, BASE_KEY, CASTLE_KEYS, EN_PASSANT_KEYS, PIECE_KEYS, SIDE_KEY};

#[test]
fn keys_come_from_the_tables() {
    assert_eq!(piece_key(OxideSidedPiece::WhitePawn, A1), 0xBCBD2C2F7DABFCBE);
    assert_eq!(piece_key(OxideSidedPiece::BlackKing, A1), 0x1F8D1CF9944FD778);
    assert_eq!(piece_key(OxideSidedPiece::WhitePawn, B1), 0x63E82D59AE668F3A);
    assert_eq!(piece_key(OxideSidedPiece::BlackKing, H8), PIECE_KEYS[63][11]);
    assert_eq!(en_passant_key(H3), EN_PASSANT_KEYS[0]);
    assert_eq!(en_passant_key(A3), EN_PASSANT_KEYS[7]);
    assert_eq!(en_passant_key(E3), EN_PASSANT_KEYS[3]);
    assert_eq!(en_passant_key(E6), en_passant_key(E3));
    assert_eq!(en_passant_key(H6), 0xCC5EEF113797E347);
}

#[test]
fn castle_key_is_the_mix_of_its_rights() {
    assert_eq!(castle_key(OxideCastleRights::NONE), 0);
    assert_eq!(castle_key(OxideCastleRights::WhiteKing), CASTLE_KEYS[0]);
    assert_eq!(castle_key(OxideCastleRights::BlackKing), CASTLE_KEYS[1]);
    assert_eq!(castle_key(OxideCastleRights::WhiteQueen), CASTLE_KEYS[2]);
    assert_eq!(castle_key(OxideCastleRights::BlackQueen), CASTLE_KEYS[3]);
    assert_eq!(castle_key(OxideCastleRights::All), CASTLE_KEYS[0] ^ CASTLE_KEYS[1] ^ CASTLE_KEYS[2] ^ CASTLE_KEYS[3]);
    assert_eq!(castle_key(OxideCastleRights::WhiteAllBlackQueen), 0x84993F262ABB0E4A ^ 0xA0ACB86F0695F023 ^ 0xE111D8788EEFCFDE);
}

#[test]
fn hasher_mixes_by_exclusive_or() {
    let mut hasher = OxideZobristHasher(0xF0F0);
    hasher.write_u64(0x0FF0);
    assert_eq!(hasher.finish(), 0xFF00);
    hasher.write_u64(0x0FF0);
    assert_eq!(hasher.finish(), 0xF0F0);
}

#[test]
fn hash_follows_every_change() {
    let mut position = OxidePosition::new();
    assert_eq!(position.zobrist_hash(), BASE_KEY);
    position.add_piece(OxideSidedPiece::WhiteKing, E1);
    assert_eq!(position.zobrist_hash(), BASE_KEY ^ piece_key(OxideSidedPiece::WhiteKing, E1));
    position.move_piece(OxideSidedPiece::WhiteKing, E1, B1);
    assert_eq!(position.zobrist_hash(), BASE_KEY ^ piece_key(OxideSidedPiece::WhiteKing, B1));
    position.add_piece(OxideSidedPiece::BlackRook, H8);
    position.switch_sides();
    position.set_castle_rights(OxideCastleRights::BothKings);
    position.set_en_passant(E3);
    let expected = BASE_KEY ^ piece_key(OxideSidedPiece::WhiteKing, B1) ^ piece_key(OxideSidedPiece::BlackRook, H8) ^ SIDE_KEY
        ^ castle_key(OxideCastleRights::BothKings) ^ en_passant_key(E3);
    assert_eq!(position.zobrist_hash(), expected);
    assert_eq!(position.recomputed_hash(), expected);
    position.remove_castle_rights(OxideCastleRights::WhiteAll);
    assert_eq!(position.castle_rights(), OxideCastleRights::BlackKing);
    position.add_castle_rights(OxideCastleRights::BlackAll);
    assert_eq!(position.castle_rights(), OxideCastleRights::BlackAll);
    position.set_en_passant(A3);
    position.remove_piece(OxideSidedPiece::BlackRook, H8);
    position.switch_sides();
    position.clear_en_passant();
    position.set_castle_rights(OxideCastleRights::NONE);
    position.move_piece(OxideSidedPiece::WhiteKing, B1, E1);
    assert_eq!(position.zobrist_hash(), BASE_KEY ^ piece_key(OxideSidedPiece::WhiteKing, E1));
    assert_eq!(position.recomputed_hash(), position.zobrist_hash());
    let mut hasher = OxideZobristHasher(0);
    position.hash_into(&mut hasher);
    assert_eq!(hasher.finish(), piece_key(OxideSidedPiece::WhiteKing, E1));
}

#[test]
fn half_move_clock_counts_and_resets() {
    let mut position = OxidePosition::new();
    position.increment_halfmove_clock();
    position.increment_halfmove_clock();
    assert_eq!(position.halfmove_clock(), 2);
    position.reset_halfmove_clock();
    assert_eq!(position.halfmove_clock(), 0);
    position.set_halfmove_clock(99);
    position.set_halfmove_count(7);
    assert_eq!(position.halfmove_clock(), 99);
    assert_eq!(position.halfmove_count(), 7);
    assert_eq!(position.fullmove_count(), 4);
    assert_eq!(position.to_fen(), "8/8/8/8/8/8/8/8 w - - 99 4");
}
