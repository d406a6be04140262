use oxide_chess::attacks::{
    bishop_attacks, king_attacks, knight_attacks, pawn_attacks, pawn_east_attacks, pawn_pushes,
    pawn_west_attacks, queen_attacks, rook_attacks,
};
use oxide_chess::bitboard::OxideBitboard;
use oxide_chess::side::OxideSide;

#[test]
fn king_attacks_works() {
    assert_eq!(king_attacks(OxideBitboard(1)), OxideBitboard(0x302u64));
    assert_eq!(king_attacks(OxideBitboard(0x2000000000u64)), OxideBitboard(0x705070000000u64));
    assert_eq!(king_attacks(OxideBitboard(0x80000000000000u64)), OxideBitboard(0xc040c00000000000u64));
}

#[test]
fn knight_attacks_works() {
    assert_eq!(knight_attacks(OxideBitboard(0x40000000000u64)), OxideBitboard(0xa1100110a000000u64));
    assert_eq!(knight_attacks(OxideBitboard(0x2000000000u64)), OxideBitboard(0x50880088500000u64));
    assert_eq!(knight_attacks(OxideBitboard(0x80u64)), OxideBitboard(0x402000u64));
}

#[test]
fn pawn_attacks_works() {
    assert_eq!(pawn_attacks(OxideBitboard::empty(), OxideSide::White), OxideBitboard::empty());
    assert_eq!(pawn_attacks(OxideBitboard::empty(), OxideSide::Black), OxideBitboard::empty());
    assert_eq!(pawn_attacks(OxideBitboard(0x8000000), OxideSide::White), OxideBitboard(0x1400000000));
    assert_eq!(pawn_attacks(OxideBitboard(0x8000000), OxideSide::Black), OxideBitboard(0x140000));
    assert_eq!(pawn_attacks(OxideBitboard(0x201004400000), OxideSide::White), OxideBitboard(0x50280aa0000000));
    assert_eq!(pawn_attacks(OxideBitboard(0x201004400000), OxideSide::Black), OxideBitboard(0x50280aa000));
    assert_eq!(pawn_attacks(OxideBitboard(0xff00), OxideSide::White), OxideBitboard(0xff0000));
    assert_eq!(pawn_attacks(OxideBitboard(0xff000000000000), OxideSide::Black), OxideBitboard(0xff0000000000));
}

#[test]
fn pawn_pushes_works() {
    assert_eq!(pawn_pushes(OxideBitboard::empty(), OxideSide::White), OxideBitboard::empty());
    assert_eq!(pawn_pushes(OxideBitboard::empty(), OxideSide::Black), OxideBitboard::empty());
    assert_eq!(pawn_pushes(OxideBitboard(0x8000000), OxideSide::White), OxideBitboard(0x800000000));
    assert_eq!(pawn_pushes(OxideBitboard(0x8000000), OxideSide::Black), OxideBitboard(0x80000));
    assert_eq!(pawn_pushes(OxideBitboard(0x201004400000), OxideSide::White), OxideBitboard(0x20100440000000));
    assert_eq!(pawn_pushes(OxideBitboard(0x201004400000), OxideSide::Black), OxideBitboard(0x2010044000));
    assert_eq!(pawn_pushes(OxideBitboard(0xff00), OxideSide::White), OxideBitboard(0xff0000));
    assert_eq!(pawn_pushes(OxideBitboard(0xff000000000000), OxideSide::Black), OxideBitboard(0xff0000000000));
}

#[test]
fn pawn_west_attacks_works() {
    assert_eq!(pawn_west_attacks(OxideBitboard::empty(), OxideSide::White), OxideBitboard::empty());
    assert_eq!(pawn_west_attacks(OxideBitboard::empty(), OxideSide::Black), OxideBitboard::empty());
    assert_eq!(pawn_west_attacks(OxideBitboard(0x100000), OxideSide::White), OxideBitboard(0x8000000));
    assert_eq!(pawn_west_attacks(OxideBitboard(0x20000), OxideSide::White), OxideBitboard(0x1000000));
    assert_eq!(pawn_west_attacks(OxideBitboard(0x1000000), OxideSide::White), OxideBitboard::empty());
    assert_eq!(pawn_west_attacks(OxideBitboard(0x100000), OxideSide::Black), OxideBitboard(0x800));
    assert_eq!(pawn_west_attacks(OxideBitboard(0x20000), OxideSide::Black), OxideBitboard(0x100));
    assert_eq!(pawn_west_attacks(OxideBitboard(0x1000000), OxideSide::Black), OxideBitboard::empty());
}

#[test]
fn pawn_east_attacks_works() {
    assert_eq!(pawn_east_attacks(OxideBitboard::empty(), OxideSide::White), OxideBitboard::empty());
    assert_eq!(pawn_east_attacks(OxideBitboard::empty(), OxideSide::Black), OxideBitboard::empty());
    assert_eq!(pawn_east_attacks(OxideBitboard(0x100000), OxideSide::White), OxideBitboard(0x20000000));
    assert_eq!(pawn_east_attacks(OxideBitboard(0x20000000), OxideSide::White), OxideBitboard(0x4000000000));
    assert_eq!(pawn_east_attacks(OxideBitboard(0x800000000000), OxideSide::White), OxideBitboard::empty());
    assert_eq!(pawn_east_attacks(OxideBitboard(0x100000), OxideSide::Black), OxideBitboard(0x2000));
    assert_eq!(pawn_east_attacks(OxideBitboard(0x20000000), OxideSide::Black), OxideBitboard(0x400000));
    assert_eq!(pawn_east_attacks(OxideBitboard(0x800000000000), OxideSide::Black), OxideBitboard::empty());
}

#[test]
fn bishop_attack_works() {
    // No attackers, no blockers
    assert_eq!(bishop_attacks(OxideBitboard::empty(), OxideBitboard(0)), OxideBitboard::empty());
    // No attackers, all blocking
    assert_eq!(bishop_attacks(OxideBitboard::empty(), OxideBitboard::full()), OxideBitboard::empty());
    // 1 attacker, all blocking
    assert_eq!(bishop_attacks(OxideBitboard(0x8000000u64), OxideBitboard::full()), OxideBitboard(0x1400140000u64));
    // 1 attacker, no blocking
    assert_eq!(bishop_attacks(OxideBitboard(0x200000000000u64), OxideBitboard(0x200000000000u64)), OxideBitboard(0x8850005088040201u64));
    assert_eq!(bishop_attacks(OxideBitboard(0x80u64), OxideBitboard(0x80u64)), OxideBitboard(0x102040810204000u64));
    // 1 attacker multiple blocking
    assert_eq!(bishop_attacks(OxideBitboard(0x4000000u64), OxideBitboard(0x20014004024004u64)), OxideBitboard(0x20110a000a1020u64));
    assert_eq!(bishop_attacks(OxideBitboard(0x400000000000u64), OxideBitboard(0x4000f8000000u64)), OxideBitboard(0x10a000a010000000u64));
    // Multiple attackers no blocking
    assert_eq!(bishop_attacks(OxideBitboard(0x40040000000u64), OxideBitboard(0x40040000000u64)), OxideBitboard(0x150a10aa11a05088u64));
    // Multiple attackers aligned
    assert_eq!(bishop_attacks(OxideBitboard(0x400000080000u64), OxideBitboard(0x400000080000u64)), OxideBitboard(0x10a041a214081422u64));
    // Multiple attackers multiple blockers
    assert_eq!(bishop_attacks(OxideBitboard(0x48000200000u64), OxideBitboard(0x2458004200080u64)), OxideBitboard(0x100a448a51205088u64));
}

#[test]
fn rook_attack_works() {
    // No attackers, no blockers
    assert_eq!(rook_attacks(OxideBitboard::empty(), OxideBitboard(0)), OxideBitboard::empty());
    // No attackers, all blocking
    assert_eq!(rook_attacks(OxideBitboard::empty(), OxideBitboard::full()), OxideBitboard::empty());
    // 1 attacker, all blocking
    assert_eq!(rook_attacks(OxideBitboard(0x8000000u64), OxideBitboard::full()), OxideBitboard(0x814080000u64));
    // 1 attacker, no blocking
    assert_eq!(rook_attacks(OxideBitboard(0x200000000000u64), OxideBitboard(0x200000000000u64)), OxideBitboard(0x2020df2020202020u64));
    assert_eq!(rook_attacks(OxideBitboard(0x80u64), OxideBitboard(0x80u64)), OxideBitboard(0x808080808080807fu64));
    // 1 attacker multiple blocking
    assert_eq!(rook_attacks(OxideBitboard(0x4000000u64), OxideBitboard(0x425001000u64)), OxideBitboard(0x43b040404u64));
    assert_eq!(rook_attacks(OxideBitboard(0x400000000000u64), OxideBitboard(0x4000f8000000u64)), OxideBitboard(0x4040bf4040000000u64));
    // Multiple attackers no blocking
    assert_eq!(rook_attacks(OxideBitboard(0x40040000000u64), OxideBitboard(0x40040000000u64)), OxideBitboard(0x4444fb44bf444444u64));
    // Multiple attackers aligned
    assert_eq!(rook_attacks(OxideBitboard(0x440000000000u64), OxideBitboard(0x440000000000u64)), OxideBitboard(0x4444ff4444444444u64));
    // Multiple attackers multiple blockers
    assert_eq!(rook_attacks(OxideBitboard(0x2000048000000u64), OxideBitboard(0x120040ca040800u64)), OxideBitboard(0xa1d0a4afe484840u64));
}

#[test]
fn queen_attack_works() {
    // No attackers, no blockers
    assert_eq!(queen_attacks(OxideBitboard::empty(), OxideBitboard(0)), OxideBitboard::empty());
    // No attackers, all blocking
    assert_eq!(queen_attacks(OxideBitboard::empty(), OxideBitboard::full()), OxideBitboard::empty());
    // 1 attacker, all blocking
    assert_eq!(queen_attacks(OxideBitboard(0x8000000u64), OxideBitboard::full()), OxideBitboard(0x1c141c0000u64));
    // 1 attacker, no blocking
    assert_eq!(queen_attacks(OxideBitboard(0x8000000u64), OxideBitboard(0x200000000000u64)), OxideBitboard(0x8092a1cf71c2a49u64));
    assert_eq!(queen_attacks(OxideBitboard(0x80u64), OxideBitboard(0x80u64)), OxideBitboard(0x8182848890a0c07fu64));
    // 1 attacker multiple blocking
    assert_eq!(queen_attacks(OxideBitboard(0x200000u64), OxideBitboard(0x3800622000u64)), OxideBitboard(0xa8705e7088u64));
    assert_eq!(queen_attacks(OxideBitboard(0x400000000000u64), OxideBitboard(0x4000f8000000u64)), OxideBitboard(0x50e0bfe050000000u64));
    // Multiple attackers no blocking
    assert_eq!(queen_attacks(OxideBitboard(0x40040000000u64), OxideBitboard(0x40040000000u64)), OxideBitboard(0x554efbeebfe454ccu64));
    // Multiple attackers aligned
    assert_eq!(queen_attacks(OxideBitboard(0x440000004000u64), OxideBitboard(0x440000004000u64)), OxideBitboard(0x55eeffee55ecffe6u64));
    // Multiple attackers multiple blockers
    assert_eq!(queen_attacks(OxideBitboard(0x42000000u64), OxideBitboard(0x1244e6801000u64)), OxideBitboard(0x12e7a5e75a52u64));
}

#[test]
fn king_in_the_corner_attacks_three_squares() {
    // A1 attacks B1, A2 and B2; H8 attacks G8, G7 and H7.
    assert_eq!(king_attacks(OxideBitboard(0x1)), OxideBitboard(0x302));
    assert_eq!(king_attacks(OxideBitboard(0x8000000000000000)), OxideBitboard(0x40c0000000000000));
    // H1 attacks G1, G2 and H2, and nothing on the A file.
    assert_eq!(king_attacks(OxideBitboard(0x80)), OxideBitboard(0xc040));
}

#[test]
fn knight_in_the_corner_attacks_two_squares() {
    // H1 attacks F2 and G3.
    assert_eq!(knight_attacks(OxideBitboard(0x80)), OxideBitboard(0x402000));
    // A8 attacks B6 and C7.
    assert_eq!(knight_attacks(OxideBitboard(0x0100000000000000)), OxideBitboard(0x0004020000000000));
}
