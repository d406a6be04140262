use oxide_chess::attacks::{bishop_attacks, rook_attacks};
use oxide_chess::bitboard::OxideBitboard;
use oxide_chess::lookup::{bishop_attacks_lookup, bishop_blockers, pdep, pext, rook_attacks_lookup, rook_blockers, SlidingAttackTable};
use oxide_chess::square::OxideSquare;
use oxide_chess::square::OxideSquare::{A1, D4, E2, H1, H8};

#[test]
fn pdep_spreads_the_low_bits_over_the_mask() {
    assert_eq!(pdep(0, 0xff00), 0);
    assert_eq!(pdep(0b101, 0xff00), 0x500);
    assert_eq!(pdep(0b1011, 0x8000000000010110), 0x8000000000000110);
    assert_eq!(pdep(0xffffffffffffffff, 0x0123456789abcdef), 0x0123456789abcdef);
    assert_eq!(pdep(0x1234, 0xffffffffffffffff), 0x1234);
    assert_eq!(pdep(0xff, 0), 0);
    // Bits of the value beyond the number of squares of the mask are dropped.
    assert_eq!(pdep(0b110, 0x3), 0x2);
}

#[test]
fn pext_packs_the_squares_of_the_mask() {
    assert_eq!(pext(0, 0xff00), 0);
    assert_eq!(pext(0x500, 0xff00), 0b101);
    assert_eq!(pext(0x8000000000000110, 0x8000000000010110), 0b1011);
    assert_eq!(pext(0xffffffffffffffff, 0x0123456789abcdef), 0xffffffff);
    assert_eq!(pext(0x1234, 0xffffffffffffffff), 0x1234);
    assert_eq!(pext(0xff, 0), 0);
    // Squares of the value outside the mask do not count.
    assert_eq!(pext(0xf0f0, 0x0ff0), 0x0f);
}

#[test]
fn pdep_undoes_pext_on_the_mask() {
    let mask = 0x0042201008040200u64;
    for value in [0u64, 0x1, 0xdeadbeefcafef00d, 0xffffffffffffffff, 0x0042201008040200] {
        assert_eq!(pdep(pext(value, mask), mask), value & mask);
    }
}

#[test]
fn blocker_masks_leave_out_the_edges() {
    assert_eq!(rook_blockers(A1), OxideBitboard(0x101010101017E));
    assert_eq!(rook_blockers(H1), OxideBitboard(0x8080808080807E));
    assert_eq!(rook_blockers(E2), OxideBitboard(0x10101010106E00));
    assert_eq!(rook_blockers(D4), OxideBitboard(0x8080876080800));
    assert_eq!(rook_blockers(H8), OxideBitboard(0x7E80808080808000));
    assert_eq!(bishop_blockers(A1), OxideBitboard(0x40201008040200));
    assert_eq!(bishop_blockers(H1), OxideBitboard(0x2040810204000));
    assert_eq!(bishop_blockers(E2), OxideBitboard(0x244280000));
    assert_eq!(bishop_blockers(D4), OxideBitboard(0x40221400142200));
    assert_eq!(bishop_blockers(H8), OxideBitboard(0x40201008040200));
}

#[test]
fn lookups_give_what_the_rays_give() {
    let table = SlidingAttackTable::new();
    assert_eq!(table.rook_mask(A1), rook_blockers(A1));
    assert_eq!(table.bishop_mask(D4), bishop_blockers(D4));
    let mut occupied = 0x9e3779b97f4a7c15u64;
    for square in OxideSquare::SQUARES {
        for _ in 0..8 {
            occupied = occupied.wrapping_mul(0x5851f42d4c957f2d).wrapping_add(0x14057b7ef767814f);
            let board = OxideBitboard(occupied & occupied.rotate_left(17));
            assert_eq!(bishop_attacks_lookup(&table, square, board), bishop_attacks(square.to_mask(), board));
            assert_eq!(rook_attacks_lookup(&table, square, board), rook_attacks(square.to_mask(), board));
        }
        assert_eq!(rook_attacks_lookup(&table, square, OxideBitboard::full()), rook_attacks(square.to_mask(), OxideBitboard::full()));
        assert_eq!(bishop_attacks_lookup(&table, square, OxideBitboard::empty()), bishop_attacks(square.to_mask(), OxideBitboard::empty()));
    }
    assert_eq!(bishop_attacks_lookup(&table, D4, OxideBitboard(0x8000000)), OxideBitboard(0x8041221400142241));
    assert_eq!(rook_attacks_lookup(&table, D4, OxideBitboard(0x8000000)), OxideBitboard(0x08080808f7080808));
}
