use oxide_chess::bitboard::OxideBitboard;
use oxide_chess::square::OxideSquare;
use oxide_chess::square::OxideSquare::{A1, B1, C1, E1, H1, A2, B2, C2, E2, F2, G2, A3, B3, C3, D3, E3, F3, G3, H3, A4, B4, C4, D4, E4, A5, B5, C5, D5, E5, F5, G5, A6, B6, C6, E6, F6, G6, H6, A7, B7, C7, D7, E7, F7, G7, H7, A8, B8, C8, D8, G8, H8};

#[test]
fn offset_works() {
    // Test corners are correct
    assert_eq!(OxideSquare::offset(A1), 0);
    assert_eq!(OxideSquare::offset(H1), 7);
    assert_eq!(OxideSquare::offset(A8), 56);
    assert_eq!(OxideSquare::offset(H8), 63);
    // Test something in the middle
    assert_eq!(OxideSquare::offset(E3), 20);
}

#[test]
fn from_offset_works() {
    assert_eq!(OxideSquare::from_offset(64), None);
    assert_eq!(OxideSquare::from_offset(u8::MAX), None);
    // assert_eq!(OxideSquare::from_offset(u8::MAX), None);
    for square in OxideSquare::SQUARES.iter().copied() {
        let offset = OxideSquare::offset(square);
        assert_eq!(OxideSquare::from_offset(offset), Some(square));
    }
}

#[test]
fn from_mask_works() {
    assert_eq!(OxideSquare::from_mask(OxideBitboard(0)), None);
    assert_eq!(OxideSquare::from_mask(OxideBitboard(0x10000000)), Some(E4));
    assert_eq!(OxideSquare::from_mask(OxideBitboard::full()), Some(A1));
}

#[test]
fn from_mask_matches_to_mask() {
    for square in OxideSquare::SQUARES {
        assert_eq!(OxideSquare::from_mask(OxideSquare::to_mask(square)), Some(square));
    }
}

#[test]
fn to_bitboard_works() {
    // Test corners are correct
    assert_eq!(OxideSquare::to_mask(A1), OxideBitboard(0x1u64));
    assert_eq!(OxideSquare::to_mask(H1), OxideBitboard(0x80u64));
    assert_eq!(OxideSquare::to_mask(A8), OxideBitboard(0x100000000000000u64));
    assert_eq!(OxideSquare::to_mask(H8), OxideBitboard(0x8000000000000000u64));
    // Test something in the middle
    assert_eq!(OxideSquare::to_mask(E3), OxideBitboard(0x100000u64));
}

#[test]
fn x_offset_works() {
    assert_eq!(OxideSquare::x_offset(A1), 0);
    assert_eq!(OxideSquare::x_offset(A3), 0);
    assert_eq!(OxideSquare::x_offset(A8), 0);
    assert_eq!(OxideSquare::x_offset(B2), 1);
    assert_eq!(OxideSquare::x_offset(B8), 1);
    assert_eq!(OxideSquare::x_offset(C4), 2);
    assert_eq!(OxideSquare::x_offset(D4), 3);
    assert_eq!(OxideSquare::x_offset(E1), 4);
    assert_eq!(OxideSquare::x_offset(F7), 5);
    assert_eq!(OxideSquare::x_offset(G3), 6);
    assert_eq!(OxideSquare::x_offset(H3), 7);
    assert_eq!(OxideSquare::x_offset(H8), 7);
}

#[test]
fn y_offset_works() {
    assert_eq!(OxideSquare::y_offset(A1), 0);
    assert_eq!(OxideSquare::y_offset(A3), 2);
    assert_eq!(OxideSquare::y_offset(A8), 7);
    assert_eq!(OxideSquare::y_offset(B2), 1);
    assert_eq!(OxideSquare::y_offset(B8), 7);
    assert_eq!(OxideSquare::y_offset(C4), 3);
    assert_eq!(OxideSquare::y_offset(D4), 3);
    assert_eq!(OxideSquare::y_offset(E1), 0);
    assert_eq!(OxideSquare::y_offset(F7), 6);
    assert_eq!(OxideSquare::y_offset(G3), 2);
    assert_eq!(OxideSquare::y_offset(H3), 2);
    assert_eq!(OxideSquare::y_offset(H8), 7);
}

#[test]
fn north_shift_works() {
    // Left vertical
    assert_eq!(OxideSquare::north_shift(A1), A2);
    assert_eq!(OxideSquare::north_shift(A2), A3);
    assert_eq!(OxideSquare::north_shift(A3), A4);
    assert_eq!(OxideSquare::north_shift(A4), A5);
    assert_eq!(OxideSquare::north_shift(A5), A6);
    assert_eq!(OxideSquare::north_shift(A6), A7);
    assert_eq!(OxideSquare::north_shift(A7), A8);
    // Random squares
    assert_eq!(OxideSquare::north_shift(E1), E2);
    assert_eq!(OxideSquare::north_shift(H6), H7);
    assert_eq!(OxideSquare::north_shift(H7), H8);
    assert_eq!(OxideSquare::north_shift(B4), B5);
}

#[test]
fn south_shift_works() {
    // Left vertical
    assert_eq!(OxideSquare::south_shift(A8), A7);
    assert_eq!(OxideSquare::south_shift(A7), A6);
    assert_eq!(OxideSquare::south_shift(A6), A5);
    assert_eq!(OxideSquare::south_shift(A5), A4);
    assert_eq!(OxideSquare::south_shift(A4), A3);
    assert_eq!(OxideSquare::south_shift(A3), A2);
    assert_eq!(OxideSquare::south_shift(A2), A1);
    // Random squares
    assert_eq!(OxideSquare::south_shift(E2), E1);
    assert_eq!(OxideSquare::south_shift(H7), H6);
    assert_eq!(OxideSquare::south_shift(H8), H7);
    assert_eq!(OxideSquare::south_shift(B5), B4);
}

#[test]
fn east_shift_works() {
    // Rank 3 east shift
    assert_eq!(OxideSquare::east_shift(A3), B3);
    assert_eq!(OxideSquare::east_shift(B3), C3);
    assert_eq!(OxideSquare::east_shift(C3), D3);
    assert_eq!(OxideSquare::east_shift(D3), E3);
    assert_eq!(OxideSquare::east_shift(E3), F3);
    assert_eq!(OxideSquare::east_shift(F3), G3);
    assert_eq!(OxideSquare::east_shift(G3), H3);
    // Random squares
    assert_eq!(OxideSquare::east_shift(E2), F2);
    assert_eq!(OxideSquare::east_shift(B4), C4);
    assert_eq!(OxideSquare::east_shift(D7), E7);
    assert_eq!(OxideSquare::east_shift(B5), C5);
}

#[test]
fn west_shift_works() {
    // Rank 3 east shift
    assert_eq!(OxideSquare::west_shift(H3), G3);
    assert_eq!(OxideSquare::west_shift(G3), F3);
    assert_eq!(OxideSquare::west_shift(F3), E3);
    assert_eq!(OxideSquare::west_shift(E3), D3);
    assert_eq!(OxideSquare::west_shift(D3), C3);
    assert_eq!(OxideSquare::west_shift(C3), B3);
    assert_eq!(OxideSquare::west_shift(B3), A3);
    // Random squares
    assert_eq!(OxideSquare::west_shift(F2), E2);
    assert_eq!(OxideSquare::west_shift(C4), B4);
    assert_eq!(OxideSquare::west_shift(E7), D7);
    assert_eq!(OxideSquare::west_shift(C5), B5);
    assert_eq!(OxideSquare::west_shift(H8), G8);
}

#[test]
fn north_east_shift_works() {
    // South-West to North-East diagonal
    assert_eq!(OxideSquare::north_east_shift(A1), B2);
    assert_eq!(OxideSquare::north_east_shift(B2), C3);
    assert_eq!(OxideSquare::north_east_shift(C3), D4);
    assert_eq!(OxideSquare::north_east_shift(D4), E5);
    assert_eq!(OxideSquare::north_east_shift(E5), F6);
    assert_eq!(OxideSquare::north_east_shift(F6), G7);
    assert_eq!(OxideSquare::north_east_shift(G7), H8);
    // Random squares
    assert_eq!(OxideSquare::north_east_shift(B1), C2);
    assert_eq!(OxideSquare::north_east_shift(C7), D8);
    assert_eq!(OxideSquare::north_east_shift(F5), G6);
}

#[test]
fn north_west_shift_works() {
    // South-East to North-West diagonal
    assert_eq!(OxideSquare::north_west_shift(H1), G2);
    assert_eq!(OxideSquare::north_west_shift(G2), F3);
    assert_eq!(OxideSquare::north_west_shift(F3), E4);
    assert_eq!(OxideSquare::north_west_shift(E4), D5);
    assert_eq!(OxideSquare::north_west_shift(D5), C6);
    assert_eq!(OxideSquare::north_west_shift(C6), B7);
    assert_eq!(OxideSquare::north_west_shift(B7), A8);
    // Random squares
    assert_eq!(OxideSquare::north_west_shift(B1), A2);
    assert_eq!(OxideSquare::north_west_shift(C7), B8);
    assert_eq!(OxideSquare::north_west_shift(F5), E6);
}

#[test]
fn south_east_shift_works() {
    assert_eq!(OxideSquare::south_east_shift(G8), H7);
    assert_eq!(OxideSquare::south_east_shift(A2), B1);
    assert_eq!(OxideSquare::south_east_shift(B3), C2);
    assert_eq!(OxideSquare::south_east_shift(C4), D3);
    assert_eq!(OxideSquare::south_east_shift(D5), E4);
    assert_eq!(OxideSquare::south_east_shift(E6), F5);
    assert_eq!(OxideSquare::south_east_shift(F7), G6);
    assert_eq!(OxideSquare::south_east_shift(B2), C1);
    assert_eq!(OxideSquare::south_east_shift(C8), D7);
    assert_eq!(OxideSquare::south_east_shift(F6), G5);
}

#[test]
fn south_west_shift_works() {
    // North-East to South-West diagonal
    assert_eq!(OxideSquare::south_west_shift(H8), G7);
    assert_eq!(OxideSquare::south_west_shift(G7), F6);
    assert_eq!(OxideSquare::south_west_shift(F6), E5);
    assert_eq!(OxideSquare::south_west_shift(E5), D4);
    assert_eq!(OxideSquare::south_west_shift(D4), C3);
    assert_eq!(OxideSquare::south_west_shift(C3), B2);
    assert_eq!(OxideSquare::south_west_shift(B2), A1);
    // Random squares
    assert_eq!(OxideSquare::south_west_shift(B2), A1);
    assert_eq!(OxideSquare::south_west_shift(C7), B6);
    assert_eq!(OxideSquare::south_west_shift(F5), E4);
}
