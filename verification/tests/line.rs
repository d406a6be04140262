use oxide_chess::bitboard::OxideBitboard;
use oxide_chess::square::OxideSquare::{A1, C1, D1, F1, G1, H1, A2, B2, C2, G2, B3, C3, G3, A4, B4, C4, D4, E4, G4, H4, A5, B5, C5, D5, E5, F5, G5, A6, C6, F6, G6, B7, E7, G7, H7, A8, B8, C8, D8, H8};

#[test]
fn aligned_works() {
    assert!(OxideBitboard::aligned(A2, A4, A6));
    assert!(OxideBitboard::aligned(A2, A4, A8));
    assert!(!OxideBitboard::aligned(B2, A4, A8));
    assert!(!OxideBitboard::aligned(A2, B4, A8));
    assert!(!OxideBitboard::aligned(A2, A4, B8));
    assert!(!OxideBitboard::aligned(A2, B4, B8));
    assert!(OxideBitboard::aligned(B2, B4, B8));
    assert!(OxideBitboard::aligned(H1, A1, C1));
    assert!(!OxideBitboard::aligned(H1, A1, C2));
    assert!(OxideBitboard::aligned(H8, A1, D4));
    assert!(!OxideBitboard::aligned(H8, A1, D5));
    assert!(!OxideBitboard::aligned(H8, A2, D4));
    assert!(!OxideBitboard::aligned(H7, A1, D4));
}

#[test]
fn between_fill_works() {
    // A1-H8 diagonal
    assert_eq!(OxideBitboard::between_fill(A1, H8), OxideBitboard(0x40201008040200));
    assert_eq!(OxideBitboard::between_fill(A1, G7), OxideBitboard(0x201008040200));
    assert_eq!(OxideBitboard::between_fill(A1, F6), OxideBitboard(0x1008040200));
    assert_eq!(OxideBitboard::between_fill(A1, E5), OxideBitboard(0x8040200));
    assert_eq!(OxideBitboard::between_fill(B2, E5), OxideBitboard(0x8040000));
    assert_eq!(OxideBitboard::between_fill(B2, D4), OxideBitboard(0x40000));
    assert_eq!(OxideBitboard::between_fill(B3, D4), OxideBitboard(0x0));
    // G2-G6 vertical
    assert_eq!(OxideBitboard::between_fill(G2, G6), OxideBitboard(0x4040400000));
    assert_eq!(OxideBitboard::between_fill(G3, G6), OxideBitboard(0x4040000000));
    assert_eq!(OxideBitboard::between_fill(G4, G6), OxideBitboard(0x4000000000));
    assert_eq!(OxideBitboard::between_fill(G4, G5), OxideBitboard(0x0));
    // F5-A5 horizontal
    assert_eq!(OxideBitboard::between_fill(F5, A5), OxideBitboard(0x1e00000000));
    assert_eq!(OxideBitboard::between_fill(E5, A5), OxideBitboard(0xe00000000));
    assert_eq!(OxideBitboard::between_fill(D5, A5), OxideBitboard(0x600000000));
    assert_eq!(OxideBitboard::between_fill(D5, B5), OxideBitboard(0x400000000));
    assert_eq!(OxideBitboard::between_fill(D5, C5), OxideBitboard(0x0));
    // Non aligned between
    assert_eq!(OxideBitboard::between_fill(A5, B7), OxideBitboard(0x0));
    assert_eq!(OxideBitboard::between_fill(H1, C8), OxideBitboard(0x0));
    assert_eq!(OxideBitboard::between_fill(E4, C1), OxideBitboard(0x0));
    assert_eq!(OxideBitboard::between_fill(E4, D1), OxideBitboard(0x0));
    assert_eq!(OxideBitboard::between_fill(E4, F1), OxideBitboard(0x0));
    assert_eq!(OxideBitboard::between_fill(E4, G1), OxideBitboard(0x0));
}

#[test]
fn line_fill_works() {
    // Non aligned
    assert_eq!(OxideBitboard::line_fill(A1, B5), OxideBitboard(0x0));
    assert_eq!(OxideBitboard::line_fill(A1, B4), OxideBitboard(0x0));
    assert_eq!(OxideBitboard::line_fill(A1, C4), OxideBitboard(0x0));
    // Diagonal A1-H8
    assert_eq!(OxideBitboard::line_fill(A1, D4), OxideBitboard(0x8040201008040201));
    assert_eq!(OxideBitboard::line_fill(B2, D4), OxideBitboard(0x8040201008040201));
    assert_eq!(OxideBitboard::line_fill(C3, D4), OxideBitboard(0x8040201008040201));
    assert_eq!(OxideBitboard::line_fill(D4, C3), OxideBitboard(0x8040201008040201));
    assert_eq!(OxideBitboard::line_fill(D4, E5), OxideBitboard(0x8040201008040201));
    assert_eq!(OxideBitboard::line_fill(D4, H8), OxideBitboard(0x8040201008040201));
    assert_eq!(OxideBitboard::line_fill(A1, H8), OxideBitboard(0x8040201008040201));
    // Diagonal A8-H1
    assert_eq!(OxideBitboard::line_fill(A8, D5), OxideBitboard(0x102040810204080));
    assert_eq!(OxideBitboard::line_fill(B7, D5), OxideBitboard(0x102040810204080));
    assert_eq!(OxideBitboard::line_fill(C6, D5), OxideBitboard(0x102040810204080));
    assert_eq!(OxideBitboard::line_fill(D5, C6), OxideBitboard(0x102040810204080));
    assert_eq!(OxideBitboard::line_fill(D5, E4), OxideBitboard(0x102040810204080));
    assert_eq!(OxideBitboard::line_fill(D5, H1), OxideBitboard(0x102040810204080));
    assert_eq!(OxideBitboard::line_fill(A8, H1), OxideBitboard(0x102040810204080));
    // Non-major diagonal D8-H4
    assert_eq!(OxideBitboard::line_fill(E7, G5), OxideBitboard(0x810204080000000));
    assert_eq!(OxideBitboard::line_fill(G5, E7), OxideBitboard(0x810204080000000));
    assert_eq!(OxideBitboard::line_fill(G5, H4), OxideBitboard(0x810204080000000));
    assert_eq!(OxideBitboard::line_fill(D8, H4), OxideBitboard(0x810204080000000));
    // Vertical G1-G4
    assert_eq!(OxideBitboard::line_fill(G1, G4), OxideBitboard(0x4040404040404040));
    assert_eq!(OxideBitboard::line_fill(G1, G3), OxideBitboard(0x4040404040404040));
    assert_eq!(OxideBitboard::line_fill(G1, G2), OxideBitboard(0x4040404040404040));
    assert_eq!(OxideBitboard::line_fill(G4, G1), OxideBitboard(0x4040404040404040));
    // Horizontal A5-F5
    assert_eq!(OxideBitboard::line_fill(A5, F5), OxideBitboard(0xff00000000));
    assert_eq!(OxideBitboard::line_fill(A5, E5), OxideBitboard(0xff00000000));
    assert_eq!(OxideBitboard::line_fill(A5, D5), OxideBitboard(0xff00000000));
    assert_eq!(OxideBitboard::line_fill(A5, C5), OxideBitboard(0xff00000000));
    assert_eq!(OxideBitboard::line_fill(B5, C5), OxideBitboard(0xff00000000));
    assert_eq!(OxideBitboard::line_fill(C5, F5), OxideBitboard(0xff00000000));
}
