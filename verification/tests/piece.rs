use oxide_chess::piece::{OxidePiece, OxideSidedPiece};
use oxide_chess::side::OxideSide;

#[test]
fn remove_side_works() {
    assert_eq!(OxideSidedPiece::unsided_piece(&OxideSidedPiece::WhitePawn), OxidePiece::Pawn);
    assert_eq!(OxideSidedPiece::unsided_piece(&OxideSidedPiece::BlackPawn), OxidePiece::Pawn);
    assert_eq!(OxideSidedPiece::unsided_piece(&OxideSidedPiece::WhiteKnight), OxidePiece::Knight);
    assert_eq!(OxideSidedPiece::unsided_piece(&OxideSidedPiece::BlackKnight), OxidePiece::Knight);
    assert_eq!(OxideSidedPiece::unsided_piece(&OxideSidedPiece::WhiteBishop), OxidePiece::Bishop);
    assert_eq!(OxideSidedPiece::unsided_piece(&OxideSidedPiece::BlackBishop), OxidePiece::Bishop);
    assert_eq!(OxideSidedPiece::unsided_piece(&OxideSidedPiece::WhiteRook), OxidePiece::Rook);
    assert_eq!(OxideSidedPiece::unsided_piece(&OxideSidedPiece::BlackRook), OxidePiece::Rook);
    assert_eq!(OxideSidedPiece::unsided_piece(&OxideSidedPiece::WhiteQueen), OxidePiece::Queen);
    assert_eq!(OxideSidedPiece::unsided_piece(&OxideSidedPiece::BlackQueen), OxidePiece::Queen);
    assert_eq!(OxideSidedPiece::unsided_piece(&OxideSidedPiece::WhiteKing), OxidePiece::King);
    assert_eq!(OxideSidedPiece::unsided_piece(&OxideSidedPiece::BlackKing), OxidePiece::King);
    assert_eq!(OxideSidedPiece::unsided_piece(&OxideSidedPiece::Empty), OxidePiece::Empty);
}

#[test]
fn side_of_sided_works() {
    assert_eq!(OxideSidedPiece::side(&OxideSidedPiece::WhitePawn), OxideSide::White);
    assert_eq!(OxideSidedPiece::side(&OxideSidedPiece::BlackPawn), OxideSide::Black);
    assert_eq!(OxideSidedPiece::side(&OxideSidedPiece::WhiteKnight), OxideSide::White);
    assert_eq!(OxideSidedPiece::side(&OxideSidedPiece::BlackKnight), OxideSide::Black);
    assert_eq!(OxideSidedPiece::side(&OxideSidedPiece::WhiteBishop), OxideSide::White);
    assert_eq!(OxideSidedPiece::side(&OxideSidedPiece::BlackBishop), OxideSide::Black);
    assert_eq!(OxideSidedPiece::side(&OxideSidedPiece::WhiteRook), OxideSide::White);
    assert_eq!(OxideSidedPiece::side(&OxideSidedPiece::BlackRook), OxideSide::Black);
    assert_eq!(OxideSidedPiece::side(&OxideSidedPiece::WhiteQueen), OxideSide::White);
    assert_eq!(OxideSidedPiece::side(&OxideSidedPiece::BlackQueen), OxideSide::Black);
    assert_eq!(OxideSidedPiece::side(&OxideSidedPiece::WhiteKing), OxideSide::White);
    assert_eq!(OxideSidedPiece::side(&OxideSidedPiece::BlackKing), OxideSide::Black);
}

#[test]
fn sided_display_works() {
    assert_eq!(OxideSidedPiece::WhitePawn.to_string(), String::from("P"));
    assert_eq!(OxideSidedPiece::BlackPawn.to_string(), String::from("p"));
    assert_eq!(OxideSidedPiece::WhiteKnight.to_string(), String::from("N"));
    assert_eq!(OxideSidedPiece::BlackKnight.to_string(), String::from("n"));
    assert_eq!(OxideSidedPiece::WhiteBishop.to_string(), String::from("B"));
    assert_eq!(OxideSidedPiece::BlackBishop.to_string(), String::from("b"));
    assert_eq!(OxideSidedPiece::WhiteRook.to_string(), String::from("R"));
    assert_eq!(OxideSidedPiece::BlackRook.to_string(), String::from("r"));
    assert_eq!(OxideSidedPiece::WhiteQueen.to_string(), String::from("Q"));
    assert_eq!(OxideSidedPiece::BlackQueen.to_string(), String::from("q"));
    assert_eq!(OxideSidedPiece::WhiteKing.to_string(), String::from("K"));
    assert_eq!(OxideSidedPiece::BlackKing.to_string(), String::from("k"));
    assert_eq!(OxideSidedPiece::Empty.to_string(), String::from(" "));
}

#[test]
fn unsided_display_works() {
    assert_eq!(OxidePiece::Pawn.to_string(), String::from("P"));
    assert_eq!(OxidePiece::Knight.to_string(), String::from("N"));
    assert_eq!(OxidePiece::Bishop.to_string(), String::from("B"));
    assert_eq!(OxidePiece::Rook.to_string(), String::from("R"));
    assert_eq!(OxidePiece::Queen.to_string(), String::from("Q"));
    assert_eq!(OxidePiece::King.to_string(), String::from("K"));
    assert_eq!(OxidePiece::Empty.to_string(), String::from(" "));
}

#[test]
fn default_pieces_are_empty() {
    assert_eq!(OxidePiece::default(), OxidePiece::Empty);
    assert_eq!(OxideSidedPiece::default(), OxideSidedPiece::Empty);
}
