use oxide_chess::side::OxideSide;

#[test]
fn is_white_works() {
    assert_eq!(OxideSide::is_white(OxideSide::White), true);
    assert_eq!(OxideSide::is_white(OxideSide::Black), false);
}

#[test]
fn is_black_works() {
    assert_eq!(OxideSide::is_black(OxideSide::White), false);
    assert_eq!(OxideSide::is_black(OxideSide::Black), true);
}

#[test]
fn switch_sides_works() {
    assert_eq!(OxideSide::switch_sides(OxideSide::White), OxideSide::Black);
    assert_eq!(OxideSide::switch_sides(OxideSide::Black), OxideSide::White);
}

#[test]
fn side_display_works() {
    assert_eq!(OxideSide::White.to_string(), String::from("w"));
    assert_eq!(OxideSide::Black.to_string(), String::from("b"));
}
