use oxide_chess::chess_move::OxideMove;
use oxide_chess::movelist::MoveList;
use oxide_chess::square::OxideSquare::{A2, A3, B2, B3, C2, C3};

#[test]
fn list_starts_empty() {
    let list = MoveList::new();
    assert!(list.is_empty());
    assert_eq!(list.len(), 0);
    assert_eq!(list.get(0), None);
    assert_eq!(list.to_vec(), Vec::<OxideMove>::new());
}

#[test]
fn list_keeps_the_moves_in_their_order() {
    let mut list = MoveList::new();
    list.push(OxideMove::new(A2, A3));
    list.reserve(10);
    list.push(OxideMove::new_capture(B2, B3));
    list.push(OxideMove::new(C2, C3));
    assert!(!list.is_empty());
    assert_eq!(list.len(), 3);
    assert_eq!(list.get(0), Some(OxideMove::new(A2, A3)));
    assert_eq!(list.get(1), Some(OxideMove::new_capture(B2, B3)));
    assert_eq!(list.get(2), Some(OxideMove::new(C2, C3)));
    assert_eq!(list.get(3), None);
    assert!(list.contains(&OxideMove::new(C2, C3)));
    assert!(!list.contains(&OxideMove::new(B2, B3)));
    assert_eq!(list.to_vec(), vec![OxideMove::new(A2, A3), OxideMove::new_capture(B2, B3), OxideMove::new(C2, C3)]);
}

#[test]
fn list_grows_past_its_inline_size() {
    let mut list = MoveList::new();
    for _ in 0..200 {
        list.push(OxideMove::new(A2, A3));
    }
    list.push(OxideMove::new(B2, B3));
    assert_eq!(list.len(), 201);
    assert_eq!(list.get(200), Some(OxideMove::new(B2, B3)));
    assert_eq!(list.get(199), Some(OxideMove::new(A2, A3)));
}
