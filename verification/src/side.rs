//! The two sides of a game.
use vstd::prelude::*;
use crate::text::push_char;

verus! {

/// The side that owns a piece, or that is to move.
#[derive(Clone, Copy, Debug, PartialEq, Eq, Structural, Hash)]
pub enum OxideSide {
    White,
    Black,
}

impl OxideSide {
    /// Both sides, White first.
    pub const SIDES: [OxideSide; 2] = [OxideSide::White, OxideSide::Black];

    /// The side that moves first.
    pub const WHITE: OxideSide = OxideSide::White;

    /// The side that moves second.
    pub const BLACK: OxideSide = OxideSide::Black;

    /// The other side.
    pub open spec fn other(self) -> OxideSide {
        match self {
            OxideSide::White => OxideSide::Black,
            OxideSide::Black => OxideSide::White,
        }
    }

    /// The other side.
    pub fn opposite_side(self) -> (r: OxideSide)
        ensures
            r == self.other(),
    {
        match self {
            OxideSide::White => OxideSide::Black,
            OxideSide::Black => OxideSide::White,
        }
    }

    /// The other side.
    pub fn switch_sides(self) -> (r: OxideSide)
        ensures
            r == self.other(),
    {
        self.opposite_side()
    }

    /// Whether this is White.
    pub fn is_white(self) -> (r: bool)
        ensures
            r == (self == OxideSide::White),
    {
        self == OxideSide::White
    }

    /// Whether this is Black.
    pub fn is_black(self) -> (r: bool)
        ensures
            r == (self == OxideSide::Black),
    {
        self == OxideSide::Black
    }

    /// The letter that names the side in a position record: `w` or `b`.
    pub open spec fn letter(self) -> char {
        match self {
            OxideSide::White => 'w',
            OxideSide::Black => 'b',
        }
    }

    /// The side as text: `w` for White, `b` for Black.
    pub fn to_string(&self) -> (r: String)
        ensures
            r@ == seq![self.letter()],
    {
        let mut text = String::new();
        let letter = match self {
            OxideSide::White => 'w',
            OxideSide::Black => 'b',
        };
        push_char(&mut text, letter);
        assert(text@ =~= seq![self.letter()]);
        text
    }
}

} // verus!
