//! Pieces, with and without the side that owns them.
use vstd::prelude::*;
use crate::side::OxideSide;
use crate::text::push_char;

verus! {

/// A kind of piece, or `Empty` for no piece.
#[derive(Clone, Copy, Debug, PartialEq, Eq, Structural, Hash)]
pub enum OxidePiece {
    Pawn,
    Knight,
    Bishop,
    Rook,
    Queen,
    King,
    Empty,
}

/// A piece of one side, or `Empty` for no piece.
#[derive(Clone, Copy, Debug, PartialEq, Eq, Structural, Hash)]
pub enum OxideSidedPiece {
    WhitePawn,
    BlackPawn,
    WhiteKnight,
    BlackKnight,
    WhiteBishop,
    BlackBishop,
    WhiteRook,
    BlackRook,
    WhiteQueen,
    BlackQueen,
    WhiteKing,
    BlackKing,
    Empty,
}

impl Default for OxidePiece {
    fn default() -> (r: OxidePiece)
        ensures
            r == OxidePiece::Empty,
    {
        OxidePiece::Empty
    }
}

impl Default for OxideSidedPiece {
    fn default() -> (r: OxideSidedPiece)
        ensures
            r == OxideSidedPiece::Empty,
    {
        OxideSidedPiece::Empty
    }
}

impl OxidePiece {
    /// The six kinds of piece.
    pub const PIECES: [OxidePiece; 6] = [
        OxidePiece::Pawn,
        OxidePiece::Knight,
        OxidePiece::Bishop,
        OxidePiece::Rook,
        OxidePiece::Queen,
        OxidePiece::King,
    ];

    /// The pawn.
    pub const PAWN: OxidePiece = OxidePiece::Pawn;

    /// The knight.
    pub const KNIGHT: OxidePiece = OxidePiece::Knight;

    /// The bishop.
    pub const BISHOP: OxidePiece = OxidePiece::Bishop;

    /// The rook.
    pub const ROOK: OxidePiece = OxidePiece::Rook;

    /// The queen.
    pub const QUEEN: OxidePiece = OxidePiece::Queen;

    /// The king.
    pub const KING: OxidePiece = OxidePiece::King;

    /// No piece.
    pub const EMPTY: OxidePiece = OxidePiece::Empty;

    /// The piece of this kind that `side` owns; `Empty` stays `Empty`.
    pub open spec fn with_side(self, side: OxideSide) -> OxideSidedPiece {
        match (self, side) {
            (OxidePiece::Pawn, OxideSide::White) => OxideSidedPiece::WhitePawn,
            (OxidePiece::Pawn, OxideSide::Black) => OxideSidedPiece::BlackPawn,
            (OxidePiece::Knight, OxideSide::White) => OxideSidedPiece::WhiteKnight,
            (OxidePiece::Knight, OxideSide::Black) => OxideSidedPiece::BlackKnight,
            (OxidePiece::Bishop, OxideSide::White) => OxideSidedPiece::WhiteBishop,
            (OxidePiece::Bishop, OxideSide::Black) => OxideSidedPiece::BlackBishop,
            (OxidePiece::Rook, OxideSide::White) => OxideSidedPiece::WhiteRook,
            (OxidePiece::Rook, OxideSide::Black) => OxideSidedPiece::BlackRook,
            (OxidePiece::Queen, OxideSide::White) => OxideSidedPiece::WhiteQueen,
            (OxidePiece::Queen, OxideSide::Black) => OxideSidedPiece::BlackQueen,
            (OxidePiece::King, OxideSide::White) => OxideSidedPiece::WhiteKing,
            (OxidePiece::King, OxideSide::Black) => OxideSidedPiece::BlackKing,
            (OxidePiece::Empty, _) => OxideSidedPiece::Empty,
        }
    }

    /// The piece of this kind that `side` owns; `Empty` stays `Empty`.
    pub fn add_side(self, side: OxideSide) -> (r: OxideSidedPiece)
        ensures
            r == self.with_side(side),
            self != OxidePiece::Empty ==> r.kind() == self && r.owner() == side,
    {
        match (self, side) {
            (OxidePiece::Pawn, OxideSide::White) => OxideSidedPiece::WhitePawn,
            (OxidePiece::Pawn, OxideSide::Black) => OxideSidedPiece::BlackPawn,
            (OxidePiece::Knight, OxideSide::White) => OxideSidedPiece::WhiteKnight,
            (OxidePiece::Knight, OxideSide::Black) => OxideSidedPiece::BlackKnight,
            (OxidePiece::Bishop, OxideSide::White) => OxideSidedPiece::WhiteBishop,
            (OxidePiece::Bishop, OxideSide::Black) => OxideSidedPiece::BlackBishop,
            (OxidePiece::Rook, OxideSide::White) => OxideSidedPiece::WhiteRook,
            (OxidePiece::Rook, OxideSide::Black) => OxideSidedPiece::BlackRook,
            (OxidePiece::Queen, OxideSide::White) => OxideSidedPiece::WhiteQueen,
            (OxidePiece::Queen, OxideSide::Black) => OxideSidedPiece::BlackQueen,
            (OxidePiece::King, OxideSide::White) => OxideSidedPiece::WhiteKing,
            (OxidePiece::King, OxideSide::Black) => OxideSidedPiece::BlackKing,
            (OxidePiece::Empty, _) => OxideSidedPiece::Empty,
        }
    }

    /// The capital letter that names the kind, a blank for `Empty`.
    pub open spec fn letter(self) -> char {
        match self {
            OxidePiece::Pawn => 'P',
            OxidePiece::Knight => 'N',
            OxidePiece::Bishop => 'B',
            OxidePiece::Rook => 'R',
            OxidePiece::Queen => 'Q',
            OxidePiece::King => 'K',
            OxidePiece::Empty => ' ',
        }
    }

    /// The kind that a letter names, in either case; `Empty` for any other
    /// character.
    pub open spec fn of_letter(letter: char) -> OxidePiece {
        if letter == 'p' || letter == 'P' {
            OxidePiece::Pawn
        } else if letter == 'r' || letter == 'R' {
            OxidePiece::Rook
        } else if letter == 'q' || letter == 'Q' {
            OxidePiece::Queen
        } else if letter == 'k' || letter == 'K' {
            OxidePiece::King
        } else if letter == 'n' || letter == 'N' {
            OxidePiece::Knight
        } else if letter == 'b' || letter == 'B' {
            OxidePiece::Bishop
        } else {
            OxidePiece::Empty
        }
    }

    /// The kind that a letter names, in either case; `Empty` for any other
    /// character.
    pub fn from_char(letter: char) -> (r: OxidePiece)
        ensures
            r == Self::of_letter(letter),
    {
        if letter == 'p' || letter == 'P' {
            OxidePiece::Pawn
        } else if letter == 'r' || letter == 'R' {
            OxidePiece::Rook
        } else if letter == 'q' || letter == 'Q' {
            OxidePiece::Queen
        } else if letter == 'k' || letter == 'K' {
            OxidePiece::King
        } else if letter == 'n' || letter == 'N' {
            OxidePiece::Knight
        } else if letter == 'b' || letter == 'B' {
            OxidePiece::Bishop
        } else {
            OxidePiece::Empty
        }
    }

    /// The letter of the kind as text.
    pub fn to_string(&self) -> (r: String)
        ensures
            r@ == seq![self.letter()],
    {
        let mut text = String::new();
        let letter = match self {
            OxidePiece::Pawn => 'P',
            OxidePiece::Knight => 'N',
            OxidePiece::Bishop => 'B',
            OxidePiece::Rook => 'R',
            OxidePiece::Queen => 'Q',
            OxidePiece::King => 'K',
            OxidePiece::Empty => ' ',
        };
        push_char(&mut text, letter);
        assert(text@ =~= seq![self.letter()]);
        text
    }
}

impl OxideSidedPiece {
    /// The twelve pieces, by kind and then White before Black.
    pub const PIECES: [OxideSidedPiece; 12] = [
        OxideSidedPiece::WhitePawn,
        OxideSidedPiece::BlackPawn,
        OxideSidedPiece::WhiteKnight,
        OxideSidedPiece::BlackKnight,
        OxideSidedPiece::WhiteBishop,
        OxideSidedPiece::BlackBishop,
        OxideSidedPiece::WhiteRook,
        OxideSidedPiece::BlackRook,
        OxideSidedPiece::WhiteQueen,
        OxideSidedPiece::BlackQueen,
        OxideSidedPiece::WhiteKing,
        OxideSidedPiece::BlackKing,
    ];

    /// The pawn of White.
    pub const WHITE_PAWN: OxideSidedPiece = OxideSidedPiece::WhitePawn;

    /// The pawn of Black.
    pub const BLACK_PAWN: OxideSidedPiece = OxideSidedPiece::BlackPawn;

    /// The knight of White.
    pub const WHITE_KNIGHT: OxideSidedPiece = OxideSidedPiece::WhiteKnight;

    /// The knight of Black.
    pub const BLACK_KNIGHT: OxideSidedPiece = OxideSidedPiece::BlackKnight;

    /// The bishop of White.
    pub const WHITE_BISHOP: OxideSidedPiece = OxideSidedPiece::WhiteBishop;

    /// The bishop of Black.
    pub const BLACK_BISHOP: OxideSidedPiece = OxideSidedPiece::BlackBishop;

    /// The rook of White.
    pub const WHITE_ROOK: OxideSidedPiece = OxideSidedPiece::WhiteRook;

    /// The rook of Black.
    pub const BLACK_ROOK: OxideSidedPiece = OxideSidedPiece::BlackRook;

    /// The queen of White.
    pub const WHITE_QUEEN: OxideSidedPiece = OxideSidedPiece::WhiteQueen;

    /// The queen of Black.
    pub const BLACK_QUEEN: OxideSidedPiece = OxideSidedPiece::BlackQueen;

    /// The king of White.
    pub const WHITE_KING: OxideSidedPiece = OxideSidedPiece::WhiteKing;

    /// The king of Black.
    pub const BLACK_KING: OxideSidedPiece = OxideSidedPiece::BlackKing;

    /// No piece.
    pub const EMPTY: OxideSidedPiece = OxideSidedPiece::Empty;

    /// The kind of the piece.
    pub open spec fn kind(self) -> OxidePiece {
        match self {
            OxideSidedPiece::WhitePawn | OxideSidedPiece::BlackPawn => OxidePiece::Pawn,
            OxideSidedPiece::WhiteKnight | OxideSidedPiece::BlackKnight => OxidePiece::Knight,
            OxideSidedPiece::WhiteBishop | OxideSidedPiece::BlackBishop => OxidePiece::Bishop,
            OxideSidedPiece::WhiteRook | OxideSidedPiece::BlackRook => OxidePiece::Rook,
            OxideSidedPiece::WhiteQueen | OxideSidedPiece::BlackQueen => OxidePiece::Queen,
            OxideSidedPiece::WhiteKing | OxideSidedPiece::BlackKing => OxidePiece::King,
            OxideSidedPiece::Empty => OxidePiece::Empty,
        }
    }

    /// The side that owns the piece. `Empty` has no owner; for it the value
    /// is White and means nothing.
    pub open spec fn owner(self) -> OxideSide {
        match self {
            OxideSidedPiece::BlackPawn
            | OxideSidedPiece::BlackKnight
            | OxideSidedPiece::BlackBishop
            | OxideSidedPiece::BlackRook
            | OxideSidedPiece::BlackQueen
            | OxideSidedPiece::BlackKing => OxideSide::Black,
            _ => OxideSide::White,
        }
    }

    /// The place of the piece in the order of `PIECES`, 12 for `Empty`.
    pub open spec fn ordinal(self) -> int {
        self as int
    }

    /// The side that owns the piece, which must not be `Empty`.
    pub fn side(&self) -> (r: OxideSide)
        requires
            *self != OxideSidedPiece::Empty,
        ensures
            r == self.owner(),
    {
        match self {
            OxideSidedPiece::BlackPawn
            | OxideSidedPiece::BlackKnight
            | OxideSidedPiece::BlackBishop
            | OxideSidedPiece::BlackRook
            | OxideSidedPiece::BlackQueen
            | OxideSidedPiece::BlackKing => OxideSide::Black,
            _ => OxideSide::White,
        }
    }

    /// The kind of the piece.
    pub fn unsided_piece(&self) -> (r: OxidePiece)
        ensures
            r == self.kind(),
    {
        match self {
            OxideSidedPiece::WhitePawn | OxideSidedPiece::BlackPawn => OxidePiece::Pawn,
            OxideSidedPiece::WhiteKnight | OxideSidedPiece::BlackKnight => OxidePiece::Knight,
            OxideSidedPiece::WhiteBishop | OxideSidedPiece::BlackBishop => OxidePiece::Bishop,
            OxideSidedPiece::WhiteRook | OxideSidedPiece::BlackRook => OxidePiece::Rook,
            OxideSidedPiece::WhiteQueen | OxideSidedPiece::BlackQueen => OxidePiece::Queen,
            OxideSidedPiece::WhiteKing | OxideSidedPiece::BlackKing => OxidePiece::King,
            OxideSidedPiece::Empty => OxidePiece::Empty,
        }
    }

    /// The letter that names the piece in a position record: a capital for
    /// White, a small letter for Black, a blank for `Empty`.
    pub open spec fn letter(self) -> char {
        match self {
            OxideSidedPiece::WhitePawn => 'P',
            OxideSidedPiece::BlackPawn => 'p',
            OxideSidedPiece::WhiteKnight => 'N',
            OxideSidedPiece::BlackKnight => 'n',
            OxideSidedPiece::WhiteBishop => 'B',
            OxideSidedPiece::BlackBishop => 'b',
            OxideSidedPiece::WhiteRook => 'R',
            OxideSidedPiece::BlackRook => 'r',
            OxideSidedPiece::WhiteQueen => 'Q',
            OxideSidedPiece::BlackQueen => 'q',
            OxideSidedPiece::WhiteKing => 'K',
            OxideSidedPiece::BlackKing => 'k',
            OxideSidedPiece::Empty => ' ',
        }
    }

    /// The piece that a letter names; `Empty` for any other character.
    pub open spec fn of_letter(letter: char) -> OxideSidedPiece {
        if letter == 'P' {
            OxideSidedPiece::WhitePawn
        } else if letter == 'p' {
            OxideSidedPiece::BlackPawn
        } else if letter == 'R' {
            OxideSidedPiece::WhiteRook
        } else if letter == 'r' {
            OxideSidedPiece::BlackRook
        } else if letter == 'Q' {
            OxideSidedPiece::WhiteQueen
        } else if letter == 'q' {
            OxideSidedPiece::BlackQueen
        } else if letter == 'K' {
            OxideSidedPiece::WhiteKing
        } else if letter == 'k' {
            OxideSidedPiece::BlackKing
        } else if letter == 'N' {
            OxideSidedPiece::WhiteKnight
        } else if letter == 'n' {
            OxideSidedPiece::BlackKnight
        } else if letter == 'B' {
            OxideSidedPiece::WhiteBishop
        } else if letter == 'b' {
            OxideSidedPiece::BlackBishop
        } else {
            OxideSidedPiece::Empty
        }
    }

    /// The piece that a letter names; `Empty` for any other character.
    pub fn from_char(letter: char) -> (r: OxideSidedPiece)
        ensures
            r == Self::of_letter(letter),
            r != OxideSidedPiece::Empty ==> r.letter() == letter,
    {
        if letter == 'P' {
            OxideSidedPiece::WhitePawn
        } else if letter == 'p' {
            OxideSidedPiece::BlackPawn
        } else if letter == 'R' {
            OxideSidedPiece::WhiteRook
        } else if letter == 'r' {
            OxideSidedPiece::BlackRook
        } else if letter == 'Q' {
            OxideSidedPiece::WhiteQueen
        } else if letter == 'q' {
            OxideSidedPiece::BlackQueen
        } else if letter == 'K' {
            OxideSidedPiece::WhiteKing
        } else if letter == 'k' {
            OxideSidedPiece::BlackKing
        } else if letter == 'N' {
            OxideSidedPiece::WhiteKnight
        } else if letter == 'n' {
            OxideSidedPiece::BlackKnight
        } else if letter == 'B' {
            OxideSidedPiece::WhiteBishop
        } else if letter == 'b' {
            OxideSidedPiece::BlackBishop
        } else {
            OxideSidedPiece::Empty
        }
    }

    /// The letter that names the piece.
    pub fn to_char(self) -> (r: char)
        ensures
            r == self.letter(),
    {
        match self {
            OxideSidedPiece::WhitePawn => 'P',
            OxideSidedPiece::BlackPawn => 'p',
            OxideSidedPiece::WhiteKnight => 'N',
            OxideSidedPiece::BlackKnight => 'n',
            OxideSidedPiece::WhiteBishop => 'B',
            OxideSidedPiece::BlackBishop => 'b',
            OxideSidedPiece::WhiteRook => 'R',
            OxideSidedPiece::BlackRook => 'r',
            OxideSidedPiece::WhiteQueen => 'Q',
            OxideSidedPiece::BlackQueen => 'q',
            OxideSidedPiece::WhiteKing => 'K',
            OxideSidedPiece::BlackKing => 'k',
            OxideSidedPiece::Empty => ' ',
        }
    }

    /// The letter of the piece as text.
    pub fn to_string(&self) -> (r: String)
        ensures
            r@ == seq![self.letter()],
    {
        let mut text = String::new();
        push_char(&mut text, self.to_char());
        assert(text@ =~= seq![self.letter()]);
        text
    }
}

/// A piece with its side taken off and put on again is the same piece.
pub proof fn lemma_with_side_round_trip(piece: OxideSidedPiece)
    ensures
        piece.kind().with_side(piece.owner()) == piece,
{
}

impl From<char> for OxidePiece {
    /// The kind that a letter names, in either case.
    fn from(letter: char) -> (r: OxidePiece) {
        OxidePiece::from_char(letter)
    }
}

impl vstd::std_specs::convert::FromSpecImpl<char> for OxidePiece {
    open spec fn obeys_from_spec() -> bool {
        true
    }

    open spec fn from_spec(letter: char) -> OxidePiece {
        OxidePiece::of_letter(letter)
    }
}

impl From<char> for OxideSidedPiece {
    /// The piece that a letter names.
    fn from(letter: char) -> (r: OxideSidedPiece) {
        OxideSidedPiece::from_char(letter)
    }
}

impl vstd::std_specs::convert::FromSpecImpl<char> for OxideSidedPiece {
    open spec fn obeys_from_spec() -> bool {
        true
    }

    open spec fn from_spec(letter: char) -> OxideSidedPiece {
        OxideSidedPiece::of_letter(letter)
    }
}

impl From<OxideSidedPiece> for char {
    /// The letter that names the piece.
    fn from(piece: OxideSidedPiece) -> (r: char) {
        piece.to_char()
    }
}

impl vstd::std_specs::convert::FromSpecImpl<OxideSidedPiece> for char {
    open spec fn obeys_from_spec() -> bool {
        true
    }

    open spec fn from_spec(piece: OxideSidedPiece) -> char {
        piece.letter()
    }
}

} // verus!
