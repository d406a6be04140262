//! Moves: a start square, a target square and the kind of the move.
use vstd::prelude::*;
use crate::bits::{file_of, rank_of};
use crate::piece::OxidePiece;
use crate::square::{OxideSquare, file_letter, rank_digit};
use crate::text::push_char;

verus! {

/// The kind of a move: what it does besides taking a piece from one square
/// to another.
#[derive(Clone, Copy, Debug, PartialEq, Eq, Structural, Hash)]
pub enum OxideMoveType {
    Quiet,
    DoublePawnPush,
    KingSideCastle,
    QueenSideCastle,
    Capture,
    EnPassantCapture,
    KnightPromotion,
    BishopPromotion,
    RookPromotion,
    QueenPromotion,
    KnightPromotingCapture,
    BishopPromotingCapture,
    RookPromotingCapture,
    QueenPromotingCapture,
}

/// Why a move was refused.
#[derive(Clone, Copy, Debug, PartialEq, Eq, Structural)]
pub enum OxideIllegalMoveError {
    /// The piece on the start square belongs to the side that is not to move.
    MovingPieceForWrongSide,
    /// The target square holds a piece of the moving side.
    CapturingOwnPiece,
    /// The move is a capture and there is nothing to capture.
    NonCapturingCapture,
    /// The start square is empty.
    MovingFromEmptySquare,
    /// The castle right is missing, or the way is not free.
    CastlingWithoutPermission,
    /// The king would start on, pass over or end on an attacked square.
    CastlingThroughAttack,
    /// A pawn push leaves its file.
    HorizontalPawnPush,
    /// A pawn capture stays on its file.
    VerticalPawnCapture,
    /// A pawn push goes the wrong distance, or onto or over a piece.
    InvalidPawnPush,
    /// An en-passant capture does not go to the en-passant square.
    NonExistentEnPassantCapture,
    /// A bishop or queen does not keep to a free diagonal.
    InvalidDiagonalMovement,
    /// A rook or queen does not keep to a free file or rank.
    InvalidCardinalMovement,
    /// A knight, or a king, goes to a square that it cannot reach.
    InvalidKnightJump,
    /// The move leaves the mover's own king attacked.
    SelfCheck,
    /// The move repeats a position for the third time.
    ThreeFoldRepetition,
}

/// A move stripped to its two squares.
#[derive(Clone, Copy, Debug, PartialEq, Eq, Structural, Hash)]
pub struct OxideSimpleMove {
    pub from: OxideSquare,
    pub to: OxideSquare,
}

/// A move that can be made on a board.
#[derive(Clone, Copy, Debug, PartialEq, Eq, Structural, Hash)]
pub struct OxideMove {
    pub simple_move: OxideSimpleMove,
    pub move_type: OxideMoveType,
}

impl OxideMoveType {
    /// Whether a move of this kind takes a piece off the board.
    pub open spec fn captures(self) -> bool {
        match self {
            OxideMoveType::Capture
            | OxideMoveType::EnPassantCapture
            | OxideMoveType::KnightPromotingCapture
            | OxideMoveType::BishopPromotingCapture
            | OxideMoveType::RookPromotingCapture
            | OxideMoveType::QueenPromotingCapture => true,
            _ => false,
        }
    }

    /// The piece that a pawn becomes by a move of this kind, `Empty` where
    /// the kind is no promotion.
    pub open spec fn promoted(self) -> OxidePiece {
        match self {
            OxideMoveType::KnightPromotion | OxideMoveType::KnightPromotingCapture => OxidePiece::Knight,
            OxideMoveType::BishopPromotion | OxideMoveType::BishopPromotingCapture => OxidePiece::Bishop,
            OxideMoveType::RookPromotion | OxideMoveType::RookPromotingCapture => OxidePiece::Rook,
            OxideMoveType::QueenPromotion | OxideMoveType::QueenPromotingCapture => OxidePiece::Queen,
            _ => OxidePiece::Empty,
        }
    }

    /// Whether a move of this kind turns a pawn into another piece.
    pub open spec fn promotes(self) -> bool {
        self.promoted() != OxidePiece::Empty
    }

    /// The kind of the promotion to `promotion`, capturing or not.
    pub open spec fn of_promotion(promotion: OxidePiece, capture: bool) -> OxideMoveType {
        match promotion {
            OxidePiece::Knight => if capture {
                OxideMoveType::KnightPromotingCapture
            } else {
                OxideMoveType::KnightPromotion
            },
            OxidePiece::Bishop => if capture {
                OxideMoveType::BishopPromotingCapture
            } else {
                OxideMoveType::BishopPromotion
            },
            OxidePiece::Rook => if capture {
                OxideMoveType::RookPromotingCapture
            } else {
                OxideMoveType::RookPromotion
            },
            _ => if capture {
                OxideMoveType::QueenPromotingCapture
            } else {
                OxideMoveType::QueenPromotion
            },
        }
    }
}

/// Whether a pawn may be promoted to `piece`: to a knight, a bishop, a rook
/// or a queen.
pub open spec fn is_promotion_piece(piece: OxidePiece) -> bool {
    piece == OxidePiece::Knight || piece == OxidePiece::Bishop || piece == OxidePiece::Rook || piece
        == OxidePiece::Queen
}

/// How far apart two numbers are.
pub open spec fn distance(a: int, b: int) -> int {
    if a < b {
        b - a
    } else {
        a - b
    }
}

/// The kind of the promotion to `promotion`, capturing or not.
pub fn promotion_piece_to_move_type(promotion: OxidePiece, capture: bool) -> (r: OxideMoveType)
    requires
        is_promotion_piece(promotion),
    ensures
        r == OxideMoveType::of_promotion(promotion, capture),
        r.promoted() == promotion,
        r.captures() == capture,
{
    match promotion {
        OxidePiece::Knight => if capture {
            OxideMoveType::KnightPromotingCapture
        } else {
            OxideMoveType::KnightPromotion
        },
        OxidePiece::Bishop => if capture {
            OxideMoveType::BishopPromotingCapture
        } else {
            OxideMoveType::BishopPromotion
        },
        OxidePiece::Rook => if capture {
            OxideMoveType::RookPromotingCapture
        } else {
            OxideMoveType::RookPromotion
        },
        _ => if capture {
            OxideMoveType::QueenPromotingCapture
        } else {
            OxideMoveType::QueenPromotion
        },
    }
}

impl OxideSimpleMove {
    /// The move from `from` to `to`.
    pub fn new(from: OxideSquare, to: OxideSquare) -> (r: OxideSimpleMove)
        ensures
            r.from == from,
            r.to == to,
    {
        OxideSimpleMove { from, to }
    }

    /// The start square.
    pub fn from(&self) -> (r: OxideSquare)
        ensures
            r == self.from,
    {
        self.from
    }

    /// The target square.
    pub fn to(&self) -> (r: OxideSquare)
        ensures
            r == self.to,
    {
        self.to
    }

    /// The move as text: the names of its two squares.
    pub fn to_string(&self) -> (r: String)
        ensures
            r@ == seq![
                file_letter(file_of(self.from.index())),
                rank_digit(rank_of(self.from.index())),
                file_letter(file_of(self.to.index())),
                rank_digit(rank_of(self.to.index())),
            ],
    {
        let mut text = String::new();
        push_char(&mut text, self.from.file_char());
        push_char(&mut text, self.from.rank_char());
        push_char(&mut text, self.to.file_char());
        push_char(&mut text, self.to.rank_char());
        assert(text@ =~= seq![
            file_letter(file_of(self.from.index())),
            rank_digit(rank_of(self.from.index())),
            file_letter(file_of(self.to.index())),
            rank_digit(rank_of(self.to.index())),
        ]);
        text
    }
}

impl OxideMove {
    /// The move of kind `kind` from `from` to `to`.
    pub open spec fn of(from: OxideSquare, to: OxideSquare, kind: OxideMoveType) -> OxideMove {
        OxideMove { simple_move: OxideSimpleMove { from, to }, move_type: kind }
    }

    /// The number of the start square.
    pub open spec fn source(self) -> int {
        self.simple_move.from.index()
    }

    /// The number of the target square.
    pub open spec fn target(self) -> int {
        self.simple_move.to.index()
    }

    /// The move as text: the start square, an `x` if the move captures, the
    /// target square, and the small letter of the new piece if the move
    /// promotes.
    pub open spec fn text(self) -> Seq<char> {
        seq![file_letter(file_of(self.source())), rank_digit(rank_of(self.source()))] + (
        if self.move_type.captures() {
            seq!['x']
        } else {
            Seq::<char>::empty()
        }) + seq![file_letter(file_of(self.target())), rank_digit(rank_of(self.target()))] + (
        match self.move_type.promoted() {
            OxidePiece::Knight => seq!['n'],
            OxidePiece::Bishop => seq!['b'],
            OxidePiece::Rook => seq!['r'],
            OxidePiece::Queen => seq!['q'],
            _ => Seq::<char>::empty(),
        })
    }

    /// White's king-side castle: the king goes from E1 to G1.
    pub fn white_king_castle() -> (r: OxideMove)
        ensures
            r == Self::of(OxideSquare::E1, OxideSquare::G1, OxideMoveType::KingSideCastle),
    {
        OxideMove {
            simple_move: OxideSimpleMove { from: OxideSquare::E1, to: OxideSquare::G1 },
            move_type: OxideMoveType::KingSideCastle,
        }
    }

    /// White's queen-side castle: the king goes from E1 to C1.
    pub fn white_queen_castle() -> (r: OxideMove)
        ensures
            r == Self::of(OxideSquare::E1, OxideSquare::C1, OxideMoveType::QueenSideCastle),
    {
        OxideMove {
            simple_move: OxideSimpleMove { from: OxideSquare::E1, to: OxideSquare::C1 },
            move_type: OxideMoveType::QueenSideCastle,
        }
    }

    /// Black's king-side castle: the king goes from E8 to G8.
    pub fn black_king_castle() -> (r: OxideMove)
        ensures
            r == Self::of(OxideSquare::E8, OxideSquare::G8, OxideMoveType::KingSideCastle),
    {
        OxideMove {
            simple_move: OxideSimpleMove { from: OxideSquare::E8, to: OxideSquare::G8 },
            move_type: OxideMoveType::KingSideCastle,
        }
    }

    /// Black's queen-side castle: the king goes from E8 to C8.
    pub fn black_queen_castle() -> (r: OxideMove)
        ensures
            r == Self::of(OxideSquare::E8, OxideSquare::C8, OxideMoveType::QueenSideCastle),
    {
        OxideMove {
            simple_move: OxideSimpleMove { from: OxideSquare::E8, to: OxideSquare::C8 },
            move_type: OxideMoveType::QueenSideCastle,
        }
    }

    /// The quiet move from `from` to `to`.
    pub fn new(from: OxideSquare, to: OxideSquare) -> (r: OxideMove)
        requires
            from != to,
        ensures
            r == Self::of(from, to, OxideMoveType::Quiet),
    {
        OxideMove { simple_move: OxideSimpleMove { from, to }, move_type: OxideMoveType::Quiet }
    }

    /// The push of a pawn over two ranks of one file.
    pub fn new_double_pawn_push(from: OxideSquare, to: OxideSquare) -> (r: OxideMove)
        requires
            file_of(from.index()) == file_of(to.index()),
            distance(rank_of(from.index()), rank_of(to.index())) == 2,
        ensures
            r == Self::of(from, to, OxideMoveType::DoublePawnPush),
    {
        OxideMove {
            simple_move: OxideSimpleMove { from, to },
            move_type: OxideMoveType::DoublePawnPush,
        }
    }

    /// The capture of a pawn in passing: one rank and one file away.
    pub fn new_en_passant_capture(from: OxideSquare, to: OxideSquare) -> (r: OxideMove)
        requires
            distance(file_of(from.index()), file_of(to.index())) == 1,
            distance(rank_of(from.index()), rank_of(to.index())) == 1,
        ensures
            r == Self::of(from, to, OxideMoveType::EnPassantCapture),
    {
        OxideMove {
            simple_move: OxideSimpleMove { from, to },
            move_type: OxideMoveType::EnPassantCapture,
        }
    }

    /// The capture of the piece on `to` by the piece on `from`.
    pub fn new_capture(from: OxideSquare, to: OxideSquare) -> (r: OxideMove)
        requires
            from != to,
        ensures
            r == Self::of(from, to, OxideMoveType::Capture),
    {
        OxideMove { simple_move: OxideSimpleMove { from, to }, move_type: OxideMoveType::Capture }
    }

    /// The push of a pawn onto a last rank, where it becomes `promotion`.
    pub fn new_promotion(from: OxideSquare, to: OxideSquare, promotion: OxidePiece) -> (r: OxideMove)
        requires
            from != to,
            rank_of(to.index()) == 7 || rank_of(to.index()) == 0,
            file_of(from.index()) == file_of(to.index()),
            is_promotion_piece(promotion),
        ensures
            r == Self::of(from, to, OxideMoveType::of_promotion(promotion, false)),
            r.move_type.promoted() == promotion,
            !r.move_type.captures(),
    {
        OxideMove {
            simple_move: OxideSimpleMove { from, to },
            move_type: promotion_piece_to_move_type(promotion, false),
        }
    }

    /// The capture by a pawn onto a last rank, where it becomes `promotion`.
    pub fn new_promoting_capture(from: OxideSquare, to: OxideSquare, promotion: OxidePiece) -> (r:
        OxideMove)
        requires
            rank_of(to.index()) == 7 || rank_of(to.index()) == 0,
            distance(file_of(from.index()), file_of(to.index())) == 1,
            is_promotion_piece(promotion),
        ensures
            r == Self::of(from, to, OxideMoveType::of_promotion(promotion, true)),
            r.move_type.promoted() == promotion,
            r.move_type.captures(),
    {
        OxideMove {
            simple_move: OxideSimpleMove { from, to },
            move_type: promotion_piece_to_move_type(promotion, true),
        }
    }

    /// The quiet move between the squares of `simple_move`.
    pub fn from_simple_move(simple_move: OxideSimpleMove) -> (r: OxideMove)
        requires
            simple_move.from != simple_move.to,
        ensures
            r == Self::of(simple_move.from, simple_move.to, OxideMoveType::Quiet),
    {
        OxideMove { simple_move, move_type: OxideMoveType::Quiet }
    }

    /// The move turned into a capture: a quiet move becomes a capture, a
    /// promotion a promoting capture, and a capture stays what it is. A
    /// double push and a castle cannot capture.
    pub fn set_capture(self) -> (r: OxideMove)
        requires
            self.move_type != OxideMoveType::DoublePawnPush,
            self.move_type != OxideMoveType::KingSideCastle,
            self.move_type != OxideMoveType::QueenSideCastle,
        ensures
            r.simple_move == self.simple_move,
            r.move_type.captures(),
            r.move_type.promoted() == self.move_type.promoted(),
            self.move_type.captures() ==> r == self,
            self.move_type == OxideMoveType::Quiet ==> r.move_type == OxideMoveType::Capture,
    {
        let kind = match self.move_type {
            OxideMoveType::Quiet => OxideMoveType::Capture,
            OxideMoveType::KnightPromotion => OxideMoveType::KnightPromotingCapture,
            OxideMoveType::BishopPromotion => OxideMoveType::BishopPromotingCapture,
            OxideMoveType::RookPromotion => OxideMoveType::RookPromotingCapture,
            OxideMoveType::QueenPromotion => OxideMoveType::QueenPromotingCapture,
            kind => kind,
        };
        OxideMove { simple_move: self.simple_move, move_type: kind }
    }

    /// The move turned into a promotion to `promotion`: a quiet move, a
    /// capture or a promotion becomes the promotion to that piece, capturing
    /// as before.
    pub fn set_promotion(self, promotion: OxidePiece) -> (r: OxideMove)
        requires
            is_promotion_piece(promotion),
            self.move_type == OxideMoveType::Quiet || self.move_type == OxideMoveType::Capture
                || self.move_type.promotes(),
        ensures
            r == Self::of(
                self.simple_move.from,
                self.simple_move.to,
                OxideMoveType::of_promotion(promotion, self.move_type.captures()),
            ),
    {
        let capture = self.is_capture();
        OxideMove {
            simple_move: self.simple_move,
            move_type: promotion_piece_to_move_type(promotion, capture),
        }
    }

    /// The two squares of the move.
    pub fn simple_move(&self) -> (r: OxideSimpleMove)
        ensures
            r == self.simple_move,
    {
        self.simple_move
    }

    /// The start square.
    pub fn from(&self) -> (r: OxideSquare)
        ensures
            r == self.simple_move.from,
    {
        self.simple_move.from
    }

    /// The target square.
    pub fn to(&self) -> (r: OxideSquare)
        ensures
            r == self.simple_move.to,
    {
        self.simple_move.to
    }

    /// The kind of the move.
    pub fn move_type(&self) -> (r: OxideMoveType)
        ensures
            r == self.move_type,
    {
        self.move_type
    }

    /// The piece that the pawn becomes, `Empty` where the move is no
    /// promotion.
    pub fn promotion(&self) -> (r: OxidePiece)
        ensures
            r == self.move_type.promoted(),
    {
        match self.move_type {
            OxideMoveType::KnightPromotion | OxideMoveType::KnightPromotingCapture => OxidePiece::Knight,
            OxideMoveType::BishopPromotion | OxideMoveType::BishopPromotingCapture => OxidePiece::Bishop,
            OxideMoveType::RookPromotion | OxideMoveType::RookPromotingCapture => OxidePiece::Rook,
            OxideMoveType::QueenPromotion | OxideMoveType::QueenPromotingCapture => OxidePiece::Queen,
            _ => OxidePiece::Empty,
        }
    }

    /// Whether the move does nothing but take a piece to an empty square.
    pub fn is_quiet(&self) -> (r: bool)
        ensures
            r == (self.move_type == OxideMoveType::Quiet),
    {
        self.move_type == OxideMoveType::Quiet
    }

    /// Whether the move is the push of a pawn over two ranks.
    pub fn is_double_pawn_push(&self) -> (r: bool)
        ensures
            r == (self.move_type == OxideMoveType::DoublePawnPush),
    {
        self.move_type == OxideMoveType::DoublePawnPush
    }

    /// Whether the move turns a pawn into another piece.
    pub fn is_promotion(&self) -> (r: bool)
        ensures
            r == self.move_type.promotes(),
    {
        match self.move_type {
            OxideMoveType::KnightPromotion
            | OxideMoveType::BishopPromotion
            | OxideMoveType::RookPromotion
            | OxideMoveType::QueenPromotion
            | OxideMoveType::KnightPromotingCapture
            | OxideMoveType::BishopPromotingCapture
            | OxideMoveType::RookPromotingCapture
            | OxideMoveType::QueenPromotingCapture => true,
            _ => false,
        }
    }

    /// Whether the move takes a piece off the board.
    pub fn is_capture(&self) -> (r: bool)
        ensures
            r == self.move_type.captures(),
    {
        match self.move_type {
            OxideMoveType::Capture
            | OxideMoveType::EnPassantCapture
            | OxideMoveType::KnightPromotingCapture
            | OxideMoveType::BishopPromotingCapture
            | OxideMoveType::RookPromotingCapture
            | OxideMoveType::QueenPromotingCapture => true,
            _ => false,
        }
    }

    /// Whether the move is a king-side castle.
    pub fn is_king_castle(&self) -> (r: bool)
        ensures
            r == (self.move_type == OxideMoveType::KingSideCastle),
    {
        self.move_type == OxideMoveType::KingSideCastle
    }

    /// Whether the move is a queen-side castle.
    pub fn is_queen_castle(&self) -> (r: bool)
        ensures
            r == (self.move_type == OxideMoveType::QueenSideCastle),
    {
        self.move_type == OxideMoveType::QueenSideCastle
    }

    /// Whether the move captures a pawn in passing.
    pub fn is_en_passant_capture(&self) -> (r: bool)
        ensures
            r == (self.move_type == OxideMoveType::EnPassantCapture),
    {
        self.move_type == OxideMoveType::EnPassantCapture
    }

    /// The move as text.
    pub fn to_string(&self) -> (r: String)
        ensures
            r@ == self.text(),
    {
        let mut out = String::new();
        let from = self.simple_move.from;
        let to = self.simple_move.to;
        push_char(&mut out, from.file_char());
        push_char(&mut out, from.rank_char());
        if self.is_capture() {
            push_char(&mut out, 'x');
        }
        push_char(&mut out, to.file_char());
        push_char(&mut out, to.rank_char());
        match self.promotion() {
            OxidePiece::Knight => {
                push_char(&mut out, 'n');
            },
            OxidePiece::Bishop => {
                push_char(&mut out, 'b');
            },
            OxidePiece::Rook => {
                push_char(&mut out, 'r');
            },
            OxidePiece::Queen => {
                push_char(&mut out, 'q');
            },
            _ => {},
        }
        assert(out@ =~= self.text());
        out
    }
}

} // verus!
