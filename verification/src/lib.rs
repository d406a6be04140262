//! Rules core of a chess engine: bitboards, attack generation, positions with
//! an incremental identity hash, boards that make and take back moves, and
//! the enumeration of legal moves.
//!
//! The modules, from the leaves to the root:
//!
//! * `bits` and `rays` read 64-bit words as sets of squares and define steps
//!   and slides on the board;
//! * `bitboard`, `square`, `side`, `piece`, `castle` and `chess_move` hold
//!   the small value types of the game;
//! * `attacks`, `line` and `lookup` compute what pieces attack;
//! * `zobrist`, `arrangement`, `position` and `fen` hold positions, their
//!   hash and their text, `diagram` draws them, and `fen_laws` proves that a
//!   position that is written is read again as it was;
//! * `rules` states what moves do and `board` computes it;
//! * `movelist` holds lists of moves; `gather`, `movegen` and `generated`
//!   list the moves that the pieces can make, `legal` keeps the legal ones,
//!   and `checked` makes and takes back moves that come from outside;
//! * `paths`, `pins` and `evasions` prove what the rules of the game imply
//!   for pinned pieces and for the moves that meet a check.
pub mod bits;
pub mod rays;
pub mod bitboard;
pub mod square;
mod text;
pub mod side;
pub mod piece;
pub mod fen;
pub mod fen_laws;
pub mod diagram;
pub mod castle;
pub mod chess_move;
pub mod attacks;
pub mod zobrist;
pub mod arrangement;
pub mod position;
pub mod rules;
pub mod board;
pub mod movelist;
pub mod line;
pub mod gather;
pub mod movegen;
pub mod generated;
pub mod legal;
pub mod paths;
pub mod pins;
pub mod evasions;
pub mod checked;
pub mod lookup;

pub use crate::arrangement::OxidePieceArrangement;
pub use crate::bitboard::OxideBitboard;
pub use crate::board::{OxideBoard, OxideBoardState};
pub use crate::castle::OxideCastleRights;
pub use crate::chess_move::{OxideIllegalMoveError, OxideMove, OxideMoveType, OxideSimpleMove};
pub use crate::fen::OxideFenParseError;
pub use crate::movelist::MoveList;
pub use crate::piece::{OxidePiece, OxideSidedPiece};
pub use crate::position::OxidePosition;
pub use crate::side::OxideSide;
pub use crate::square::OxideSquare;
pub use crate::zobrist::OxideZobristHasher;
