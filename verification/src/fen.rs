//! Position records in Forsyth-Edwards notation.
//!
//! A record has up to six fields, parted by white space: the placement of
//! the pieces, the side to move, the castle rights, the en-passant square,
//! the half-move clock and the number of the move.
use vstd::prelude::*;
use vstd::string::StringSliceAdditionalSpecFns;
use crate::bits::{file_of, rank_of};
use crate::castle::OxideCastleRights;
use crate::piece::OxideSidedPiece;
use crate::position::OxidePosition;
use crate::side::OxideSide;
use crate::square::OxideSquare;
use crate::text::push_char;
use crate::zobrist::is_en_passant_square;

verus! {

/// Why a position record was refused.
#[derive(Clone, Copy, Debug, PartialEq, Eq, Structural)]
pub enum OxideFenParseError {
    /// The file letter of the en-passant square is none of `a` to `h`.
    InvalidFileChar,
    /// The rank digit of the en-passant square is none of `1` to `8`.
    InvalidRankChar,
    /// The half-move clock is no number that fits.
    HalfMovesParseError,
    /// The full-move counter is no number that fits, or more text follows
    /// it.
    FullMovesParseError,
    /// A character of the placement names no piece.
    InvalidPieceChar,
    /// A rank of the placement does not spell eight squares, or the
    /// placement has not eight ranks.
    InvalidBoardOffset,
    /// The en-passant field is missing or is no square of the third or the
    /// sixth rank.
    InvalidEnPassantSquare,
    /// The castle field is missing, or is neither `-` nor made of the
    /// letters of rights alone.
    CastleParseError,
    /// The side field is missing or is not the one letter of a side.
    InvalidSideChar,
    /// The record holds no field at all.
    EmptyFen,
}

/// Whether the byte is white space of the ASCII set: a blank, a tab, a line
/// feed, a form feed or a carriage return.
pub open spec fn is_space(b: u8) -> bool {
    b == 0x20 || b == 0x09 || b == 0x0a || b == 0x0c || b == 0x0d
}

/// Whether the byte is white space of the ASCII set.
pub fn is_space_byte(b: u8) -> (r: bool)
    ensures
        r == is_space(b),
{
    b == 0x20 || b == 0x09 || b == 0x0a || b == 0x0c || b == 0x0d
}

/// The place where the field begins that starts at or after `start`: the
/// first place from `start` on that holds no white space, or the end of the
/// text.
pub open spec fn field_begin(text: Seq<u8>, start: int) -> int
    decreases text.len() - start,
{
    if start < 0 || start >= text.len() {
        text.len() as int
    } else if is_space(text[start]) {
        field_begin(text, start + 1)
    } else {
        start
    }
}

/// The place where the field ends that begins at `begin`: the first place
/// from `begin` on that holds white space, or the end of the text.
pub open spec fn field_end(text: Seq<u8>, begin: int) -> int
    decreases text.len() - begin,
{
    if begin < 0 || begin >= text.len() {
        text.len() as int
    } else if is_space(text[begin]) {
        begin
    } else {
        field_end(text, begin + 1)
    }
}

/// The bounds of the field that starts at or after `start`. Where no field
/// is left, both bounds are the length of the text.
pub fn next_field(text: &[u8], start: usize) -> (r: (usize, usize))
    requires
        start <= text@.len(),
    ensures
        r.0 == field_begin(text@, start as int),
        r.1 == field_end(text@, r.0 as int),
        start <= r.0 <= r.1 <= text@.len(),
{
    let n = text.len();
    let mut begin = start;
    while begin < n && is_space_byte(text[begin])
        invariant
            start <= begin <= n,
            n == text@.len(),
            field_begin(text@, start as int) == field_begin(text@, begin as int),
        decreases n - begin,
    {
        begin = begin + 1;
    }
    let mut end = begin;
    while end < n && !is_space_byte(text[end])
        invariant
            begin <= end <= n,
            n == text@.len(),
            field_end(text@, begin as int) == field_end(text@, end as int),
        decreases n - end,
    {
        end = end + 1;
    }
    (begin, end)
}

/// The number that the digits of `text` between `begin` and `end` spell,
/// read from the left; `so_far` is the number of the digits already read.
/// Nothing where a byte is no digit or the number passes `max`.
pub open spec fn digits_value(text: Seq<u8>, begin: int, end: int, so_far: int, max: int) -> Option<int>
    decreases end - begin,
{
    if begin >= end {
        Some(so_far)
    } else if begin < 0 || begin >= text.len() || text[begin] < 0x30 || text[begin] > 0x39 {
        None
    } else if so_far * 10 + (text[begin] - 0x30) > max {
        None
    } else {
        digits_value(text, begin + 1, end, so_far * 10 + (text[begin] - 0x30), max)
    }
}

/// The number that the field between `begin` and `end` spells: one or more
/// digits, after a plus sign or not, that make a number up to `max`.
pub open spec fn number_value(text: Seq<u8>, begin: int, end: int, max: int) -> Option<int> {
    if 0 <= begin < end <= text.len() && text[begin] == 0x2b {
        if begin + 1 < end {
            digits_value(text, begin + 1, end, 0, max)
        } else {
            None
        }
    } else if begin < end {
        digits_value(text, begin, end, 0, max)
    } else {
        None
    }
}

/// Reads the number of the field between `begin` and `end`.
pub fn parse_number(text: &[u8], begin: usize, end: usize, max: u32) -> (r: Option<u32>)
    requires
        begin <= end <= text@.len(),
        max <= 0xffff,
    ensures
        r.is_some() == number_value(text@, begin as int, end as int, max as int).is_some(),
        r.is_some() ==> r.unwrap() == number_value(text@, begin as int, end as int, max as int).unwrap(),
        r.is_some() ==> r.unwrap() <= max,
{
    let mut i = begin;
    if begin < end && text[begin] == 0x2b {
        i = begin + 1;
    }
    if i >= end {
        return None;
    }
    let ghost first = i;
    let mut value: u32 = 0;
    while i < end
        invariant
            first <= i <= end <= text@.len(),
            value <= max,
            max <= 0xffff,
            number_value(text@, begin as int, end as int, max as int) == digits_value(
                text@,
                first as int,
                end as int,
                0,
                max as int,
            ),
            digits_value(text@, first as int, end as int, 0, max as int) == digits_value(
                text@,
                i as int,
                end as int,
                value as int,
                max as int,
            ),
        decreases end - i,
    {
        let b = text[i];
        if b < 0x30 || b > 0x39 {
            assert(digits_value(text@, i as int, end as int, value as int, max as int).is_none());
            return None;
        }
        let next = value * 10 + (b - 0x30) as u32;
        if next > max {
            assert(digits_value(text@, i as int, end as int, value as int, max as int).is_none());
            return None;
        }
        assert(digits_value(text@, i as int, end as int, value as int, max as int) == digits_value(
            text@,
            i + 1,
            end as int,
            next as int,
            max as int,
        ));
        value = next;
        i = i + 1;
    }
    assert(digits_value(text@, i as int, end as int, value as int, max as int) == Some(value as int));
    Some(value)
}

/// The square that the field between `begin` and `end` names: a file letter
/// from `a` to `h`, small or capital, and a rank digit from `1` to `8`.
pub open spec fn square_value(text: Seq<u8>, begin: int, end: int) -> Result<int, OxideFenParseError> {
    if !(0 <= begin && begin + 2 == end && end <= text.len()) {
        Err(OxideFenParseError::InvalidEnPassantSquare)
    } else {
        let letter = text[begin];
        let digit = text[begin + 1];
        let file = if 0x61 <= letter <= 0x68 {
            letter - 0x61
        } else {
            letter - 0x41
        };
        if !(0x61 <= letter <= 0x68 || 0x41 <= letter <= 0x48) {
            Err(OxideFenParseError::InvalidFileChar)
        } else if !(0x31 <= digit <= 0x38) {
            Err(OxideFenParseError::InvalidRankChar)
        } else {
            Ok((digit - 0x31) * 8 + file)
        }
    }
}

/// Reads the square that the field between `begin` and `end` names.
pub fn parse_square(text: &[u8], begin: usize, end: usize) -> (r: Result<OxideSquare, OxideFenParseError>)
    requires
        begin <= end <= text@.len(),
    ensures
        match r {
            Ok(square) => square_value(text@, begin as int, end as int) == Ok::<int, OxideFenParseError>(
                square.index(),
            ),
            Err(e) => square_value(text@, begin as int, end as int) == Err::<int, OxideFenParseError>(e),
        },
{
    if end - begin != 2 {
        return Err(OxideFenParseError::InvalidEnPassantSquare);
    }
    let letter = text[begin];
    let digit = text[begin + 1];
    let file = if 0x61 <= letter && letter <= 0x68 {
        letter - 0x61
    } else if 0x41 <= letter && letter <= 0x48 {
        letter - 0x41
    } else {
        return Err(OxideFenParseError::InvalidFileChar);
    };
    if digit < 0x31 || digit > 0x38 {
        return Err(OxideFenParseError::InvalidRankChar);
    }
    Ok(OxideSquare::at((digit - 0x31) * 8 + file))
}

/// The square behind the last square of the rank that is read after `rows`
/// ranks were read: the end of the eighth rank first, then of the seventh,
/// down to the end of the first.
pub open spec fn rank_end(rows: int) -> int {
    64 - 8 * rows
}

/// The placement that the bytes of `text` from `i` to `end` spell, where
/// `offset` is the square that comes next, `rows` the number of ranks read
/// so far and `board` the pieces put so far. The field is read rank by rank
/// from the eighth to the first, each rank from the A file: a letter puts a
/// piece and goes one square on, a digit from 1 to 8 goes that many squares
/// on, and `/` goes from the end of a rank to the start of the rank below.
/// Each of the eight ranks has to spell exactly eight squares; a rank that
/// is too short or too long, a rank too few or too many is refused as a
/// wrong place on the board, and a letter that names no piece as a wrong
/// piece.
pub open spec fn placement_from(
    text: Seq<u8>,
    i: int,
    end: int,
    offset: int,
    rows: int,
    board: Seq<OxideSidedPiece>,
) -> Result<Seq<OxideSidedPiece>, OxideFenParseError>
    decreases end - i,
{
    if i >= end || i < 0 || i >= text.len() {
        if rows == 7 && offset == rank_end(rows) {
            Ok(board)
        } else {
            Err(OxideFenParseError::InvalidBoardOffset)
        }
    } else if text[i] == 0x2f {
        if rows < 7 && offset == rank_end(rows) {
            placement_from(text, i + 1, end, offset - 16, rows + 1, board)
        } else {
            Err(OxideFenParseError::InvalidBoardOffset)
        }
    } else if 0x30 <= text[i] <= 0x39 {
        if text[i] != 0x30 && offset + (text[i] - 0x30) <= rank_end(rows) {
            placement_from(text, i + 1, end, offset + (text[i] - 0x30), rows, board)
        } else {
            Err(OxideFenParseError::InvalidBoardOffset)
        }
    } else if OxideSidedPiece::of_letter(text[i] as char) == OxideSidedPiece::Empty {
        Err(OxideFenParseError::InvalidPieceChar)
    } else if offset < 0 || offset >= rank_end(rows) || offset >= board.len() {
        Err(OxideFenParseError::InvalidBoardOffset)
    } else {
        placement_from(
            text,
            i + 1,
            end,
            offset + 1,
            rows,
            board.update(offset, OxideSidedPiece::of_letter(text[i] as char)),
        )
    }
}

/// The board without pieces.
pub open spec fn empty_board() -> Seq<OxideSidedPiece> {
    Seq::new(64, |i: int| OxideSidedPiece::Empty)
}

/// What a record says of a position.
pub struct FenRecord {
    /// The piece on each of the sixty-four squares.
    pub board: Seq<OxideSidedPiece>,
    /// The side to move.
    pub mover: OxideSide,
    /// The castle rights.
    pub rights: OxideCastleRights,
    /// The number of the en-passant square, if there is one.
    pub en_passant: Option<int>,
    /// The half-move clock.
    pub clock: int,
    /// The number of half moves played.
    pub plies: int,
}

/// The side that the one character of the side field names: White for `w`
/// or `W`, Black for `b` or `B`, none for anything else.
pub open spec fn side_value(b: u8) -> Option<OxideSide> {
    if b == 0x77 || b == 0x57 {
        Some(OxideSide::White)
    } else if b == 0x62 || b == 0x42 {
        Some(OxideSide::Black)
    } else {
        None
    }
}

/// The en-passant square that the field between `begin` and `end` names:
/// none for `-`, else a square of the third or of the sixth rank.
pub open spec fn en_passant_value(text: Seq<u8>, begin: int, end: int) -> Result<
    Option<int>,
    OxideFenParseError,
> {
    if 0 <= begin && begin + 1 == end && end <= text.len() && text[begin] == 0x2d {
        Ok(None)
    } else {
        match square_value(text, begin, end) {
            Err(e) => Err(e),
            Ok(square) => if is_en_passant_square(square) {
                Ok(Some(square))
            } else {
                Err(OxideFenParseError::InvalidEnPassantSquare)
            },
        }
    }
}

/// The half-move clock and the number of half moves played that the text
/// from `start` on gives to a position in which `mover` is to move. Both
/// fields may be missing and then count as zero; the number of the move
/// must be at least one, and nothing but white space may follow it.
pub open spec fn clocks_value(text: Seq<u8>, start: int, mover: OxideSide) -> Result<
    (int, int),
    OxideFenParseError,
> {
    let half = field_begin(text, start);
    let half_end = field_end(text, half);
    let full = field_begin(text, half_end);
    let full_end = field_end(text, full);
    if half >= text.len() {
        Ok((0, 0))
    } else {
        match number_value(text, half, half_end, 255) {
            None => Err(OxideFenParseError::HalfMovesParseError),
            Some(clock) => if full >= text.len() {
                Ok((clock, 0))
            } else {
                match number_value(text, full, full_end, 32767) {
                    None => Err(OxideFenParseError::FullMovesParseError),
                    Some(moves) => if moves == 0 || field_begin(text, full_end) < text.len() {
                        Err(OxideFenParseError::FullMovesParseError)
                    } else {
                        Ok(
                            (
                                clock,
                                (moves - 1) * 2 + (if mover == OxideSide::Black {
                                    1int
                                } else {
                                    0int
                                }),
                            ),
                        )
                    },
                }
            },
        }
    }
}

/// What the record `text` says, or why it is refused. The fields are read
/// in their order and the first that is missing or wrong gives the reason.
pub open spec fn fen_record(text: Seq<u8>) -> Result<FenRecord, OxideFenParseError> {
    let board = field_begin(text, 0);
    let board_end = field_end(text, board);
    let side = field_begin(text, board_end);
    let side_end = field_end(text, side);
    let castle = field_begin(text, side_end);
    let castle_end = field_end(text, castle);
    let passant = field_begin(text, castle_end);
    let passant_end = field_end(text, passant);
    if board >= text.len() {
        Err(OxideFenParseError::EmptyFen)
    } else {
        match placement_from(text, board, board_end, 56, 0, empty_board()) {
            Err(e) => Err(e),
            Ok(pieces) => if side >= text.len() || side_end != side + 1 || side_value(text[side]).is_none() {
                Err(OxideFenParseError::InvalidSideChar)
            } else if castle >= text.len() {
                Err(OxideFenParseError::CastleParseError)
            } else {
                match crate::castle::parsed_rights(
                    text.subrange(castle, castle_end),
                    0,
                    OxideCastleRights::NoRights,
                ) {
                    Err(e) => Err(e),
                    Ok(rights) => if passant >= text.len() {
                        Err(OxideFenParseError::InvalidEnPassantSquare)
                    } else {
                        match en_passant_value(text, passant, passant_end) {
                            Err(e) => Err(e),
                            Ok(en_passant) => match clocks_value(text, passant_end, side_value(text[side]).unwrap()) {
                                Err(e) => Err(e),
                                Ok(clocks) => Ok(
                                    FenRecord {
                                        board: pieces,
                                        mover: side_value(text[side]).unwrap(),
                                        rights,
                                        en_passant,
                                        clock: clocks.0,
                                        plies: clocks.1,
                                    },
                                ),
                            },
                        }
                    },
                }
            },
        }
    }
}

/// Whether the position is the one that `record` describes.
pub open spec fn matches_record(pos: OxidePosition, record: FenRecord) -> bool {
    &&& record.board.len() == 64
    &&& forall|i: int| 0 <= i < 64 ==> #[trigger] pos.sided_at(i) == record.board[i]
    &&& pos.mover() == record.mover
    &&& pos.rights() == record.rights
    &&& (match record.en_passant {
        Some(square) => pos.en_passant().is_some() && pos.en_passant().unwrap().index() == square,
        None => pos.en_passant().is_none(),
    })
    &&& pos.clock() == record.clock
    &&& pos.plies() == record.plies
}

/// Puts the pieces of the placement field between `begin` and `end` on the
/// position, which holds no piece yet.
fn parse_placement(text: &[u8], begin: usize, end: usize, position: &mut OxidePosition) -> (r: Result<
    (),
    OxideFenParseError,
>)
    requires
        begin <= end <= text@.len(),
        old(position).wf(),
        forall|k: int| #[trigger] old(position).sided_at(k) == OxideSidedPiece::Empty,
    ensures
        final(position).wf(),
        final(position).same_state(*old(position)),
        match r {
            Ok(_) => {
                let pieces = placement_from(text@, begin as int, end as int, 56, 0, empty_board());
                pieces.is_ok() && pieces.unwrap().len() == 64 && forall|k: int|
                    0 <= k < 64 ==> #[trigger] final(position).sided_at(k) == pieces.unwrap()[k]
            },
            Err(e) => placement_from(text@, begin as int, end as int, 56, 0, empty_board()) == Err::<
                Seq<OxideSidedPiece>,
                OxideFenParseError,
            >(e),
        },
{
    let mut offset: u8 = 56;
    let mut rows: u8 = 0;
    let mut i = begin;
    let ghost mut board = empty_board();
    let ghost goal = placement_from(text@, begin as int, end as int, 56, 0, empty_board());
    while i < end
        invariant
            begin <= i <= end <= text@.len(),
            position.wf(),
            position.same_state(*old(position)),
            rows <= 7,
            56 - 8 * rows <= offset <= rank_end(rows as int),
            board.len() == 64,
            forall|k: int| 0 <= k < 64 ==> #[trigger] position.sided_at(k) == board[k],
            forall|k: int| 0 <= k < rank_end(rows as int) && !(56 - 8 * rows <= k < offset) ==> board[k]
                == OxideSidedPiece::Empty,
            goal == placement_from(text@, begin as int, end as int, 56, 0, empty_board()),
            goal == placement_from(text@, i as int, end as int, offset as int, rows as int, board),
        decreases end - i,
    {
        let b = text[i];
        let limit: u8 = 64 - 8 * rows;
        if b == 0x2f {
            if rows >= 7 || offset != limit {
                return Err(OxideFenParseError::InvalidBoardOffset);
            }
            rows = rows + 1;
            offset = offset - 16;
        } else if 0x30 <= b && b <= 0x39 {
            let squares = b - 0x30;
            if squares == 0 || squares > limit - offset {
                return Err(OxideFenParseError::InvalidBoardOffset);
            }
            offset = offset + squares;
        } else {
            let piece = OxideSidedPiece::from_char(b as char);
            if piece == OxideSidedPiece::Empty {
                return Err(OxideFenParseError::InvalidPieceChar);
            }
            if offset >= limit {
                return Err(OxideFenParseError::InvalidBoardOffset);
            }
            let square = OxideSquare::at(offset);
            position.add_piece(piece, square);
            proof {
                board = board.update(offset as int, piece);
            }
            offset = offset + 1;
        }
        i = i + 1;
    }
    if rows != 7 || offset != 8 {
        return Err(OxideFenParseError::InvalidBoardOffset);
    }
    Ok(())
}

/// Reads the half-move clock and the number of the move from the text
/// after `start`, and sets both clocks of the position.
fn parse_clocks(text: &[u8], start: usize, position: &mut OxidePosition) -> (r: Result<(), OxideFenParseError>)
    requires
        start <= text@.len(),
        old(position).wf(),
        old(position).clock() == 0,
        old(position).plies() == 0,
    ensures
        final(position).wf(),
        final(position).same_board(*old(position)),
        final(position).mover() == old(position).mover(),
        final(position).rights() == old(position).rights(),
        final(position).en_passant() == old(position).en_passant(),
        match r {
            Ok(_) => clocks_value(text@, start as int, old(position).mover()) == Ok::<
                (int, int),
                OxideFenParseError,
            >((final(position).clock() as int, final(position).plies() as int)),
            Err(e) => clocks_value(text@, start as int, old(position).mover()) == Err::<
                (int, int),
                OxideFenParseError,
            >(e),
        },
{
    let n = text.len();
    let half = next_field(text, start);
    if half.0 < n {
        let clock = match parse_number(text, half.0, half.1, 255) {
            Some(clock) => clock,
            None => {
                return Err(OxideFenParseError::HalfMovesParseError);
            },
        };
        let full = next_field(text, half.1);
        if full.0 < n {
            let moves = match parse_number(text, full.0, full.1, 32767) {
                Some(moves) => moves,
                None => {
                    return Err(OxideFenParseError::FullMovesParseError);
                },
            };
            if moves == 0 || next_field(text, full.1).0 < n {
                return Err(OxideFenParseError::FullMovesParseError);
            }
            let black: u32 = if position.side_to_move().is_black() {
                1
            } else {
                0
            };
            position.set_halfmove_clock(clock as u8);
            position.set_halfmove_count(((moves - 1) * 2 + black) as u16);
        } else {
            position.set_halfmove_clock(clock as u8);
        }
    }
    Ok(())
}

/// Reads the en-passant field between `begin` and `end`.
fn parse_en_passant(text: &[u8], begin: usize, end: usize) -> (r: Result<Option<OxideSquare>, OxideFenParseError>)
    requires
        begin <= end <= text@.len(),
    ensures
        match r {
            Ok(Some(square)) => en_passant_value(text@, begin as int, end as int) == Ok::<
                Option<int>,
                OxideFenParseError,
            >(Some(square.index())) && is_en_passant_square(square.index()),
            Ok(None) => en_passant_value(text@, begin as int, end as int) == Ok::<
                Option<int>,
                OxideFenParseError,
            >(None),
            Err(e) => en_passant_value(text@, begin as int, end as int) == Err::<
                Option<int>,
                OxideFenParseError,
            >(e),
        },
{
    if end - begin == 1 && text[begin] == 0x2d {
        return Ok(None);
    }
    let square = match parse_square(text, begin, end) {
        Ok(square) => square,
        Err(e) => {
            return Err(e);
        },
    };
    let rank = square.y_offset();
    if rank != 2 && rank != 5 {
        return Err(OxideFenParseError::InvalidEnPassantSquare);
    }
    Ok(Some(square))
}

impl OxidePosition {
    /// Reads a position from the bytes of a record. The record is accepted
    /// exactly where `fen_record` gives it a meaning, and the position is
    /// then the well-formed position of that meaning; where the record is
    /// refused, the reason is the one that `fen_record` gives.
    pub fn from_fen_bytes(text: &[u8]) -> (r: Result<OxidePosition, OxideFenParseError>)
        ensures
            match r {
                Ok(position) => position.wf() && fen_record(text@).is_ok() && matches_record(
                    position,
                    fen_record(text@).unwrap(),
                ),
                Err(e) => fen_record(text@) == Err::<FenRecord, OxideFenParseError>(e),
            },
    {
        let n = text.len();
        let mut position = OxidePosition::new();
        let board = next_field(text, 0);
        if board.0 >= n {
            return Err(OxideFenParseError::EmptyFen);
        }
        match parse_placement(text, board.0, board.1, &mut position) {
            Err(e) => {
                return Err(e);
            },
            Ok(_) => {},
        }
        let ghost placed = position;
        let side = next_field(text, board.1);
        if side.0 >= n {
            return Err(OxideFenParseError::InvalidSideChar);
        }
        let side_char = text[side.0];
        if side.1 - side.0 != 1 {
            return Err(OxideFenParseError::InvalidSideChar);
        }
        if side_char == 0x62 || side_char == 0x42 {
            position.switch_sides();
        } else if side_char != 0x77 && side_char != 0x57 {
            return Err(OxideFenParseError::InvalidSideChar);
        }
        let castle = next_field(text, side.1);
        if castle.0 >= n {
            return Err(OxideFenParseError::CastleParseError);
        }
        let rights = match OxideCastleRights::parse(slice_of(text, castle.0, castle.1)) {
            Ok(rights) => rights,
            Err(e) => {
                return Err(e);
            },
        };
        position.set_castle_rights(rights);
        let en_passant = next_field(text, castle.1);
        if en_passant.0 >= n {
            return Err(OxideFenParseError::InvalidEnPassantSquare);
        }
        match parse_en_passant(text, en_passant.0, en_passant.1) {
            Err(e) => {
                return Err(e);
            },
            Ok(Some(square)) => {
                position.set_en_passant(square);
            },
            Ok(None) => {
                position.clear_en_passant();
            },
        }
        let ghost before_clocks = position;
        match parse_clocks(text, en_passant.1, &mut position) {
            Err(e) => {
                return Err(e);
            },
            Ok(_) => {},
        }
        proof {
            let record = fen_record(text@).unwrap();
            assert forall|i: int| 0 <= i < 64 implies #[trigger] position.sided_at(i) == record.board[i] by {
                assert(position.sided_at(i) == before_clocks.sided_at(i));
                assert(placed.sided_at(i) == record.board[i]);
            }
        }
        Ok(position)
    }

    /// Reads a position from a record.
    pub fn from_fen(fen: &str) -> (r: Result<OxidePosition, OxideFenParseError>)
        ensures
            match r {
                Ok(position) => position.wf() && fen_record(fen.spec_bytes()).is_ok() && matches_record(
                    position,
                    fen_record(fen.spec_bytes()).unwrap(),
                ),
                Err(e) => fen_record(fen.spec_bytes()) == Err::<FenRecord, OxideFenParseError>(e),
            },
    {
        Self::from_fen_bytes(fen.as_bytes())
    }
}

/// The part of `text` between `begin` and `end`.
fn slice_of(text: &[u8], begin: usize, end: usize) -> (r: &[u8])
    requires
        begin <= end <= text@.len(),
    ensures
        r@ == text@.subrange(begin as int, end as int),
{
    vstd::slice::slice_subrange(text, begin, end)
}

/// The character of the digit `d`.
pub open spec fn digit_char(d: int) -> char {
    ((0x30 + d) as u8) as char
}

/// The decimal digits of `n`.
pub open spec fn decimal_text(n: nat) -> Seq<char>
    decreases n,
{
    if n < 10 {
        seq![digit_char(n as int)]
    } else {
        decimal_text(n / 10) + seq![digit_char((n % 10) as int)]
    }
}

/// The text of the squares of rank `rank` from file `file` on, where
/// `blanks` empty squares come before them: a letter for each piece, and for
/// each run of empty squares the digit of its length.
pub open spec fn row_text(pos: OxidePosition, rank: int, file: int, blanks: int) -> Seq<char>
    decreases 8 - file,
{
    if file >= 8 {
        if blanks > 0 {
            seq![digit_char(blanks)]
        } else {
            Seq::<char>::empty()
        }
    } else if pos.sided_at(rank * 8 + file) == OxideSidedPiece::Empty {
        row_text(pos, rank, file + 1, blanks + 1)
    } else {
        (if blanks > 0 {
            seq![digit_char(blanks)]
        } else {
            Seq::<char>::empty()
        }) + seq![pos.sided_at(rank * 8 + file).letter()] + row_text(pos, rank, file + 1, 0)
    }
}

/// The text of the ranks from `rank` down to the first, parted by `/`.
pub open spec fn rows_text(pos: OxidePosition, rank: int) -> Seq<char>
    decreases rank,
{
    if rank <= 0 {
        row_text(pos, 0, 0, 0)
    } else {
        row_text(pos, rank, 0, 0) + seq!['/'] + rows_text(pos, rank - 1)
    }
}

/// The text of the en-passant square: its file as a small letter and its
/// rank as a digit, or `-` for none.
pub open spec fn en_passant_text(square: Option<OxideSquare>) -> Seq<char> {
    match square {
        Some(s) => seq![((0x61 + file_of(s.index())) as u8) as char, digit_char(rank_of(s.index()) + 1)],
        None => seq!['-'],
    }
}

/// The record of the position: placement, side to move, castle rights,
/// en-passant square, half-move clock and number of the move, parted by
/// single blanks.
pub open spec fn fen_text(pos: OxidePosition) -> Seq<char> {
    rows_text(pos, 7) + seq![' '] + seq![pos.mover().letter()] + seq![' '] + pos.rights().text() + seq![
        ' ',
    ] + en_passant_text(pos.en_passant()) + seq![' '] + decimal_text(pos.clock() as nat) + seq![' ']
        + decimal_text((pos.plies() / 2 + 1) as nat)
}

/// Appends the decimal digits of `n`.
pub fn push_decimal(text: &mut String, n: u64)
    ensures
        final(text)@ == old(text)@ + decimal_text(n as nat),
    decreases n,
{
    if n >= 10 {
        push_decimal(text, n / 10);
    }
    push_char(text, (0x30u8 + (n % 10) as u8) as char);
    proof {
        if n >= 10 {
            assert(text@ =~= old(text)@ + (decimal_text((n / 10) as nat) + seq![digit_char((n % 10) as int)]));
        } else {
            assert(text@ =~= old(text)@ + seq![digit_char(n as int)]);
        }
    }
}

/// Appends the text of one rank of the position.
fn push_row(text: &mut String, position: &OxidePosition, rank: u8)
    requires
        position.wf(),
        rank < 8,
    ensures
        final(text)@ == old(text)@ + row_text(*position, rank as int, 0, 0),
{
    let ghost start = text@;
    let mut blanks: u8 = 0;
    let mut file: u8 = 0;
    assert(start + row_text(*position, rank as int, 0, 0) =~= start + row_text(*position, rank as int, 0, 0));
    while file < 8
        invariant
            file <= 8,
            blanks <= file,
            rank < 8,
            position.wf(),
            text@ + row_text(*position, rank as int, file as int, blanks as int) == start + row_text(
                *position,
                rank as int,
                0,
                0,
            ),
        decreases 8 - file,
    {
        let ghost before = text@;
        let square = OxideSquare::at(rank * 8 + file);
        let piece = position.sided_piece_on_square(square);
        if piece == OxideSidedPiece::Empty {
            blanks = blanks + 1;
        } else {
            if blanks > 0 {
                push_char(text, (0x30u8 + blanks) as char);
            }
            push_char(text, piece.to_char());
            proof {
                let rest = row_text(*position, rank as int, file + 1, 0);
                let shown = if blanks > 0 {
                    seq![digit_char(blanks as int)]
                } else {
                    Seq::<char>::empty()
                };
                assert(text@ + rest =~= before + (shown + seq![piece.letter()] + rest));
            }
            blanks = 0;
        }
        file = file + 1;
    }
    let ghost before = text@;
    if blanks > 0 {
        push_char(text, (0x30u8 + blanks) as char);
    }
    proof {
        assert(text@ =~= before + row_text(*position, rank as int, 8, blanks as int));
    }
}

/// Appends the placement of the pieces: the ranks from the eighth down to
/// the first, parted by `/`.
fn push_placement(text: &mut String, position: &OxidePosition)
    requires
        position.wf(),
    ensures
        final(text)@ == old(text)@ + rows_text(*position, 7),
{
    let ghost start = text@;
    let mut rank: u8 = 7;
    push_row(text, position, 7);
    while rank > 0
        invariant
            rank <= 7,
            position.wf(),
            text@ + (if rank > 0 {
                seq!['/'] + rows_text(*position, rank - 1)
            } else {
                Seq::<char>::empty()
            }) == start + rows_text(*position, 7),
        decreases rank,
    {
        let ghost before = text@;
        push_char(text, '/');
        rank = rank - 1;
        push_row(text, position, rank);
        proof {
            let row = row_text(*position, rank as int, 0, 0);
            if rank > 0 {
                assert(text@ + (seq!['/'] + rows_text(*position, rank - 1)) =~= before + (seq!['/'] + (row
                    + seq!['/'] + rows_text(*position, rank - 1))));
            } else {
                assert(text@ + Seq::<char>::empty() =~= before + (seq!['/'] + row));
            }
        }
    }
    assert(text@ =~= start + rows_text(*position, 7));
}

/// Appends the text of a set of castle rights.
fn push_rights(text: &mut String, rights: OxideCastleRights)
    ensures
        final(text)@ == old(text)@ + rights.text(),
{
    let ghost start = text@;
    if rights.bits() == 0 {
        push_char(text, '-');
    } else {
        if rights.has_white_king() {
            push_char(text, 'K');
        }
        if rights.has_white_queen() {
            push_char(text, 'Q');
        }
        if rights.has_black_king() {
            push_char(text, 'k');
        }
        if rights.has_black_queen() {
            push_char(text, 'q');
        }
    }
    assert(text@ =~= start + rights.text());
}

/// Appends the text of an en-passant square.
fn push_en_passant(text: &mut String, square: Option<OxideSquare>)
    ensures
        final(text)@ == old(text)@ + en_passant_text(square),
{
    let ghost start = text@;
    match square {
        Some(square) => {
            push_char(text, (0x61u8 + square.x_offset()) as char);
            push_char(text, (0x31u8 + square.y_offset()) as char);
        },
        None => {
            push_char(text, '-');
        },
    }
    assert(text@ =~= start + en_passant_text(square));
}

impl OxidePosition {
    /// The record of the position.
    pub fn to_fen(&self) -> (r: String)
        requires
            self.wf(),
        ensures
            r@ == fen_text(*self),
    {
        let mut text = String::new();
        push_placement(&mut text, self);
        push_char(&mut text, ' ');
        let side_letter = match self.side_to_move() {
            OxideSide::White => 'w',
            OxideSide::Black => 'b',
        };
        push_char(&mut text, side_letter);
        push_char(&mut text, ' ');
        push_rights(&mut text, self.castle_rights());
        push_char(&mut text, ' ');
        push_en_passant(&mut text, self.en_passant_square());
        push_char(&mut text, ' ');
        push_decimal(&mut text, self.halfmove_clock() as u64);
        push_char(&mut text, ' ');
        push_decimal(&mut text, self.fullmove_count() as u64);
        assert(text@ =~= fen_text(*self));
        text
    }
}

} // verus!
