//! Writing a position and reading it again gives the position back.
use vstd::prelude::*;
use vstd::string::StringSliceAdditionalSpecFns;
use vstd::utf8::{encode_utf8, is_ascii_chars, is_ascii_chars_concat, is_ascii_chars_encode_utf8};
use crate::bits::{file_of, rank_of};
use crate::castle::{OxideCastleRights, parsed_rights};
use crate::fen::{
    OxideFenParseError, clocks_value, decimal_text, digit_char, digits_value, empty_board, en_passant_text,
    en_passant_value, fen_record, fen_text, field_begin, field_end, is_space, matches_record, number_value,
    placement_from, row_text, rows_text, side_value,
};
use crate::piece::OxideSidedPiece;
use crate::position::OxidePosition;
use crate::side::OxideSide;
use crate::square::OxideSquare;
use crate::zobrist::is_en_passant_square;

verus! {

/// The bytes of a text of characters of the ASCII set.
pub open spec fn text_bytes(text: Seq<char>) -> Seq<u8> {
    Seq::new(text.len(), |i: int| text[i] as u8)
}

/// A field that holds no white space ends where white space or the end of
/// the text follows it.
pub proof fn lemma_field_end(text: Seq<u8>, begin: int, end: int)
    requires
        0 <= begin <= end <= text.len(),
        forall|i: int| begin <= i < end ==> !is_space(#[trigger] text[i]),
        end == text.len() || is_space(text[end]),
    ensures
        field_end(text, begin) == end,
    decreases end - begin,
{
    if begin < end {
        lemma_field_end(text, begin + 1, end);
    }
}

/// A field begins behind the white space in front of it.
pub proof fn lemma_field_begin(text: Seq<u8>, start: int, begin: int)
    requires
        0 <= start <= begin <= text.len(),
        forall|i: int| start <= i < begin ==> is_space(#[trigger] text[i]),
        begin == text.len() || !is_space(text[begin]),
    ensures
        field_begin(text, start) == begin,
    decreases begin - start,
{
    if start < begin {
        lemma_field_begin(text, start + 1, begin);
    }
}

/// The digits of a number spell that number.
pub proof fn lemma_digits_spell(text: Seq<u8>, begin: int, end: int, n: nat, max: int)
    requires
        0 <= begin <= end <= text.len(),
        text.subrange(begin, end) == text_bytes(decimal_text(n)),
        n <= max,
    ensures
        digits_value(text, begin, end, 0, max) == Some(n as int),
        begin < end,
        forall|i: int| begin <= i < end ==> 0x30 <= #[trigger] text[i] <= 0x39,
    decreases n,
{
    let digits = text_bytes(decimal_text(n));
    assert(digits.len() == end - begin);
    if n < 10 {
        assert(decimal_text(n) =~= seq![digit_char(n as int)]);
        assert(text[begin] == text.subrange(begin, end)[0]);
        assert(digits[0] == 0x30 + n);
        assert(end == begin + 1);
        assert(digits_value(text, begin + 1, end, n as int, max) == Some(n as int));
        assert(digits_value(text, begin, end, 0, max) == digits_value(text, begin + 1, end, n as int, max));
    } else {
        let head = decimal_text(n / 10);
        assert(decimal_text(n) =~= head + seq![digit_char((n % 10) as int)]);
        assert(text.subrange(begin, end - 1) =~= text_bytes(head)) by {
            assert forall|i: int| 0 <= i < end - 1 - begin implies text.subrange(begin, end - 1)[i] == text_bytes(
                head,
            )[i] by {
                assert(text.subrange(begin, end)[i] == digits[i]);
            }
        }
        lemma_digits_spell(text, begin, end - 1, n / 10, max);
        assert(text[end - 1] == text.subrange(begin, end)[end - 1 - begin]);
        assert(digits[end - 1 - begin] == 0x30 + n % 10);
        lemma_digits_step(text, begin, end, 0, max);
        let tens = (n / 10) as int;
        assert(tens * 10 + (text[end - 1] - 0x30) == n);
        assert(digits_value(text, end, end, n as int, max) == Some(n as int));
        assert(digits_value(text, end - 1, end, tens, max) == digits_value(text, end, end, n as int, max));
        assert forall|i: int| begin <= i < end implies 0x30 <= #[trigger] text[i] <= 0x39 by {
            if i == end - 1 {
            }
        }
    }
}

/// Reading digits up to `end` is reading them up to the last and then the
/// last.
pub proof fn lemma_digits_step(text: Seq<u8>, begin: int, end: int, so_far: int, max: int)
    requires
        0 <= begin < end <= text.len(),
    ensures
        digits_value(text, begin, end, so_far, max) == (match digits_value(text, begin, end - 1, so_far, max) {
            None => None,
            Some(v) => digits_value(text, end - 1, end, v, max),
        }),
    decreases end - begin,
{
    if begin < end - 1 {
        if !(text[begin] < 0x30 || text[begin] > 0x39) && !(so_far * 10 + (text[begin] - 0x30) > max) {
            lemma_digits_step(text, begin + 1, end, so_far * 10 + (text[begin] - 0x30), max);
        }
    }
}

/// The text of a number is read as that number.
pub proof fn lemma_number_spells(text: Seq<u8>, begin: int, end: int, n: nat, max: int)
    requires
        0 <= begin <= end <= text.len(),
        text.subrange(begin, end) == text_bytes(decimal_text(n)),
        n <= max,
    ensures
        number_value(text, begin, end, max) == Some(n as int),
        begin < end,
        forall|i: int| begin <= i < end ==> !is_space(#[trigger] text[i]),
{
    lemma_digits_spell(text, begin, end, n, max);
}

/// The letter of a piece names that piece, and is no digit, no `/` and no
/// white space.
pub proof fn lemma_letter_names_piece(piece: OxideSidedPiece)
    requires
        piece != OxideSidedPiece::Empty,
    ensures
        OxideSidedPiece::of_letter((piece.letter() as u8) as char) == piece,
        piece.letter() as u8 != 0x2f,
        !(0x30 <= piece.letter() as u8 <= 0x39),
        !is_space(piece.letter() as u8),
{
}

/// The board on which the ranks above `rank` and the first `file` squares
/// of `rank` hold the pieces of `pos`, and the other squares none.
pub open spec fn board_filled_to(pos: OxidePosition, rank: int, file: int) -> Seq<OxideSidedPiece> {
    Seq::new(
        64,
        |k: int|
            if k >= 8 * (rank + 1) || (8 * rank <= k < 8 * rank + file) {
                pos.sided_at(k)
            } else {
                OxideSidedPiece::Empty
            },
    )
}

/// No byte of the text of a rank is white space.
pub proof fn lemma_row_has_no_space(pos: OxidePosition, rank: int, file: int, blanks: int)
    requires
        0 <= blanks <= file <= 8,
    ensures
        forall|k: int|
            0 <= k < row_text(pos, rank, file, blanks).len() ==> !is_space(
                #[trigger] text_bytes(row_text(pos, rank, file, blanks))[k],
            ),
    decreases 8 - file,
{
    if file < 8 {
        let piece = pos.sided_at(rank * 8 + file);
        if piece == OxideSidedPiece::Empty {
            lemma_row_has_no_space(pos, rank, file + 1, blanks + 1);
            assert(row_text(pos, rank, file, blanks) == row_text(pos, rank, file + 1, blanks + 1));
        } else {
            lemma_row_has_no_space(pos, rank, file + 1, 0);
            lemma_letter_names_piece(piece);
            let shown = if blanks > 0 {
                seq![digit_char(blanks)]
            } else {
                Seq::<char>::empty()
            };
            let rest = row_text(pos, rank, file + 1, 0);
            assert forall|k: int| 0 <= k < row_text(pos, rank, file, blanks).len() implies !is_space(
                #[trigger] text_bytes(row_text(pos, rank, file, blanks))[k],
            ) by {
                let whole = shown + seq![piece.letter()] + rest;
                if k > shown.len() {
                    assert(whole[k] == rest[k - shown.len() - 1]);
                    assert(!is_space(text_bytes(rest)[k - shown.len() - 1]));
                } else if k < shown.len() {
                    assert(whole[k] == digit_char(blanks));
                    assert(digit_char(blanks) as u8 == 0x30 + blanks);
                } else {
                    assert(whole[k] == piece.letter());
                }
            }
        }
    } else if blanks > 0 {
        let row = row_text(pos, rank, file, blanks);
        assert(row =~= seq![digit_char(blanks)]);
        assert(digit_char(blanks) as u8 == 0x30 + blanks);
        assert forall|k: int| 0 <= k < row.len() implies !is_space(#[trigger] text_bytes(row)[k]) by {
            assert(text_bytes(row)[k] == row[0] as u8);
        }
    } else {
        assert(row_text(pos, rank, file, blanks) =~= Seq::<char>::empty());
    }
}

/// No byte of the text of the placement is white space.
pub proof fn lemma_rows_have_no_space(pos: OxidePosition, rank: int)
    requires
        0 <= rank < 8,
    ensures
        forall|k: int|
            0 <= k < rows_text(pos, rank).len() ==> !is_space(#[trigger] text_bytes(rows_text(pos, rank))[k]),
        rows_text(pos, rank).len() > 0,
    decreases rank,
{
    lemma_row_has_no_space(pos, rank, 0, 0);
    lemma_row_is_not_empty(pos, rank, 0, 0);
    if rank > 0 {
        lemma_rows_have_no_space(pos, rank - 1);
        let row = row_text(pos, rank, 0, 0);
        let rest = rows_text(pos, rank - 1);
        assert forall|k: int| 0 <= k < rows_text(pos, rank).len() implies !is_space(
            #[trigger] text_bytes(rows_text(pos, rank))[k],
        ) by {
            let whole = row + seq!['/'] + rest;
            if k < row.len() {
                assert(!is_space(text_bytes(row)[k]));
            } else if k > row.len() {
                assert(whole[k] == rest[k - row.len() - 1]);
                assert(!is_space(text_bytes(rest)[k - row.len() - 1]));
            }
        }
    }
}

/// The text of a rank, or of the rest of a rank behind some blanks, is not
/// empty where squares or blanks are left.
pub proof fn lemma_row_is_not_empty(pos: OxidePosition, rank: int, file: int, blanks: int)
    requires
        0 <= blanks <= file <= 8,
        file < 8 || blanks > 0,
    ensures
        row_text(pos, rank, file, blanks).len() > 0,
    decreases 8 - file,
{
    if file < 8 && pos.sided_at(rank * 8 + file) == OxideSidedPiece::Empty {
        lemma_row_is_not_empty(pos, rank, file + 1, blanks + 1);
    }
}

/// Reading the text of the rest of a rank puts the pieces of that rest on
/// the board and ends at the start of the rank above.
pub proof fn lemma_row_is_read(
    text: Seq<u8>,
    i: int,
    end: int,
    pos: OxidePosition,
    rank: int,
    file: int,
    blanks: int,
    rows: int,
)
    requires
        0 <= rank < 8,
        0 <= blanks <= file <= 8,
        rows == 7 - rank,
        0 <= i,
        i + row_text(pos, rank, file, blanks).len() <= end <= text.len(),
        text.subrange(i, i + row_text(pos, rank, file, blanks).len()) == text_bytes(
            row_text(pos, rank, file, blanks),
        ),
        forall|k: int| 8 * rank + file - blanks <= k < 8 * rank + file ==> pos.sided_at(k) == OxideSidedPiece::Empty,
    ensures
        placement_from(text, i, end, 8 * rank + file - blanks, rows, board_filled_to(pos, rank, file))
            == placement_from(
            text,
            i + row_text(pos, rank, file, blanks).len(),
            end,
            8 * rank + 8,
            rows,
            board_filled_to(pos, rank, 8),
        ),
    decreases 8 - file,
{
    let row = row_text(pos, rank, file, blanks);
    let bytes = text_bytes(row);
    let board = board_filled_to(pos, rank, file);
    let offset = 8 * rank + file - blanks;
    if file >= 8 {
        if blanks > 0 {
            assert(row =~= seq![digit_char(blanks)]);
            assert(text[i] == text.subrange(i, i + 1)[0]);
            assert(bytes[0] == 0x30 + blanks);
        }
    } else {
        let piece = pos.sided_at(rank * 8 + file);
        if piece == OxideSidedPiece::Empty {
            lemma_row_is_read(text, i, end, pos, rank, file + 1, blanks + 1, rows);
            assert(board_filled_to(pos, rank, file + 1) =~= board);
        } else {
            lemma_letter_names_piece(piece);
            let shown = if blanks > 0 {
                seq![digit_char(blanks)]
            } else {
                Seq::<char>::empty()
            };
            let rest = row_text(pos, rank, file + 1, 0);
            let whole = shown + seq![piece.letter()] + rest;
            assert(row =~= whole);
            let at = i + shown.len();
            assert(text[at] == text.subrange(i, i + row.len())[at - i]);
            assert(bytes[at - i] == piece.letter() as u8);
            assert(text.subrange(at + 1, at + 1 + rest.len()) =~= text_bytes(rest)) by {
                assert forall|k: int| 0 <= k < rest.len() implies text.subrange(at + 1, at + 1 + rest.len())[k]
                    == text_bytes(rest)[k] by {
                    assert(text.subrange(i, i + row.len())[at + 1 - i + k] == bytes[at + 1 - i + k]);
                    assert(whole[at + 1 - i + k] == rest[k]);
                }
            }
            lemma_row_is_read(text, at + 1, end, pos, rank, file + 1, 0, rows);
            let square = 8 * rank + file;
            assert(board[square] == OxideSidedPiece::Empty);
            assert(board.update(square, piece) =~= board_filled_to(pos, rank, file + 1));
            if blanks > 0 {
                assert(text[i] == text.subrange(i, i + row.len())[0]);
                assert(bytes[0] == 0x30 + blanks);
                assert(placement_from(text, i, end, offset, rows, board) == placement_from(
                    text,
                    i + 1,
                    end,
                    square,
                    rows,
                    board,
                ));
            }
            assert(placement_from(text, at, end, square, rows, board) == placement_from(
                text,
                at + 1,
                end,
                square + 1,
                rows,
                board.update(square, piece),
            ));
        }
    }
}

/// Reading the text of the ranks from `rank` down puts the pieces of those
/// ranks on the board.
pub proof fn lemma_rows_are_read(text: Seq<u8>, i: int, end: int, pos: OxidePosition, rank: int)
    requires
        0 <= rank < 8,
        0 <= i <= end <= text.len(),
        text.subrange(i, end) == text_bytes(rows_text(pos, rank)),
    ensures
        placement_from(text, i, end, 8 * rank, 7 - rank, board_filled_to(pos, rank, 0)) == Ok::<
            Seq<OxideSidedPiece>,
            OxideFenParseError,
        >(board_filled_to(pos, 0, 8)),
    decreases rank,
{
    let row = row_text(pos, rank, 0, 0);
    let all = rows_text(pos, rank);
    assert(all.len() == end - i) by {
        assert(text.subrange(i, end).len() == text_bytes(all).len());
    }
    if rank == 0 {
        assert(all =~= row);
        lemma_row_is_read(text, i, end, pos, 0, 0, 0, 7);
    } else {
        let rest = rows_text(pos, rank - 1);
        let whole = row + seq!['/'] + rest;
        assert(all =~= whole);
        assert(text.subrange(i, i + row.len()) =~= text_bytes(row)) by {
            assert forall|k: int| 0 <= k < row.len() implies text.subrange(i, i + row.len())[k] == text_bytes(
                row,
            )[k] by {
                assert(text.subrange(i, end)[k] == text_bytes(all)[k]);
            }
        }
        lemma_row_is_read(text, i, end, pos, rank, 0, 0, 7 - rank);
        let slash = i + row.len();
        assert(text[slash] == text.subrange(i, end)[slash - i]);
        assert(text_bytes(all)[slash - i] == 0x2f);
        assert(text.subrange(slash + 1, end) =~= text_bytes(rest)) by {
            assert forall|k: int| 0 <= k < rest.len() implies text.subrange(slash + 1, end)[k] == text_bytes(
                rest,
            )[k] by {
                assert(text.subrange(i, end)[slash + 1 - i + k] == text_bytes(all)[slash + 1 - i + k]);
                assert(whole[slash + 1 - i + k] == rest[k]);
            }
        }
        lemma_rows_are_read(text, slash + 1, end, pos, rank - 1);
        assert(board_filled_to(pos, rank, 8) =~= board_filled_to(pos, rank - 1, 0));
        assert(placement_from(text, slash, end, 8 * rank + 8, 7 - rank, board_filled_to(pos, rank, 8))
            == placement_from(text, slash + 1, end, 8 * (rank - 1), 7 - (rank - 1), board_filled_to(pos, rank, 8)));
    }
}

/// The text of a set of castle rights is read as that set, and holds one
/// to four characters and no white space.
pub proof fn lemma_rights_are_read(rights: OxideCastleRights)
    ensures
        parsed_rights(text_bytes(rights.text()), 0, OxideCastleRights::NoRights) == Ok::<
            OxideCastleRights,
            OxideFenParseError,
        >(rights),
        1 <= rights.text().len() <= 4,
        forall|k: int| 0 <= k < rights.text().len() ==> !is_space(#[trigger] text_bytes(rights.text())[k]),
{
    reveal_with_fuel(parsed_rights, 5);
    let text = rights.text();
    let bytes = text_bytes(text);
    let none = OxideCastleRights::NoRights;
    if rights == none {
        assert(text =~= seq!['-']);
        assert(bytes[0] == 0x2d);
    } else {
        let k = if rights.white_king() {
            seq!['K']
        } else {
            Seq::<char>::empty()
        };
        let q = if rights.white_queen() {
            seq!['Q']
        } else {
            Seq::<char>::empty()
        };
        let bk = if rights.black_king() {
            seq!['k']
        } else {
            Seq::<char>::empty()
        };
        let bq = if rights.black_queen() {
            seq!['q']
        } else {
            Seq::<char>::empty()
        };
        assert(text =~= k + q + bk + bq);
        let n = text.len();
        assert forall|i: int| 0 <= i < n implies bytes[i] == text[i] as u8 by {}
        crate::castle::lemma_of_flags(true, false, false, false);
        crate::castle::lemma_of_flags(false, true, false, false);
        crate::castle::lemma_of_flags(false, false, true, false);
        crate::castle::lemma_of_flags(false, false, false, true);
        let wk = OxideCastleRights::WhiteKing;
        let wq = OxideCastleRights::WhiteQueen;
        let bkr = OxideCastleRights::BlackKing;
        let bqr = OxideCastleRights::BlackQueen;
        let r1 = if rights.white_king() {
            none.union(wk)
        } else {
            none
        };
        let r2 = if rights.white_queen() {
            r1.union(wq)
        } else {
            r1
        };
        let r3 = if rights.black_king() {
            r2.union(bkr)
        } else {
            r2
        };
        let r4 = if rights.black_queen() {
            r3.union(bqr)
        } else {
            r3
        };
        lemma_union_flags(none, wk);
        lemma_union_flags(r1, wq);
        lemma_union_flags(r2, bkr);
        lemma_union_flags(r3, bqr);
        crate::castle::lemma_rights_ext(r4, rights);
        let i1 = k.len() as int;
        let i2 = i1 + q.len();
        let i3 = i2 + bk.len();
        assert(parsed_rights(bytes, 0, none) == parsed_rights(bytes, i1, r1));
        assert(parsed_rights(bytes, i1, r1) == parsed_rights(bytes, i2, r2));
        assert(parsed_rights(bytes, i2, r2) == parsed_rights(bytes, i3, r3));
        assert(parsed_rights(bytes, i3, r3) == parsed_rights(bytes, n as int, r4));
    }
}

/// The union of two sets of rights holds the rights of either.
pub proof fn lemma_union_flags(a: OxideCastleRights, b: OxideCastleRights)
    ensures
        a.union(b).white_king() == (a.white_king() || b.white_king()),
        a.union(b).white_queen() == (a.white_queen() || b.white_queen()),
        a.union(b).black_king() == (a.black_king() || b.black_king()),
        a.union(b).black_queen() == (a.black_queen() || b.black_queen()),
{
    crate::castle::lemma_of_flags(
        a.white_king() || b.white_king(),
        a.white_queen() || b.white_queen(),
        a.black_king() || b.black_king(),
        a.black_queen() || b.black_queen(),
    );
}

/// The text of an en-passant square is read as that square, and holds one
/// or two characters and no white space.
pub proof fn lemma_en_passant_is_read(text: Seq<u8>, begin: int, end: int, square: Option<OxideSquare>)
    requires
        0 <= begin <= end <= text.len(),
        text.subrange(begin, end) == text_bytes(en_passant_text(square)),
        square.is_some() ==> is_en_passant_square(square.unwrap().index()),
    ensures
        en_passant_value(text, begin, end) == Ok::<Option<int>, OxideFenParseError>(
            match square {
                Some(s) => Some(s.index()),
                None => None,
            },
        ),
        begin < end,
        forall|i: int| begin <= i < end ==> !is_space(#[trigger] text[i]),
{
    let shown = en_passant_text(square);
    let bytes = text_bytes(shown);
    assert(bytes.len() == end - begin);
    match square {
        Some(s) => {
            crate::square::lemma_square_of_index(s);
            assert(text[begin] == text.subrange(begin, end)[0]);
            assert(text[begin + 1] == text.subrange(begin, end)[1]);
            assert(bytes[0] == 0x61 + file_of(s.index()));
            assert(bytes[1] == 0x31 + rank_of(s.index()));
        },
        None => {
            assert(text[begin] == text.subrange(begin, end)[0]);
            assert(bytes[0] == 0x2d);
        },
    }
}

/// Whether the number of half moves played fits the side to move, as it
/// does in every game that starts with a move of White, and is below the
/// greatest number that a record can give.
pub open spec fn is_counted_from_the_start(pos: OxidePosition) -> bool {
    pos.plies() % 2 == (if pos.mover() == OxideSide::Black {
        1int
    } else {
        0int
    }) && pos.plies() < 65534
}

/// The `k`-th of the six parts of the record of a position.
pub open spec fn part_text(pos: OxidePosition, k: int) -> Seq<char> {
    if k == 0 {
        rows_text(pos, 7)
    } else if k == 1 {
        seq![pos.mover().letter()]
    } else if k == 2 {
        pos.rights().text()
    } else if k == 3 {
        en_passant_text(pos.en_passant())
    } else if k == 4 {
        decimal_text(pos.clock() as nat)
    } else {
        decimal_text((pos.plies() / 2 + 1) as nat)
    }
}

/// The place in the record where its `k`-th part starts: behind the parts
/// in front of it and a blank after each of them.
pub open spec fn part_start(pos: OxidePosition, k: int) -> int
    decreases k,
{
    if k <= 0 {
        0
    } else {
        part_start(pos, k - 1) + part_text(pos, k - 1).len() + 1
    }
}

/// The place in the record where its `k`-th part ends.
pub open spec fn part_end(pos: OxidePosition, k: int) -> int {
    part_start(pos, k) + part_text(pos, k).len()
}

/// The parts of the record up to the `k`-th, with single blanks between
/// them.
pub open spec fn record_to(pos: OxidePosition, k: int) -> Seq<char>
    decreases k,
{
    if k <= 0 {
        part_text(pos, 0)
    } else {
        record_to(pos, k - 1) + seq![' '] + part_text(pos, k)
    }
}

/// The `k`-th part stands in the first `n` parts where `part_start` and
/// `part_end` say, with a blank behind it unless it is the last.
pub proof fn lemma_part_in_record(pos: OxidePosition, k: int, n: int)
    requires
        0 <= k <= n,
    ensures
        record_to(pos, n).len() == part_end(pos, n),
        0 <= part_start(pos, k) <= part_end(pos, k) <= part_end(pos, n),
        record_to(pos, n).subrange(part_start(pos, k), part_end(pos, k)) == part_text(pos, k),
        k < n ==> part_end(pos, k) < part_end(pos, n) && record_to(pos, n)[part_end(pos, k)] == ' ',
    decreases n,
{
    let whole = record_to(pos, n);
    if n == 0 {
        assert(whole.subrange(0, whole.len() as int) =~= whole);
    } else {
        let front = record_to(pos, n - 1);
        let last = part_text(pos, n);
        lemma_part_in_record(pos, n - 1, n - 1);
        assert(whole == front + seq![' '] + last);
        assert(part_start(pos, n) == front.len() + 1);
        if k == n {
            assert(whole.subrange(part_start(pos, k), part_end(pos, k)) =~= last);
        } else {
            lemma_part_in_record(pos, k, n - 1);
            assert(whole.subrange(part_start(pos, k), part_end(pos, k)) =~= front.subrange(
                part_start(pos, k),
                part_end(pos, k),
            ));
            if k < n - 1 {
                assert(whole[part_end(pos, k)] == front[part_end(pos, k)]);
            }
        }
    }
}

/// The record of a position is its six parts with single blanks between
/// them.
pub proof fn lemma_record_is_joined(pos: OxidePosition)
    ensures
        fen_text(pos) == record_to(pos, 5),
{
    reveal_with_fuel(record_to, 6);
    assert(fen_text(pos) =~= record_to(pos, 5));
}

/// Each of the six parts of the record of a position stands in its bytes
/// where `part_start` and `part_end` say, and a blank stands behind each but
/// the last.
pub proof fn lemma_record_parts(pos: OxidePosition)
    ensures
        text_bytes(fen_text(pos)).len() == part_end(pos, 5),
        part_start(pos, 0) == 0,
        forall|k: int| 0 <= k < 5 ==> part_start(pos, k + 1) == #[trigger] part_end(pos, k) + 1,
        forall|k: int|
            0 <= k < 6 ==> #[trigger] text_bytes(fen_text(pos)).subrange(part_start(pos, k), part_end(pos, k))
                == text_bytes(part_text(pos, k)),
        forall|k: int| 0 <= k < 5 ==> text_bytes(fen_text(pos))[#[trigger] part_end(pos, k)] == 0x20,
{
    let whole = fen_text(pos);
    let text = text_bytes(whole);
    lemma_record_is_joined(pos);
    lemma_part_in_record(pos, 5, 5);
    assert forall|k: int| 0 <= k < 6 implies #[trigger] text.subrange(part_start(pos, k), part_end(pos, k))
        == text_bytes(part_text(pos, k)) by {
        lemma_part_in_record(pos, k, 5);
        assert(text.subrange(part_start(pos, k), part_end(pos, k)) =~= text_bytes(
            whole.subrange(part_start(pos, k), part_end(pos, k)),
        ));
    }
    assert forall|k: int| 0 <= k < 5 implies text[#[trigger] part_end(pos, k)] == 0x20 by {
        lemma_part_in_record(pos, k, 5);
    }
}

/// A part of the record of a position is not empty and holds no white
/// space.
pub proof fn lemma_part_has_no_space(pos: OxidePosition, k: int)
    requires
        pos.wf(),
        0 <= k < 6,
    ensures
        part_text(pos, k).len() > 0,
        forall|i: int| 0 <= i < part_text(pos, k).len() ==> !is_space(#[trigger] text_bytes(part_text(pos, k))[i]),
{
    let part = text_bytes(part_text(pos, k));
    let n = part.len() as int;
    assert(part.subrange(0, n) =~= part);
    if k == 0 {
        lemma_rows_have_no_space(pos, 7);
    } else if k == 1 {
    } else if k == 2 {
        lemma_rights_are_read(pos.rights());
    } else if k == 3 {
        crate::position::lemma_hash_is_expected(pos);
        lemma_en_passant_is_read(part, 0, n, pos.en_passant());
    } else if k == 4 {
        lemma_number_spells(part, 0, n, pos.clock() as nat, 255);
    } else {
        lemma_number_spells(part, 0, n, (pos.plies() / 2 + 1) as nat, 65535);
    }
}

/// The fields of the record of a position are found where its parts stand.
pub proof fn lemma_record_fields(pos: OxidePosition)
    requires
        pos.wf(),
    ensures
        field_begin(text_bytes(fen_text(pos)), 0) == 0,
        forall|k: int|
            0 <= k < 6 ==> field_end(text_bytes(fen_text(pos)), #[trigger] part_start(pos, k)) == part_end(pos, k),
        forall|k: int|
            0 <= k < 5 ==> field_begin(text_bytes(fen_text(pos)), #[trigger] part_end(pos, k)) == part_start(
                pos,
                k + 1,
            ),
        forall|k: int| 0 <= k < 6 ==> #[trigger] part_start(pos, k) < part_end(pos, k) <= text_bytes(fen_text(pos)).len(),
{
    let text = text_bytes(fen_text(pos));
    lemma_record_parts(pos);
    assert forall|k: int| 0 <= k < 6 implies #[trigger] part_start(pos, k) < part_end(pos, k) && field_end(
        text,
        part_start(pos, k),
    ) == part_end(pos, k) by {
        lemma_part_is_a_field(pos, k);
    }
    assert forall|k: int| 0 <= k < 5 implies field_begin(text, #[trigger] part_end(pos, k)) == part_start(
        pos,
        k + 1,
    ) by {
        lemma_part_is_a_field(pos, k + 1);
        lemma_part_in_record(pos, k + 1, 5);
        let end = part_end(pos, k);
        assert(text[end] == 0x20);
        assert(part_start(pos, k + 1) == end + 1);
        assert(!is_space(text[end + 1]));
        lemma_field_begin(text, end, end + 1);
    }
    lemma_part_is_a_field(pos, 0);
    lemma_part_in_record(pos, 0, 5);
    assert(!is_space(text[0]));
    lemma_field_begin(text, 0, 0);
}

/// A part of the record of a position is a field of the record.
pub proof fn lemma_part_is_a_field(pos: OxidePosition, k: int)
    requires
        pos.wf(),
        0 <= k < 6,
    ensures
        part_start(pos, k) < part_end(pos, k),
        field_end(text_bytes(fen_text(pos)), part_start(pos, k)) == part_end(pos, k),
        forall|i: int|
            part_start(pos, k) <= i < part_end(pos, k) ==> !is_space(#[trigger] text_bytes(fen_text(pos))[i]),
{
    let text = text_bytes(fen_text(pos));
    let begin = part_start(pos, k);
    let end = part_end(pos, k);
    let part = text_bytes(part_text(pos, k));
    lemma_record_parts(pos);
    lemma_part_has_no_space(pos, k);
    lemma_part_in_record(pos, k, 5);
    assert(text.subrange(begin, end) == part);
    assert forall|i: int| begin <= i < end implies !is_space(#[trigger] text[i]) by {
        assert(text[i] == text.subrange(begin, end)[i - begin]);
        assert(!is_space(part[i - begin]));
    }
    if k < 5 {
        assert(text[end] == 0x20);
    }
    lemma_field_end(text, begin, end);
}

/// The record of a position is read as that position: the text that
/// `fen_text` gives has the meaning that `fen_record` reads, piece for piece
/// and field for field.
pub proof fn lemma_fen_is_read(pos: OxidePosition)
    requires
        pos.wf(),
        is_counted_from_the_start(pos),
    ensures
        fen_record(text_bytes(fen_text(pos))).is_ok(),
        matches_record(pos, fen_record(text_bytes(fen_text(pos))).unwrap()),
{
    crate::position::lemma_hash_is_expected(pos);
    let text = text_bytes(fen_text(pos));
    lemma_record_parts(pos);
    lemma_record_fields(pos);
    let b1 = part_start(pos, 1);
    let b2 = part_start(pos, 2);
    let b3 = part_start(pos, 3);
    let b4 = part_start(pos, 4);
    let b5 = part_start(pos, 5);
    assert(placement_from(text, 0, part_end(pos, 0), 56, 0, empty_board()) == Ok::<
        Seq<OxideSidedPiece>,
        OxideFenParseError,
    >(board_filled_to(pos, 0, 8))) by {
        assert(text.subrange(part_start(pos, 0), part_end(pos, 0)) == text_bytes(part_text(pos, 0)));
        lemma_rows_are_read(text, 0, part_end(pos, 0), pos, 7);
        assert(board_filled_to(pos, 7, 0) =~= empty_board());
    }
    assert(side_value(text[b1]) == Some(pos.mover())) by {
        assert(text.subrange(b1, part_end(pos, 1)) == text_bytes(part_text(pos, 1)));
        assert(text[b1] == text.subrange(b1, part_end(pos, 1))[0]);
    }
    assert(parsed_rights(text.subrange(b2, part_end(pos, 2)), 0, OxideCastleRights::NoRights) == Ok::<
        OxideCastleRights,
        OxideFenParseError,
    >(pos.rights())) by {
        assert(text.subrange(b2, part_end(pos, 2)) == text_bytes(part_text(pos, 2)));
        lemma_rights_are_read(pos.rights());
    }
    assert(en_passant_value(text, b3, part_end(pos, 3)) == Ok::<Option<int>, OxideFenParseError>(
        match pos.en_passant() {
            Some(s) => Some(s.index()),
            None => None,
        },
    )) by {
        assert(text.subrange(b3, part_end(pos, 3)) == text_bytes(part_text(pos, 3)));
        lemma_en_passant_is_read(text, b3, part_end(pos, 3), pos.en_passant());
    }
    assert(clocks_value(text, part_end(pos, 3), pos.mover()) == Ok::<(int, int), OxideFenParseError>(
        (pos.clock() as int, pos.plies() as int),
    )) by {
        assert(text.subrange(b4, part_end(pos, 4)) == text_bytes(part_text(pos, 4)));
        assert(text.subrange(b5, part_end(pos, 5)) == text_bytes(part_text(pos, 5)));
        lemma_number_spells(text, b4, part_end(pos, 4), pos.clock() as nat, 255);
        lemma_number_spells(text, b5, part_end(pos, 5), (pos.plies() / 2 + 1) as nat, 32767);
        assert(field_begin(text, part_end(pos, 3)) == b4);
        assert(field_end(text, b4) == part_end(pos, 4));
        assert(field_begin(text, part_end(pos, 4)) == b5);
        assert(field_end(text, b5) == part_end(pos, 5));
    }
    assert(field_end(text, 0) == part_end(pos, 0));
    assert(field_begin(text, part_end(pos, 0)) == b1);
    assert(field_end(text, b1) == part_end(pos, 1));
    assert(field_begin(text, part_end(pos, 1)) == b2);
    assert(field_end(text, b2) == part_end(pos, 2));
    assert(field_begin(text, part_end(pos, 2)) == b3);
    assert(field_end(text, b3) == part_end(pos, 3));
    assert(part_start(pos, 0) < part_end(pos, 0) <= text.len());
    assert(b1 < part_end(pos, 1) <= text.len());
    assert(b2 < part_end(pos, 2) <= text.len());
    assert(b3 < part_end(pos, 3) <= text.len());
    let record = fen_record(text);
    assert(record.is_ok());
    assert(record.unwrap().board == board_filled_to(pos, 0, 8));
}

/// The text of the rest of a rank holds characters of the ASCII set only.
pub proof fn lemma_row_is_ascii(pos: OxidePosition, rank: int, file: int, blanks: int)
    requires
        0 <= blanks <= file <= 8,
    ensures
        is_ascii_chars(row_text(pos, rank, file, blanks)),
    decreases 8 - file,
{
    let row = row_text(pos, rank, file, blanks);
    if file < 8 {
        let piece = pos.sided_at(rank * 8 + file);
        if piece == OxideSidedPiece::Empty {
            lemma_row_is_ascii(pos, rank, file + 1, blanks + 1);
        } else {
            lemma_row_is_ascii(pos, rank, file + 1, 0);
            let shown = if blanks > 0 {
                seq![digit_char(blanks)]
            } else {
                Seq::<char>::empty()
            };
            let rest = row_text(pos, rank, file + 1, 0);
            assert(is_ascii_chars(shown));
            assert(is_ascii_chars(seq![piece.letter()]));
            is_ascii_chars_concat(shown + seq![piece.letter()], shown, seq![piece.letter()]);
            is_ascii_chars_concat(row, shown + seq![piece.letter()], rest);
        }
    } else if blanks > 0 {
        assert(row =~= seq![digit_char(blanks)]);
    } else {
        assert(row =~= Seq::<char>::empty());
    }
}

/// The text of the placement holds characters of the ASCII set only.
pub proof fn lemma_rows_are_ascii(pos: OxidePosition, rank: int)
    requires
        0 <= rank < 8,
    ensures
        is_ascii_chars(rows_text(pos, rank)),
    decreases rank,
{
    lemma_row_is_ascii(pos, rank, 0, 0);
    if rank > 0 {
        lemma_rows_are_ascii(pos, rank - 1);
        let row = row_text(pos, rank, 0, 0);
        assert(is_ascii_chars(seq!['/']));
        is_ascii_chars_concat(row + seq!['/'], row, seq!['/']);
        is_ascii_chars_concat(rows_text(pos, rank), row + seq!['/'], rows_text(pos, rank - 1));
    }
}

/// The digits of a number are characters of the ASCII set.
pub proof fn lemma_decimal_is_ascii(n: nat)
    ensures
        is_ascii_chars(decimal_text(n)),
    decreases n,
{
    if n >= 10 {
        lemma_decimal_is_ascii(n / 10);
        assert(is_ascii_chars(seq![digit_char((n % 10) as int)]));
        is_ascii_chars_concat(decimal_text(n), decimal_text(n / 10), seq![digit_char((n % 10) as int)]);
    }
}

/// The record of a position holds characters of the ASCII set only, so that
/// its bytes are its characters.
pub proof fn lemma_record_is_ascii(pos: OxidePosition)
    requires
        pos.wf(),
    ensures
        is_ascii_chars(fen_text(pos)),
        encode_utf8(fen_text(pos)) == text_bytes(fen_text(pos)),
{
    crate::position::lemma_hash_is_expected(pos);
    let blank = seq![' '];
    let placement = part_text(pos, 0);
    let mover = part_text(pos, 1);
    let rights_text = part_text(pos, 2);
    let passing = part_text(pos, 3);
    let clock = part_text(pos, 4);
    let number = part_text(pos, 5);
    lemma_rows_are_ascii(pos, 7);
    lemma_decimal_is_ascii(pos.clock() as nat);
    lemma_decimal_is_ascii((pos.plies() / 2 + 1) as nat);
    assert(is_ascii_chars(blank));
    assert(is_ascii_chars(mover));
    assert(is_ascii_chars(rights_text)) by {
        let rights = pos.rights();
        let k = if rights.white_king() {
            seq!['K']
        } else {
            Seq::<char>::empty()
        };
        let q = if rights.white_queen() {
            seq!['Q']
        } else {
            Seq::<char>::empty()
        };
        let bk = if rights.black_king() {
            seq!['k']
        } else {
            Seq::<char>::empty()
        };
        let bq = if rights.black_queen() {
            seq!['q']
        } else {
            Seq::<char>::empty()
        };
        if rights != OxideCastleRights::NoRights {
            assert(rights_text =~= k + q + bk + bq);
            is_ascii_chars_concat(k + q, k, q);
            is_ascii_chars_concat(k + q + bk, k + q, bk);
            is_ascii_chars_concat(k + q + bk + bq, k + q + bk, bq);
        }
    }
    assert(is_ascii_chars(passing)) by {
        if pos.en_passant().is_some() {
            crate::square::lemma_square_of_index(pos.en_passant().unwrap());
        }
    }
    let t1 = placement + blank;
    let t2 = t1 + mover;
    let t3 = t2 + blank;
    let t4 = t3 + rights_text;
    let t5 = t4 + blank;
    let t6 = t5 + passing;
    let t7 = t6 + blank;
    let t8 = t7 + clock;
    let t9 = t8 + blank;
    let whole = fen_text(pos);
    assert(whole =~= t9 + number);
    is_ascii_chars_concat(t1, placement, blank);
    is_ascii_chars_concat(t2, t1, mover);
    is_ascii_chars_concat(t3, t2, blank);
    is_ascii_chars_concat(t4, t3, rights_text);
    is_ascii_chars_concat(t5, t4, blank);
    is_ascii_chars_concat(t6, t5, passing);
    is_ascii_chars_concat(t7, t6, blank);
    is_ascii_chars_concat(t8, t7, clock);
    is_ascii_chars_concat(t9, t8, blank);
    is_ascii_chars_concat(whole, t9, number);
    is_ascii_chars_encode_utf8(whole);
    assert(encode_utf8(whole) =~= text_bytes(whole));
}

/// A text that is the record of a position is read as that position.
pub proof fn lemma_written_record_is_read(pos: OxidePosition, written: &str)
    requires
        pos.wf(),
        is_counted_from_the_start(pos),
        written@ == fen_text(pos),
    ensures
        fen_record(written.spec_bytes()).is_ok(),
        matches_record(pos, fen_record(written.spec_bytes()).unwrap()),
{
    lemma_record_is_ascii(pos);
    lemma_fen_is_read(pos);
}

/// Writing a position and reading it again gives the position back: the
/// record of `pos` has a meaning, and a well-formed position of that meaning
/// is `pos`.
pub proof fn lemma_fen_round_trip(pos: OxidePosition, written: &str, read: OxidePosition)
    requires
        pos.wf(),
        is_counted_from_the_start(pos),
        written@ == fen_text(pos),
        read.wf(),
        matches_record(read, fen_record(written.spec_bytes()).unwrap()),
    ensures
        fen_record(written.spec_bytes()).is_ok(),
        read == pos,
{
    lemma_written_record_is_read(pos, written);
    let record = fen_record(written.spec_bytes()).unwrap();
    assert forall|i: int| #[trigger] read.sided_at(i) == pos.sided_at(i) by {
        if 0 <= i < 64 {
            assert(read.sided_at(i) == record.board[i]);
            assert(pos.sided_at(i) == record.board[i]);
        } else {
            crate::position::lemma_position_off_board(read, i);
            crate::position::lemma_position_off_board(pos, i);
        }
    }
    if pos.en_passant().is_some() {
        crate::rules::lemma_square_by_index(read.en_passant().unwrap(), pos.en_passant().unwrap());
    }
    crate::position::lemma_position_ext(read, pos);
}

} // verus!
