//! The position as a picture: the board with its files and ranks, and
//! beside it the en-passant square, the castle rights, the side to move,
//! the half-move clock and the hash.
use vstd::prelude::*;
use vstd::string::StrSliceExecFns;
use crate::bits::{file_of, rank_of};
use crate::fen::{decimal_text, push_decimal};
use crate::position::OxidePosition;
use crate::square::{OxideSquare, file_letter, rank_digit};
use crate::text::push_char;

verus! {

/// The letters of the first `n` squares of a rank, a blank for a square
/// without a piece.
pub open spec fn rank_letters(pos: OxidePosition, rank: int, n: int) -> Seq<char>
    decreases n,
{
    if n <= 0 {
        Seq::empty()
    } else {
        rank_letters(pos, rank, n - 1).push(pos.sided_at(rank * 8 + n - 1).letter())
    }
}

/// One line of the picture: the rank between its digit on both sides, and
/// a note behind it.
pub open spec fn diagram_row(pos: OxidePosition, rank: int, note: Seq<char>) -> Seq<char> {
    seq![rank_digit(rank), '|'] + rank_letters(pos, rank, 8) + seq!['|', rank_digit(rank)] + note + seq!['\n']
}

/// The name of the en-passant square, `-` for none.
pub open spec fn passing_name(square: Option<OxideSquare>) -> Seq<char> {
    match square {
        Some(s) => seq![file_letter(file_of(s.index())), rank_digit(rank_of(s.index()))],
        None => seq!['-'],
    }
}

/// The picture of the position: the eighth rank first, the files named
/// above and below.
pub open spec fn diagram_text(pos: OxidePosition) -> Seq<char> {
    "  ABCDEFGH\n"@ + diagram_row(pos, 7, "     En-Passant: "@ + passing_name(pos.en_passant()))
        + diagram_row(pos, 6, "  Castle-Rights: "@ + pos.rights().text()) + diagram_row(
        pos,
        5,
        "   Side-to-Move: "@ + seq![pos.mover().letter()],
    ) + diagram_row(pos, 4, " Halfmove-Clock: "@ + decimal_text(pos.clock() as nat)) + diagram_row(
        pos,
        3,
        "    Zobrist-Key: "@ + decimal_text(pos.hash() as nat),
    ) + diagram_row(pos, 2, Seq::empty()) + diagram_row(pos, 1, Seq::empty()) + diagram_row(
        pos,
        0,
        Seq::empty(),
    ) + "  ABCDEFGH\n"@
}

/// Appends `more` to `text`.
pub fn push_text(text: &mut String, more: &str)
    ensures
        final(text)@ == old(text)@ + more@,
{
    let n = more.unicode_len();
    let mut i: usize = 0;
    assert(text@ =~= old(text)@ + more@.subrange(0, 0));
    while i < n
        invariant
            i <= n,
            n == more@.len(),
            text@ == old(text)@ + more@.subrange(0, i as int),
        decreases n - i,
    {
        push_char(text, more.get_char(i));
        assert(text@ =~= old(text)@ + more@.subrange(0, i + 1));
        i = i + 1;
    }
    assert(more@.subrange(0, n as int) =~= more@);
}

/// Appends one line of the picture.
fn push_row(text: &mut String, pos: &OxidePosition, rank: u8, note: &str)
    requires
        pos.wf(),
        rank < 8,
    ensures
        final(text)@ == old(text)@ + diagram_row(*pos, rank as int, note@),
{
    let digit = OxideSquare::at(rank * 8).rank_char();
    push_char(text, digit);
    push_char(text, '|');
    let ghost start = text@;
    let mut file: u8 = 0;
    assert(text@ =~= start + rank_letters(*pos, rank as int, 0));
    while file < 8
        invariant
            file <= 8,
            rank < 8,
            pos.wf(),
            text@ == start + rank_letters(*pos, rank as int, file as int),
        decreases 8 - file,
    {
        let piece = pos.sided_piece_on_square(OxideSquare::at(rank * 8 + file));
        push_char(text, piece.to_char());
        assert(text@ =~= start + rank_letters(*pos, rank as int, file + 1));
        file = file + 1;
    }
    push_char(text, '|');
    push_char(text, digit);
    push_text(text, note);
    push_char(text, '\n');
    assert(text@ =~= old(text)@ + diagram_row(*pos, rank as int, note@));
}

impl OxidePosition {
    /// The picture of the position.
    pub fn diagram(&self) -> (r: String)
        requires
            self.wf(),
        ensures
            r@ == diagram_text(*self),
    {
        let mut text = String::new();
        push_text(&mut text, "  ABCDEFGH\n");
        let mut note = String::new();
        push_text(&mut note, "     En-Passant: ");
        match self.en_passant_square() {
            Some(square) => push_text(&mut note, square.to_string().as_str()),
            None => push_char(&mut note, '-'),
        }
        push_row(&mut text, self, 7, note.as_str());
        let mut note = String::new();
        push_text(&mut note, "  Castle-Rights: ");
        push_text(&mut note, self.castle_rights().to_string().as_str());
        push_row(&mut text, self, 6, note.as_str());
        let mut note = String::new();
        push_text(&mut note, "   Side-to-Move: ");
        push_text(&mut note, self.side_to_move().to_string().as_str());
        push_row(&mut text, self, 5, note.as_str());
        let mut note = String::new();
        push_text(&mut note, " Halfmove-Clock: ");
        push_decimal(&mut note, self.halfmove_clock() as u64);
        push_row(&mut text, self, 4, note.as_str());
        let mut note = String::new();
        push_text(&mut note, "    Zobrist-Key: ");
        push_decimal(&mut note, self.zobrist_hash());
        push_row(&mut text, self, 3, note.as_str());
        push_row(&mut text, self, 2, "");
        push_row(&mut text, self, 1, "");
        push_row(&mut text, self, 0, "");
        push_text(&mut text, "  ABCDEFGH\n");
        proof {
            reveal_strlit("");
            assert(""@ =~= Seq::<char>::empty());
            assert(text@ =~= diagram_text(*self));
        }
        text
    }
}

} // verus!
