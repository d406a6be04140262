//! Castle rights: which of the four castles are still allowed.
use vstd::prelude::*;
use vstd::string::StringSliceAdditionalSpecFns;
use crate::bitboard::OxideBitboard;
use crate::bits::{bit, lemma_bit_masks, lemma_bit_or};
use crate::fen::OxideFenParseError;
use crate::side::OxideSide;
use crate::text::push_char;

verus! {

/// A set of castle rights. Each of the sixteen values stands for one subset
/// of the four rights: White king-side, White queen-side, Black king-side and
/// Black queen-side.
#[derive(Clone, Copy, Debug, PartialEq, Eq, Structural, Hash)]
pub enum OxideCastleRights {
    NoRights,
    WhiteKing,
    WhiteQueen,
    WhiteAll,
    BlackKing,
    BothKings,
    WhiteQueenBlackKing,
    WhiteAllBlackKing,
    BlackQueen,
    WhiteKingBlackQueen,
    BothQueens,
    WhiteAllBlackQueen,
    BlackAll,
    BlackAllWhiteKing,
    BlackAllWhiteQueen,
    All,
}

/// The squares between king and rook that must be free for White to castle
/// king-side: F1 and G1.
pub const WHITE_KING_CLEAR: u64 = 0x60;

/// The squares that must be free for White to castle queen-side: B1, C1, D1.
pub const WHITE_QUEEN_CLEAR: u64 = 0xe;

/// The squares that must be free for Black to castle king-side: F8 and G8.
pub const BLACK_KING_CLEAR: u64 = 0x6000000000000000;

/// The squares that must be free for Black to castle queen-side: B8, C8, D8.
pub const BLACK_QUEEN_CLEAR: u64 = 0x0e00000000000000;

proof fn bv_castle_paths(i: u64)
    by (bit_vector)
    requires
        i < 64,
    ensures
        ((0x60u64 >> i) & 1 == 1) == (i == 5 || i == 6),
        ((0xeu64 >> i) & 1 == 1) == (i == 1 || i == 2 || i == 3),
        ((0x6000000000000000u64 >> i) & 1 == 1) == (i == 61 || i == 62),
        ((0x0e00000000000000u64 >> i) & 1 == 1) == (i == 57 || i == 58 || i == 59),
{
}

/// Whether square `i` lies on the path of one of the castles in `rights`.
pub open spec fn on_castle_path(rights: OxideCastleRights, i: int) -> bool {
    (rights.white_king() && (i == 5 || i == 6)) || (rights.white_queen() && (i == 1 || i == 2 || i
        == 3)) || (rights.black_king() && (i == 61 || i == 62)) || (rights.black_queen() && (i == 57
        || i == 58 || i == 59))
}

/// What the text of a castle field stands for: no right for a field that
/// is `-` alone, and else the rights that its characters name, `K`, `Q`, `k`
/// and `q` each adding one. A field with any other character is refused.
/// `k` is the place from which the field is read, `so_far` what was read
/// before it.
pub open spec fn parsed_rights(text: Seq<u8>, k: int, so_far: OxideCastleRights) -> Result<
    OxideCastleRights,
    OxideFenParseError,
>
    decreases text.len() - k,
{
    if k < 0 || k >= text.len() {
        Ok(so_far)
    } else if text[k] == 0x4b {
        parsed_rights(text, k + 1, so_far.union(OxideCastleRights::WhiteKing))
    } else if text[k] == 0x6b {
        parsed_rights(text, k + 1, so_far.union(OxideCastleRights::BlackKing))
    } else if text[k] == 0x51 {
        parsed_rights(text, k + 1, so_far.union(OxideCastleRights::WhiteQueen))
    } else if text[k] == 0x71 {
        parsed_rights(text, k + 1, so_far.union(OxideCastleRights::BlackQueen))
    } else if text[k] == 0x2d && k == 0 && text.len() == 1 {
        Ok(so_far)
    } else {
        Err(OxideFenParseError::CastleParseError)
    }
}

impl OxideCastleRights {
    /// No right at all.
    pub const NONE: OxideCastleRights = OxideCastleRights::NoRights;

    /// White king-side.
    pub const WHITE_KING: OxideCastleRights = OxideCastleRights::WhiteKing;

    /// White queen-side.
    pub const WHITE_QUEEN: OxideCastleRights = OxideCastleRights::WhiteQueen;

    /// Both rights of White.
    pub const WHITE_ALL: OxideCastleRights = OxideCastleRights::WhiteAll;

    /// Black king-side.
    pub const BLACK_KING: OxideCastleRights = OxideCastleRights::BlackKing;

    /// The king-side rights of both sides.
    pub const BOTH_KINGS: OxideCastleRights = OxideCastleRights::BothKings;

    /// White queen-side and Black king-side.
    pub const WHITE_QUEEN_BLACK_KING: OxideCastleRights = OxideCastleRights::WhiteQueenBlackKing;

    /// Both rights of White and Black king-side.
    pub const WHITE_ALL_BLACK_KING: OxideCastleRights = OxideCastleRights::WhiteAllBlackKing;

    /// Black queen-side.
    pub const BLACK_QUEEN: OxideCastleRights = OxideCastleRights::BlackQueen;

    /// White king-side and Black queen-side.
    pub const WHITE_KING_BLACK_QUEEN: OxideCastleRights = OxideCastleRights::WhiteKingBlackQueen;

    /// The queen-side rights of both sides.
    pub const BOTH_QUEENS: OxideCastleRights = OxideCastleRights::BothQueens;

    /// Both rights of White and Black queen-side.
    pub const WHITE_ALL_BLACK_QUEEN: OxideCastleRights = OxideCastleRights::WhiteAllBlackQueen;

    /// Both rights of Black.
    pub const BLACK_ALL: OxideCastleRights = OxideCastleRights::BlackAll;

    /// Both rights of Black and White king-side.
    pub const BLACK_ALL_WHITE_KING: OxideCastleRights = OxideCastleRights::BlackAllWhiteKing;

    /// Both rights of Black and White queen-side.
    pub const BLACK_ALL_WHITE_QUEEN: OxideCastleRights = OxideCastleRights::BlackAllWhiteQueen;

    /// All four rights.
    pub const ALL: OxideCastleRights = OxideCastleRights::All;

    /// The number of the set: 1 for White king-side, 2 for White queen-side,
    /// 4 for Black king-side and 8 for Black queen-side, added up.
    pub open spec fn number(self) -> int {
        self as int
    }

    /// Whether White may castle king-side.
    pub open spec fn white_king(self) -> bool {
        self.number() % 2 == 1
    }

    /// Whether White may castle queen-side.
    pub open spec fn white_queen(self) -> bool {
        (self.number() / 2) % 2 == 1
    }

    /// Whether Black may castle king-side.
    pub open spec fn black_king(self) -> bool {
        (self.number() / 4) % 2 == 1
    }

    /// Whether Black may castle queen-side.
    pub open spec fn black_queen(self) -> bool {
        (self.number() / 8) % 2 == 1
    }

    /// The set that holds exactly the rights named.
    pub open spec fn of_flags(
        white_king: bool,
        white_queen: bool,
        black_king: bool,
        black_queen: bool,
    ) -> OxideCastleRights {
        Self::of_number(
            (if white_king {
                1int
            } else {
                0int
            }) + (if white_queen {
                2int
            } else {
                0int
            }) + (if black_king {
                4int
            } else {
                0int
            }) + (if black_queen {
                8int
            } else {
                0int
            }),
        )
    }

    /// The set whose number is `n`.
    pub open spec fn of_number(n: int) -> OxideCastleRights {
        if n == 0 {
            OxideCastleRights::NoRights
        } else if n == 1 {
            OxideCastleRights::WhiteKing
        } else if n == 2 {
            OxideCastleRights::WhiteQueen
        } else if n == 3 {
            OxideCastleRights::WhiteAll
        } else if n == 4 {
            OxideCastleRights::BlackKing
        } else if n == 5 {
            OxideCastleRights::BothKings
        } else if n == 6 {
            OxideCastleRights::WhiteQueenBlackKing
        } else if n == 7 {
            OxideCastleRights::WhiteAllBlackKing
        } else if n == 8 {
            OxideCastleRights::BlackQueen
        } else if n == 9 {
            OxideCastleRights::WhiteKingBlackQueen
        } else if n == 10 {
            OxideCastleRights::BothQueens
        } else if n == 11 {
            OxideCastleRights::WhiteAllBlackQueen
        } else if n == 12 {
            OxideCastleRights::BlackAll
        } else if n == 13 {
            OxideCastleRights::BlackAllWhiteKing
        } else if n == 14 {
            OxideCastleRights::BlackAllWhiteQueen
        } else {
            OxideCastleRights::All
        }
    }

    /// The rights that are in either set.
    pub open spec fn union(self, other: OxideCastleRights) -> OxideCastleRights {
        Self::of_flags(
            self.white_king() || other.white_king(),
            self.white_queen() || other.white_queen(),
            self.black_king() || other.black_king(),
            self.black_queen() || other.black_queen(),
        )
    }

    /// The rights that are in both sets.
    pub open spec fn common(self, other: OxideCastleRights) -> OxideCastleRights {
        Self::of_flags(
            self.white_king() && other.white_king(),
            self.white_queen() && other.white_queen(),
            self.black_king() && other.black_king(),
            self.black_queen() && other.black_queen(),
        )
    }

    /// The rights that are not in the set.
    pub open spec fn complement(self) -> OxideCastleRights {
        Self::of_flags(
            !self.white_king(),
            !self.white_queen(),
            !self.black_king(),
            !self.black_queen(),
        )
    }

    /// The rights of this set that are not in `other`.
    pub open spec fn without(self, other: OxideCastleRights) -> OxideCastleRights {
        self.common(other.complement())
    }

    /// The rights that are in exactly one of the two sets.
    pub open spec fn difference(self, other: OxideCastleRights) -> OxideCastleRights {
        Self::of_flags(
            self.white_king() != other.white_king(),
            self.white_queen() != other.white_queen(),
            self.black_king() != other.black_king(),
            self.black_queen() != other.black_queen(),
        )
    }

    /// Whether every right of `other` is in this set.
    pub open spec fn includes(self, other: OxideCastleRights) -> bool {
        (other.white_king() ==> self.white_king()) && (other.white_queen() ==> self.white_queen())
            && (other.black_king() ==> self.black_king()) && (other.black_queen()
            ==> self.black_queen())
    }

    /// The rights of this set that belong to `side`.
    pub open spec fn of_side(self, side: OxideSide) -> OxideCastleRights {
        match side {
            OxideSide::White => Self::of_flags(self.white_king(), self.white_queen(), false, false),
            OxideSide::Black => Self::of_flags(false, false, self.black_king(), self.black_queen()),
        }
    }

    /// The text of the set in a position record: the letters `K`, `Q`, `k`
    /// and `q` of the rights it holds, in that order, or `-` for none.
    pub open spec fn text(self) -> Seq<char> {
        if self == OxideCastleRights::NoRights {
            seq!['-']
        } else {
            (if self.white_king() {
                seq!['K']
            } else {
                Seq::<char>::empty()
            }) + (if self.white_queen() {
                seq!['Q']
            } else {
                Seq::<char>::empty()
            }) + (if self.black_king() {
                seq!['k']
            } else {
                Seq::<char>::empty()
            }) + (if self.black_queen() {
                seq!['q']
            } else {
                Seq::<char>::empty()
            })
        }
    }

    /// The number of the set: 1 for White king-side, 2 for White queen-side,
    /// 4 for Black king-side and 8 for Black queen-side, added up.
    pub fn bits(self) -> (r: u8)
        ensures
            r == self.number(),
            r < 16,
    {
        self as u8
    }

    /// The set whose number is `bits`.
    pub fn from_bits(bits: u8) -> (r: OxideCastleRights)
        requires
            bits < 16,
        ensures
            r.number() == bits,
            r == Self::of_number(bits as int),
    {
        match bits {
            0 => OxideCastleRights::NoRights,
            1 => OxideCastleRights::WhiteKing,
            2 => OxideCastleRights::WhiteQueen,
            3 => OxideCastleRights::WhiteAll,
            4 => OxideCastleRights::BlackKing,
            5 => OxideCastleRights::BothKings,
            6 => OxideCastleRights::WhiteQueenBlackKing,
            7 => OxideCastleRights::WhiteAllBlackKing,
            8 => OxideCastleRights::BlackQueen,
            9 => OxideCastleRights::WhiteKingBlackQueen,
            10 => OxideCastleRights::BothQueens,
            11 => OxideCastleRights::WhiteAllBlackQueen,
            12 => OxideCastleRights::BlackAll,
            13 => OxideCastleRights::BlackAllWhiteKing,
            14 => OxideCastleRights::BlackAllWhiteQueen,
            _ => OxideCastleRights::All,
        }
    }

    /// The set that holds exactly the rights named.
    pub fn from_flags(white_king: bool, white_queen: bool, black_king: bool, black_queen: bool) -> (r:
        OxideCastleRights)
        ensures
            r == Self::of_flags(white_king, white_queen, black_king, black_queen),
            r.white_king() == white_king,
            r.white_queen() == white_queen,
            r.black_king() == black_king,
            r.black_queen() == black_queen,
    {
        let mut bits: u8 = 0;
        if white_king {
            bits = bits + 1;
        }
        if white_queen {
            bits = bits + 2;
        }
        if black_king {
            bits = bits + 4;
        }
        if black_queen {
            bits = bits + 8;
        }
        Self::from_bits(bits)
    }

    /// Whether White may castle king-side.
    pub fn has_white_king(self) -> (r: bool)
        ensures
            r == self.white_king(),
    {
        self.bits() % 2 == 1
    }

    /// Whether White may castle queen-side.
    pub fn has_white_queen(self) -> (r: bool)
        ensures
            r == self.white_queen(),
    {
        (self.bits() / 2) % 2 == 1
    }

    /// Whether Black may castle king-side.
    pub fn has_black_king(self) -> (r: bool)
        ensures
            r == self.black_king(),
    {
        (self.bits() / 4) % 2 == 1
    }

    /// Whether Black may castle queen-side.
    pub fn has_black_queen(self) -> (r: bool)
        ensures
            r == self.black_queen(),
    {
        (self.bits() / 8) % 2 == 1
    }

    /// The rights that are in either set.
    pub fn united(self, other: OxideCastleRights) -> (r: OxideCastleRights)
        ensures
            r == self.union(other),
    {
        Self::from_flags(
            self.has_white_king() || other.has_white_king(),
            self.has_white_queen() || other.has_white_queen(),
            self.has_black_king() || other.has_black_king(),
            self.has_black_queen() || other.has_black_queen(),
        )
    }

    /// The rights that are in both sets.
    pub fn shared(self, other: OxideCastleRights) -> (r: OxideCastleRights)
        ensures
            r == self.common(other),
    {
        Self::from_flags(
            self.has_white_king() && other.has_white_king(),
            self.has_white_queen() && other.has_white_queen(),
            self.has_black_king() && other.has_black_king(),
            self.has_black_queen() && other.has_black_queen(),
        )
    }

    /// The rights that are not in the set.
    pub fn inverted(self) -> (r: OxideCastleRights)
        ensures
            r == self.complement(),
    {
        Self::from_flags(
            !self.has_white_king(),
            !self.has_white_queen(),
            !self.has_black_king(),
            !self.has_black_queen(),
        )
    }

    /// The rights of this set that belong to `side`.
    pub fn for_side(&self, side: OxideSide) -> (r: OxideCastleRights)
        ensures
            r == self.of_side(side),
    {
        match side {
            OxideSide::White => Self::from_flags(
                self.has_white_king(),
                self.has_white_queen(),
                false,
                false,
            ),
            OxideSide::Black => Self::from_flags(
                false,
                false,
                self.has_black_king(),
                self.has_black_queen(),
            ),
        }
    }

    /// Whether every right of `other` is in this set.
    pub fn contains(&self, other: OxideCastleRights) -> (r: bool)
        ensures
            r == self.includes(other),
    {
        self.shared(other) == other
    }

    /// Whether the two sets share a right.
    pub fn intersects(&self, other: OxideCastleRights) -> (r: bool)
        ensures
            r == (self.common(other) != OxideCastleRights::NoRights),
    {
        self.shared(other).bits() > 0
    }

    /// Adds the rights of `other` to this set.
    pub fn insert(&mut self, other: OxideCastleRights)
        ensures
            *final(self) == old(self).union(other),
    {
        *self = self.united(other);
    }

    /// Takes the rights of `other` out of this set.
    pub fn remove(&mut self, other: OxideCastleRights)
        ensures
            *final(self) == old(self).without(other),
    {
        *self = self.shared(other.inverted());
    }

    /// The rights that are in exactly one of the two sets.
    pub fn symmetric_difference(self, other: OxideCastleRights) -> (r: OxideCastleRights)
        ensures
            r == self.difference(other),
    {
        Self::from_flags(
            self.has_white_king() != other.has_white_king(),
            self.has_white_queen() != other.has_white_queen(),
            self.has_black_king() != other.has_black_king(),
            self.has_black_queen() != other.has_black_queen(),
        )
    }

    /// The squares that must be free for the castles of this set: for each
    /// of its rights, the squares between that king and that rook.
    pub fn castle_path(&self) -> (r: OxideBitboard)
        ensures
            forall|i: int| #[trigger] r.has(i) == on_castle_path(*self, i),
    {
        let mut path = 0u64;
        proof {
            lemma_bit_masks();
        }
        if self.has_white_king() {
            proof {
                lemma_bit_or(path, WHITE_KING_CLEAR);
            }
            path = path | WHITE_KING_CLEAR;
        }
        if self.has_white_queen() {
            proof {
                lemma_bit_or(path, WHITE_QUEEN_CLEAR);
            }
            path = path | WHITE_QUEEN_CLEAR;
        }
        if self.has_black_king() {
            proof {
                lemma_bit_or(path, BLACK_KING_CLEAR);
            }
            path = path | BLACK_KING_CLEAR;
        }
        if self.has_black_queen() {
            proof {
                lemma_bit_or(path, BLACK_QUEEN_CLEAR);
            }
            path = path | BLACK_QUEEN_CLEAR;
        }
        proof {
            assert forall|i: int| #[trigger] bit(path, i) == on_castle_path(*self, i) by {
                if 0 <= i < 64 {
                    bv_castle_paths(i as u64);
                }
            }
        }
        OxideBitboard(path)
    }

    /// The set as text: the letters of its rights, or `-` for none.
    pub fn to_string(&self) -> (r: String)
        ensures
            r@ == self.text(),
    {
        let mut out = String::new();
        if self.bits() == 0 {
            push_char(&mut out, '-');
            assert(out@ =~= self.text());
        } else {
            if self.has_white_king() {
                push_char(&mut out, 'K');
            }
            if self.has_white_queen() {
                push_char(&mut out, 'Q');
            }
            if self.has_black_king() {
                push_char(&mut out, 'k');
            }
            if self.has_black_queen() {
                push_char(&mut out, 'q');
            }
            assert(out@ =~= self.text());
        }
        out
    }

    /// Reads a set of rights from the bytes of a castle field: `-` alone for
    /// no right, or the letters of the rights and nothing else.
    pub fn parse(text: &[u8]) -> (r: Result<OxideCastleRights, OxideFenParseError>)
        ensures
            r == parsed_rights(text@, 0, OxideCastleRights::NoRights),
    {
        let mut rights = OxideCastleRights::NoRights;
        let mut k: usize = 0;
        while k < text.len()
            invariant
                k <= text@.len(),
                parsed_rights(text@, 0, OxideCastleRights::NoRights) == parsed_rights(text@, k as int, rights),
            decreases text@.len() - k,
        {
            let c = text[k];
            if c == 0x4b {
                rights = rights.united(OxideCastleRights::WhiteKing);
            } else if c == 0x6b {
                rights = rights.united(OxideCastleRights::BlackKing);
            } else if c == 0x51 {
                rights = rights.united(OxideCastleRights::WhiteQueen);
            } else if c == 0x71 {
                rights = rights.united(OxideCastleRights::BlackQueen);
            } else if c == 0x2d && k == 0 && text.len() == 1 {
                return Ok(rights);
            } else {
                return Err(OxideFenParseError::CastleParseError);
            }
            k = k + 1;
        }
        Ok(rights)
    }

    /// Reads a set of rights from the text of a castle field.
    pub fn try_from(text: &str) -> (r: Result<OxideCastleRights, OxideFenParseError>)
        ensures
            r == parsed_rights(text.spec_bytes(), 0, OxideCastleRights::NoRights),
    {
        Self::parse(text.as_bytes())
    }
}

impl core::ops::BitOr for OxideCastleRights {
    type Output = OxideCastleRights;

    /// The rights that are in either set.
    fn bitor(self, rhs: OxideCastleRights) -> (r: OxideCastleRights) {
        self.united(rhs)
    }
}

impl vstd::std_specs::ops::BitOrSpecImpl for OxideCastleRights {
    open spec fn obeys_bitor_spec() -> bool {
        true
    }

    open spec fn bitor_req(self, rhs: OxideCastleRights) -> bool {
        true
    }

    open spec fn bitor_spec(self, rhs: OxideCastleRights) -> OxideCastleRights {
        self.union(rhs)
    }
}

impl core::ops::BitAnd for OxideCastleRights {
    type Output = OxideCastleRights;

    /// The rights that are in both sets.
    fn bitand(self, rhs: OxideCastleRights) -> (r: OxideCastleRights) {
        self.shared(rhs)
    }
}

impl vstd::std_specs::ops::BitAndSpecImpl for OxideCastleRights {
    open spec fn obeys_bitand_spec() -> bool {
        true
    }

    open spec fn bitand_req(self, rhs: OxideCastleRights) -> bool {
        true
    }

    open spec fn bitand_spec(self, rhs: OxideCastleRights) -> OxideCastleRights {
        self.common(rhs)
    }
}

impl core::ops::Not for OxideCastleRights {
    type Output = OxideCastleRights;

    /// The rights that are not in the set.
    fn not(self) -> (r: OxideCastleRights) {
        self.inverted()
    }
}

impl vstd::std_specs::ops::NotSpecImpl for OxideCastleRights {
    open spec fn obeys_not_spec() -> bool {
        true
    }

    open spec fn not_req(self) -> bool {
        true
    }

    open spec fn not_spec(self) -> OxideCastleRights {
        self.complement()
    }
}

/// A set of rights is determined by the four rights it holds or lacks.
pub proof fn lemma_rights_ext(a: OxideCastleRights, b: OxideCastleRights)
    requires
        a.white_king() == b.white_king(),
        a.white_queen() == b.white_queen(),
        a.black_king() == b.black_king(),
        a.black_queen() == b.black_queen(),
    ensures
        a == b,
{
}

/// The set made of four flags holds exactly the rights flagged.
pub proof fn lemma_of_flags(white_king: bool, white_queen: bool, black_king: bool, black_queen: bool)
    ensures
        OxideCastleRights::of_flags(white_king, white_queen, black_king, black_queen).white_king()
            == white_king,
        OxideCastleRights::of_flags(white_king, white_queen, black_king, black_queen).white_queen()
            == white_queen,
        OxideCastleRights::of_flags(white_king, white_queen, black_king, black_queen).black_king()
            == black_king,
        OxideCastleRights::of_flags(white_king, white_queen, black_king, black_queen).black_queen()
            == black_queen,
{
}

/// Taking from a set what tells it from another set gives that other set.
pub proof fn lemma_difference_twice(a: OxideCastleRights, b: OxideCastleRights)
    ensures
        a.difference(a.difference(b)) == b,
{
    let d = a.difference(b);
    lemma_of_flags(
        a.white_king() != b.white_king(),
        a.white_queen() != b.white_queen(),
        a.black_king() != b.black_king(),
        a.black_queen() != b.black_queen(),
    );
    let e = a.difference(d);
    lemma_of_flags(
        a.white_king() != d.white_king(),
        a.white_queen() != d.white_queen(),
        a.black_king() != d.black_king(),
        a.black_queen() != d.black_queen(),
    );
    lemma_rights_ext(e, b);
}

/// What a set gains by the rights of another set is what tells it from
/// their union: the rights of the other set that it does not hold.
pub proof fn lemma_difference_of_union(a: OxideCastleRights, c: OxideCastleRights)
    ensures
        a.difference(a.union(c)) == c.without(a),
{
    let u = a.union(c);
    lemma_of_flags(
        a.white_king() || c.white_king(),
        a.white_queen() || c.white_queen(),
        a.black_king() || c.black_king(),
        a.black_queen() || c.black_queen(),
    );
    lemma_of_flags(
        a.white_king() != u.white_king(),
        a.white_queen() != u.white_queen(),
        a.black_king() != u.black_king(),
        a.black_queen() != u.black_queen(),
    );
    let n = a.complement();
    lemma_of_flags(!a.white_king(), !a.white_queen(), !a.black_king(), !a.black_queen());
    lemma_of_flags(
        c.white_king() && n.white_king(),
        c.white_queen() && n.white_queen(),
        c.black_king() && n.black_king(),
        c.black_queen() && n.black_queen(),
    );
    lemma_rights_ext(a.difference(u), c.without(a));
}

/// What a set loses by the rights of another set is what tells it from
/// what is left: the rights of the other set that it holds.
pub proof fn lemma_difference_of_rest(a: OxideCastleRights, c: OxideCastleRights)
    ensures
        a.difference(a.without(c)) == a.common(c),
{
    let n = c.complement();
    lemma_of_flags(!c.white_king(), !c.white_queen(), !c.black_king(), !c.black_queen());
    let w = a.without(c);
    lemma_of_flags(
        a.white_king() && n.white_king(),
        a.white_queen() && n.white_queen(),
        a.black_king() && n.black_king(),
        a.black_queen() && n.black_queen(),
    );
    lemma_of_flags(
        a.white_king() != w.white_king(),
        a.white_queen() != w.white_queen(),
        a.black_king() != w.black_king(),
        a.black_queen() != w.black_queen(),
    );
    lemma_of_flags(
        a.white_king() && c.white_king(),
        a.white_queen() && c.white_queen(),
        a.black_king() && c.black_king(),
        a.black_queen() && c.black_queen(),
    );
    lemma_rights_ext(a.difference(w), a.common(c));
}

} // verus!
