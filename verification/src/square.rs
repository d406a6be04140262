//! The sixty-four squares of the board.
use vstd::prelude::*;
use crate::bitboard::{OxideBitboard, lowest_square};
use crate::bits::{file_of, lemma_bit_single, lemma_lowest_bit, rank_of};
use crate::rays::Direction;
use crate::text::push_char;

verus! {

/// A square, named by file letter and rank digit. Squares are numbered by
/// rank times eight plus file, so that A1 is 0 and H8 is 63.
#[derive(Clone, Copy, Debug, PartialEq, Eq, Structural, Hash)]
pub enum OxideSquare {
    A1, B1, C1, D1, E1, F1, G1, H1,
    A2, B2, C2, D2, E2, F2, G2, H2,
    A3, B3, C3, D3, E3, F3, G3, H3,
    A4, B4, C4, D4, E4, F4, G4, H4,
    A5, B5, C5, D5, E5, F5, G5, H5,
    A6, B6, C6, D6, E6, F6, G6, H6,
    A7, B7, C7, D7, E7, F7, G7, H7,
    A8, B8, C8, D8, E8, F8, G8, H8,
}

impl OxideSquare {
    /// Every square in the order of their numbers.
    pub const SQUARES: [OxideSquare; 64] = [
        OxideSquare::A1, OxideSquare::B1, OxideSquare::C1, OxideSquare::D1,
        OxideSquare::E1, OxideSquare::F1, OxideSquare::G1, OxideSquare::H1,
        OxideSquare::A2, OxideSquare::B2, OxideSquare::C2, OxideSquare::D2,
        OxideSquare::E2, OxideSquare::F2, OxideSquare::G2, OxideSquare::H2,
        OxideSquare::A3, OxideSquare::B3, OxideSquare::C3, OxideSquare::D3,
        OxideSquare::E3, OxideSquare::F3, OxideSquare::G3, OxideSquare::H3,
        OxideSquare::A4, OxideSquare::B4, OxideSquare::C4, OxideSquare::D4,
        OxideSquare::E4, OxideSquare::F4, OxideSquare::G4, OxideSquare::H4,
        OxideSquare::A5, OxideSquare::B5, OxideSquare::C5, OxideSquare::D5,
        OxideSquare::E5, OxideSquare::F5, OxideSquare::G5, OxideSquare::H5,
        OxideSquare::A6, OxideSquare::B6, OxideSquare::C6, OxideSquare::D6,
        OxideSquare::E6, OxideSquare::F6, OxideSquare::G6, OxideSquare::H6,
        OxideSquare::A7, OxideSquare::B7, OxideSquare::C7, OxideSquare::D7,
        OxideSquare::E7, OxideSquare::F7, OxideSquare::G7, OxideSquare::H7,
        OxideSquare::A8, OxideSquare::B8, OxideSquare::C8, OxideSquare::D8,
        OxideSquare::E8, OxideSquare::F8, OxideSquare::G8, OxideSquare::H8,
    ];

    /// The number of this square, from 0 for A1 to 63 for H8.
    pub open spec fn index(self) -> int {
        self as int
    }

    /// Whether one step in direction `dir` from this square stays on the board.
    pub open spec fn can_step(self, dir: Direction) -> bool {
        0 <= file_of(self.index()) + dir.dx() < 8 && 0 <= rank_of(self.index()) + dir.dy() < 8
    }

    /// The square with the given number, or nothing for a number off the board.
    pub fn from_offset(offset: u8) -> (r: Option<OxideSquare>)
        ensures
            offset < 64 ==> r.is_some() && r.unwrap().index() == offset,
            offset >= 64 ==> r.is_none(),
    {
        match offset {
            0 => Some(OxideSquare::A1),
            1 => Some(OxideSquare::B1),
            2 => Some(OxideSquare::C1),
            3 => Some(OxideSquare::D1),
            4 => Some(OxideSquare::E1),
            5 => Some(OxideSquare::F1),
            6 => Some(OxideSquare::G1),
            7 => Some(OxideSquare::H1),
            8 => Some(OxideSquare::A2),
            9 => Some(OxideSquare::B2),
            10 => Some(OxideSquare::C2),
            11 => Some(OxideSquare::D2),
            12 => Some(OxideSquare::E2),
            13 => Some(OxideSquare::F2),
            14 => Some(OxideSquare::G2),
            15 => Some(OxideSquare::H2),
            16 => Some(OxideSquare::A3),
            17 => Some(OxideSquare::B3),
            18 => Some(OxideSquare::C3),
            19 => Some(OxideSquare::D3),
            20 => Some(OxideSquare::E3),
            21 => Some(OxideSquare::F3),
            22 => Some(OxideSquare::G3),
            23 => Some(OxideSquare::H3),
            24 => Some(OxideSquare::A4),
            25 => Some(OxideSquare::B4),
            26 => Some(OxideSquare::C4),
            27 => Some(OxideSquare::D4),
            28 => Some(OxideSquare::E4),
            29 => Some(OxideSquare::F4),
            30 => Some(OxideSquare::G4),
            31 => Some(OxideSquare::H4),
            32 => Some(OxideSquare::A5),
            33 => Some(OxideSquare::B5),
            34 => Some(OxideSquare::C5),
            35 => Some(OxideSquare::D5),
            36 => Some(OxideSquare::E5),
            37 => Some(OxideSquare::F5),
            38 => Some(OxideSquare::G5),
            39 => Some(OxideSquare::H5),
            40 => Some(OxideSquare::A6),
            41 => Some(OxideSquare::B6),
            42 => Some(OxideSquare::C6),
            43 => Some(OxideSquare::D6),
            44 => Some(OxideSquare::E6),
            45 => Some(OxideSquare::F6),
            46 => Some(OxideSquare::G6),
            47 => Some(OxideSquare::H6),
            48 => Some(OxideSquare::A7),
            49 => Some(OxideSquare::B7),
            50 => Some(OxideSquare::C7),
            51 => Some(OxideSquare::D7),
            52 => Some(OxideSquare::E7),
            53 => Some(OxideSquare::F7),
            54 => Some(OxideSquare::G7),
            55 => Some(OxideSquare::H7),
            56 => Some(OxideSquare::A8),
            57 => Some(OxideSquare::B8),
            58 => Some(OxideSquare::C8),
            59 => Some(OxideSquare::D8),
            60 => Some(OxideSquare::E8),
            61 => Some(OxideSquare::F8),
            62 => Some(OxideSquare::G8),
            63 => Some(OxideSquare::H8),
            _ => None,
        }
    }

    /// The square with the given number, which must be on the board.
    pub fn at(offset: u8) -> (r: OxideSquare)
        requires
            offset < 64,
        ensures
            r.index() == offset,
    {
        match Self::from_offset(offset) {
            Some(square) => square,
            None => vstd::pervasive::unreached(),
        }
    }

    /// The lowest square of a set, or nothing for the empty set.
    pub fn from_mask(mask: OxideBitboard) -> (r: Option<OxideSquare>)
        ensures
            mask.0 == 0 <==> r.is_none(),
            r.is_some() ==> r.unwrap().index() == lowest_square(mask.0),
    {
        if mask.0 > 0 {
            proof {
                lemma_lowest_bit(mask.0);
            }
            Self::from_offset(mask.0.trailing_zeros() as u8)
        } else {
            None
        }
    }

    /// The file of this square, 0 for A up to 7 for H.
    pub fn x_offset(self) -> (r: u8)
        ensures
            r == file_of(self.index()),
    {
        self.offset() % 8
    }

    /// The rank of this square, 0 for the first up to 7 for the eighth.
    pub fn y_offset(self) -> (r: u8)
        ensures
            r == rank_of(self.index()),
    {
        self.offset() / 8
    }

    /// The set that holds this square alone.
    pub fn to_mask(self) -> (r: OxideBitboard)
        ensures
            r.0 == 1u64 << (self.index() as u64),
            forall|i: int| #[trigger] r.has(i) == (i == self.index()),
    {
        let offset = self.offset();
        proof {
            lemma_bit_single(offset as u64);
        }
        OxideBitboard(1u64 << (offset as u64))
    }

    /// The number of this square.
    pub fn offset(self) -> (r: u8)
        ensures
            r == self.index(),
            r < 64,
    {
        self as u8
    }

    /// The neighbouring square one step to the north. The
    /// step must stay on the board.
    pub fn north_shift(self) -> (r: OxideSquare)
        requires
            self.can_step(Direction::North),
        ensures
            r.index() == self.index() + Direction::North.delta(),
    {
        Self::at(self.offset() + 8)
    }

    /// The neighbouring square one step to the south. The
    /// step must stay on the board.
    pub fn south_shift(self) -> (r: OxideSquare)
        requires
            self.can_step(Direction::South),
        ensures
            r.index() == self.index() + Direction::South.delta(),
    {
        Self::at(self.offset() - 8)
    }

    /// The neighbouring square one step to the east. The
    /// step must stay on the board.
    pub fn east_shift(self) -> (r: OxideSquare)
        requires
            self.can_step(Direction::East),
        ensures
            r.index() == self.index() + Direction::East.delta(),
    {
        Self::at(self.offset() + 1)
    }

    /// The neighbouring square one step to the west. The
    /// step must stay on the board.
    pub fn west_shift(self) -> (r: OxideSquare)
        requires
            self.can_step(Direction::West),
        ensures
            r.index() == self.index() + Direction::West.delta(),
    {
        Self::at(self.offset() - 1)
    }

    /// The neighbouring square one step to the north-east. The
    /// step must stay on the board.
    pub fn north_east_shift(self) -> (r: OxideSquare)
        requires
            self.can_step(Direction::NorthEast),
        ensures
            r.index() == self.index() + Direction::NorthEast.delta(),
    {
        Self::at(self.offset() + 9)
    }

    /// The neighbouring square one step to the north-west. The
    /// step must stay on the board.
    pub fn north_west_shift(self) -> (r: OxideSquare)
        requires
            self.can_step(Direction::NorthWest),
        ensures
            r.index() == self.index() + Direction::NorthWest.delta(),
    {
        Self::at(self.offset() + 7)
    }

    /// The neighbouring square one step to the south-east. The
    /// step must stay on the board.
    pub fn south_east_shift(self) -> (r: OxideSquare)
        requires
            self.can_step(Direction::SouthEast),
        ensures
            r.index() == self.index() + Direction::SouthEast.delta(),
    {
        Self::at(self.offset() - 7)
    }

    /// The neighbouring square one step to the south-west. The
    /// step must stay on the board.
    pub fn south_west_shift(self) -> (r: OxideSquare)
        requires
            self.can_step(Direction::SouthWest),
        ensures
            r.index() == self.index() + Direction::SouthWest.delta(),
    {
        Self::at(self.offset() - 9)
    }

    /// The capital letter of the file of this square.
    pub fn file_char(self) -> (r: char)
        ensures
            r == file_letter(file_of(self.index())),
    {
        (0x41u8 + self.x_offset()) as char
    }

    /// The digit of the rank of this square.
    pub fn rank_char(self) -> (r: char)
        ensures
            r == rank_digit(rank_of(self.index())),
    {
        (0x31u8 + self.y_offset()) as char
    }

    /// The name of this square: its file as a capital letter, then its rank
    /// as a digit.
    pub fn to_string(&self) -> (r: String)
        ensures
            r@ == seq![file_letter(file_of(self.index())), rank_digit(rank_of(self.index()))],
    {
        let mut text = String::new();
        push_char(&mut text, self.file_char());
        push_char(&mut text, self.rank_char());
        assert(text@ =~= seq![file_letter(file_of(self.index())), rank_digit(rank_of(self.index()))]);
        text
    }
}

/// The capital letter that names file `f`.
pub open spec fn file_letter(f: int) -> char {
    ((0x41 + f) as u8) as char
}

/// The digit that names rank `r`.
pub open spec fn rank_digit(r: int) -> char {
    ((0x31 + r) as u8) as char
}

/// The square whose number is `i`.
pub open spec fn square_of(i: int) -> OxideSquare {
    choose|square: OxideSquare| square.index() == i
}

/// Every number from 0 to 63 is the number of one square, and of one only.
pub proof fn lemma_square_of(i: int)
    requires
        0 <= i < 64,
    ensures
        square_of(i).index() == i,
        forall|square: OxideSquare| square.index() == i ==> square == square_of(i),
{
    if i == 0 {
        assert(OxideSquare::A1.index() == 0);
    } else if i == 1 {
        assert(OxideSquare::B1.index() == 1);
    } else if i == 2 {
        assert(OxideSquare::C1.index() == 2);
    } else if i == 3 {
        assert(OxideSquare::D1.index() == 3);
    } else if i == 4 {
        assert(OxideSquare::E1.index() == 4);
    } else if i == 5 {
        assert(OxideSquare::F1.index() == 5);
    } else if i == 6 {
        assert(OxideSquare::G1.index() == 6);
    } else if i == 7 {
        assert(OxideSquare::H1.index() == 7);
    } else if i == 8 {
        assert(OxideSquare::A2.index() == 8);
    } else if i == 9 {
        assert(OxideSquare::B2.index() == 9);
    } else if i == 10 {
        assert(OxideSquare::C2.index() == 10);
    } else if i == 11 {
        assert(OxideSquare::D2.index() == 11);
    } else if i == 12 {
        assert(OxideSquare::E2.index() == 12);
    } else if i == 13 {
        assert(OxideSquare::F2.index() == 13);
    } else if i == 14 {
        assert(OxideSquare::G2.index() == 14);
    } else if i == 15 {
        assert(OxideSquare::H2.index() == 15);
    } else if i == 16 {
        assert(OxideSquare::A3.index() == 16);
    } else if i == 17 {
        assert(OxideSquare::B3.index() == 17);
    } else if i == 18 {
        assert(OxideSquare::C3.index() == 18);
    } else if i == 19 {
        assert(OxideSquare::D3.index() == 19);
    } else if i == 20 {
        assert(OxideSquare::E3.index() == 20);
    } else if i == 21 {
        assert(OxideSquare::F3.index() == 21);
    } else if i == 22 {
        assert(OxideSquare::G3.index() == 22);
    } else if i == 23 {
        assert(OxideSquare::H3.index() == 23);
    } else if i == 24 {
        assert(OxideSquare::A4.index() == 24);
    } else if i == 25 {
        assert(OxideSquare::B4.index() == 25);
    } else if i == 26 {
        assert(OxideSquare::C4.index() == 26);
    } else if i == 27 {
        assert(OxideSquare::D4.index() == 27);
    } else if i == 28 {
        assert(OxideSquare::E4.index() == 28);
    } else if i == 29 {
        assert(OxideSquare::F4.index() == 29);
    } else if i == 30 {
        assert(OxideSquare::G4.index() == 30);
    } else if i == 31 {
        assert(OxideSquare::H4.index() == 31);
    } else if i == 32 {
        assert(OxideSquare::A5.index() == 32);
    } else if i == 33 {
        assert(OxideSquare::B5.index() == 33);
    } else if i == 34 {
        assert(OxideSquare::C5.index() == 34);
    } else if i == 35 {
        assert(OxideSquare::D5.index() == 35);
    } else if i == 36 {
        assert(OxideSquare::E5.index() == 36);
    } else if i == 37 {
        assert(OxideSquare::F5.index() == 37);
    } else if i == 38 {
        assert(OxideSquare::G5.index() == 38);
    } else if i == 39 {
        assert(OxideSquare::H5.index() == 39);
    } else if i == 40 {
        assert(OxideSquare::A6.index() == 40);
    } else if i == 41 {
        assert(OxideSquare::B6.index() == 41);
    } else if i == 42 {
        assert(OxideSquare::C6.index() == 42);
    } else if i == 43 {
        assert(OxideSquare::D6.index() == 43);
    } else if i == 44 {
        assert(OxideSquare::E6.index() == 44);
    } else if i == 45 {
        assert(OxideSquare::F6.index() == 45);
    } else if i == 46 {
        assert(OxideSquare::G6.index() == 46);
    } else if i == 47 {
        assert(OxideSquare::H6.index() == 47);
    } else if i == 48 {
        assert(OxideSquare::A7.index() == 48);
    } else if i == 49 {
        assert(OxideSquare::B7.index() == 49);
    } else if i == 50 {
        assert(OxideSquare::C7.index() == 50);
    } else if i == 51 {
        assert(OxideSquare::D7.index() == 51);
    } else if i == 52 {
        assert(OxideSquare::E7.index() == 52);
    } else if i == 53 {
        assert(OxideSquare::F7.index() == 53);
    } else if i == 54 {
        assert(OxideSquare::G7.index() == 54);
    } else if i == 55 {
        assert(OxideSquare::H7.index() == 55);
    } else if i == 56 {
        assert(OxideSquare::A8.index() == 56);
    } else if i == 57 {
        assert(OxideSquare::B8.index() == 57);
    } else if i == 58 {
        assert(OxideSquare::C8.index() == 58);
    } else if i == 59 {
        assert(OxideSquare::D8.index() == 59);
    } else if i == 60 {
        assert(OxideSquare::E8.index() == 60);
    } else if i == 61 {
        assert(OxideSquare::F8.index() == 61);
    } else if i == 62 {
        assert(OxideSquare::G8.index() == 62);
    } else if i == 63 {
        assert(OxideSquare::H8.index() == 63);
    }
}

/// The number of a square names that square.
pub proof fn lemma_square_of_index(square: OxideSquare)
    ensures
        square_of(square.index()) == square,
        0 <= square.index() < 64,
{
    lemma_square_of(square.index());
}

} // verus!
