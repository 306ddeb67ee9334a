use vstd::prelude::*;
use vstd::string::StringExecFns;

verus! {

/// Which side a piece, a move or a viewpoint belongs to.
#[derive(Debug, PartialEq, Eq, Clone, Copy, Structural)]
pub enum Player {
    White,
    Black,
}

/// The fill class of a rendered board square: the two base checker shades,
/// and the highlight shade used for the squares of the most recent move.
#[derive(Debug, PartialEq, Eq, Clone, Copy, Structural)]
pub enum SquareColor {
    Dark,
    Light,
    Yellow,
}

pub const RANK_COUNT: u8 = 8;
pub const FILE_COUNT: u8 = 8;
pub const SQ_COUNT: u8 = 64;

/// A single square of the board, encoded as `file + 8 * rank` with both
/// coordinates zero-based, so values 0..=63 name real squares ("a1".."h8")
/// and 64 is the "no square" sentinel.
#[derive(Debug, PartialEq, Eq, Clone, Copy, Structural)]
pub struct SQ(u8);

impl SQ {
    /// The raw encoding of this square.
    pub closed spec fn spec_value(self) -> u8 {
        self.0
    }

    /// A square is valid when it names one of the 64 real board squares.
    pub open spec fn is_valid(self) -> bool {
        self.spec_value() < 64
    }

    /// Builds the square for a file letter 'a'..='h' and a rank number 1..=8,
    /// so that `new('a', 1)` is square 0 and `new('h', 8)` is square 63.
    pub fn new(file: char, rank: u8) -> (s: Self)
        requires
            'a' as int <= file as int <= 'h' as int,
            1 <= rank <= 8,
        ensures
            s.spec_value() == (file as int - 'a' as int) + (rank - 1) * 8,
            s.is_valid(),
    {
        SQ(file as u8 - 97 + (rank - 1) * 8)
    }

    /// The raw encoding, for callers that need the numeric form.
    pub fn value(self) -> (v: u8)
        ensures
            v == self.spec_value(),
    {
        self.0
    }
}

/// The algebraic label of a square value: the ASCII code of its file letter
/// and its rank number, e.g. square 0 -> (b'a', 1).
pub open spec fn spec_sq_label(v: u8) -> (u8, u8)
    recommends
        v < 64,
{
    ((v % 8 + 97) as u8, (v / 8 + 1) as u8)
}

/// The algebraic label shown at grid cell (file, rank) under a perspective.
/// Grid rank 0 is the top row of the rendered image: rank 8 when viewed from
/// White's side, rank 1 when viewed from Black's side.
pub open spec fn spec_cell_label(file: u8, rank: u8, perspective: Player) -> (u8, u8)
    recommends
        file < 8,
        rank < 8,
{
    if perspective == Player::White {
        ((file + 97) as u8, (8 - rank) as u8)
    } else {
        ((104 - file) as u8, (rank + 1) as u8)
    }
}

/// Computes the algebraic label of a valid square.
pub fn sq_label(sq: SQ) -> (l: (u8, u8))
    requires
        sq.is_valid(),
    ensures
        l == spec_sq_label(sq.spec_value()),
{
    let v = sq.value();
    (v % 8 + 97, v / 8 + 1)
}

/// Computes the label of grid cell (file, rank) under a perspective. This is
/// the one shared perspective transform: grid reversal, square highlighting
/// and coordinate drawing all go through it.
pub fn cell_label(file: u8, rank: u8, perspective: Player) -> (l: (u8, u8))
    requires
        file < 8,
        rank < 8,
    ensures
        l == spec_cell_label(file, rank, perspective),
{
    match perspective {
        Player::White => (file + 97, 8 - rank),
        Player::Black => (104 - file, rank + 1),
    }
}


/// Perspective symmetry of the shared label transform: the label of cell
/// (file, rank) seen from White's side is the label of the point-reflected
/// cell (7 - file, 7 - rank) seen from Black's side.
pub proof fn lemma_label_point_reflection(file: u8, rank: u8)
    requires
        file < 8,
        rank < 8,
    ensures
        spec_cell_label(file, rank, Player::White) == spec_cell_label(
            (7 - file) as u8,
            (7 - rank) as u8,
            Player::Black,
        ),
{
}


/// The name of each square fill class, as the sprite directories use it.
pub open spec fn spec_shade_name(c: SquareColor) -> Seq<char> {
    match c {
        SquareColor::Dark => "dark"@,
        SquareColor::Light => "light"@,
        SquareColor::Yellow => "yellow"@,
    }
}

impl SquareColor {
    /// The name of this fill class.
    pub fn shade_name(&self) -> (s: String)
        ensures
            s@ == spec_shade_name(*self),
    {
        match self {
            SquareColor::Dark => String::from_str("dark"),
            SquareColor::Light => String::from_str("light"),
            SquareColor::Yellow => String::from_str("yellow"),
        }
    }
}

/// The letter naming board file `f`: 'a' for file 0 up to 'h' for file 7.
pub open spec fn spec_file_char(f: u8) -> char
    recommends
        f < 8,
{
    if f == 0 {
        'a'
    } else if f == 1 {
        'b'
    } else if f == 2 {
        'c'
    } else if f == 3 {
        'd'
    } else if f == 4 {
        'e'
    } else if f == 5 {
        'f'
    } else if f == 6 {
        'g'
    } else {
        'h'
    }
}

/// Computes the letter naming a board file.
pub fn file_char(f: u8) -> (c: char)
    requires
        f < 8,
    ensures
        c == spec_file_char(f),
{
    if f == 0 {
        'a'
    } else if f == 1 {
        'b'
    } else if f == 2 {
        'c'
    } else if f == 3 {
        'd'
    } else if f == 4 {
        'e'
    } else if f == 5 {
        'f'
    } else if f == 6 {
        'g'
    } else {
        'h'
    }
}

} // verus!
