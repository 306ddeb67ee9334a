use crate::square::Player;
use vstd::prelude::*;
use vstd::string::StringExecFns;

verus! {

/// The kind of a chess piece. `NoPiece` and `All` are sentinel values carried
/// over from the engine's piece encoding; they never stand for a placed piece.
#[derive(Debug, PartialEq, Eq, Clone, Copy, Structural)]
pub enum PieceKind {
    NoPiece,
    Pawn,
    Knight,
    Bishop,
    Rook,
    Queen,
    King,
    All,
}

/// A colored piece: a kind together with the side that owns it.
#[derive(Debug, PartialEq, Eq, Clone, Copy, Structural)]
pub struct Piece {
    pub kind: PieceKind,
    pub color: Player,
}

/// The name of each piece kind, as the sprite files use it; the sentinels
/// have no sprite and read "unknown".
pub open spec fn spec_kind_name(k: PieceKind) -> Seq<char> {
    match k {
        PieceKind::Pawn => "pawn"@,
        PieceKind::Knight => "knight"@,
        PieceKind::Bishop => "bishop"@,
        PieceKind::Rook => "rook"@,
        PieceKind::Queen => "queen"@,
        PieceKind::King => "king"@,
        PieceKind::NoPiece => "unknown"@,
        PieceKind::All => "unknown"@,
    }
}

impl PieceKind {
    /// The name of this piece kind.
    pub fn kind_name(&self) -> (s: String)
        ensures
            s@ == spec_kind_name(*self),
    {
        match self {
            PieceKind::Pawn => String::from_str("pawn"),
            PieceKind::Knight => String::from_str("knight"),
            PieceKind::Bishop => String::from_str("bishop"),
            PieceKind::Rook => String::from_str("rook"),
            PieceKind::Queen => String::from_str("queen"),
            PieceKind::King => String::from_str("king"),
            PieceKind::NoPiece => String::from_str("unknown"),
            PieceKind::All => String::from_str("unknown"),
        }
    }
}

/// A piece that can actually stand on a board square: neither sentinel kind.
pub open spec fn spec_placeable(p: Piece) -> bool {
    p.kind != PieceKind::NoPiece && p.kind != PieceKind::All
}

/// The piece denoted by a single portable-notation character, if any:
/// uppercase is White, lowercase is Black.
pub open spec fn spec_piece_of_char(c: char) -> Option<Piece> {
    if c == 'P' {
        Some(Piece { kind: PieceKind::Pawn, color: Player::White })
    } else if c == 'p' {
        Some(Piece { kind: PieceKind::Pawn, color: Player::Black })
    } else if c == 'R' {
        Some(Piece { kind: PieceKind::Rook, color: Player::White })
    } else if c == 'r' {
        Some(Piece { kind: PieceKind::Rook, color: Player::Black })
    } else if c == 'N' {
        Some(Piece { kind: PieceKind::Knight, color: Player::White })
    } else if c == 'n' {
        Some(Piece { kind: PieceKind::Knight, color: Player::Black })
    } else if c == 'B' {
        Some(Piece { kind: PieceKind::Bishop, color: Player::White })
    } else if c == 'b' {
        Some(Piece { kind: PieceKind::Bishop, color: Player::Black })
    } else if c == 'Q' {
        Some(Piece { kind: PieceKind::Queen, color: Player::White })
    } else if c == 'q' {
        Some(Piece { kind: PieceKind::Queen, color: Player::Black })
    } else if c == 'K' {
        Some(Piece { kind: PieceKind::King, color: Player::White })
    } else if c == 'k' {
        Some(Piece { kind: PieceKind::King, color: Player::Black })
    } else {
        None
    }
}

/// The portable-notation character of a placeable piece; the inverse of
/// `spec_piece_of_char` on placeable pieces.
pub open spec fn spec_char_of_piece(p: Piece) -> char
    recommends
        spec_placeable(p),
{
    match (p.kind, p.color) {
        (PieceKind::Pawn, Player::White) => 'P',
        (PieceKind::Pawn, Player::Black) => 'p',
        (PieceKind::Rook, Player::White) => 'R',
        (PieceKind::Rook, Player::Black) => 'r',
        (PieceKind::Knight, Player::White) => 'N',
        (PieceKind::Knight, Player::Black) => 'n',
        (PieceKind::Bishop, Player::White) => 'B',
        (PieceKind::Bishop, Player::Black) => 'b',
        (PieceKind::Queen, Player::White) => 'Q',
        (PieceKind::Queen, Player::Black) => 'q',
        (PieceKind::King, Player::White) => 'K',
        (PieceKind::King, Player::Black) => 'k',
        _ => ' ',
    }
}

/// Whatever piece a character decodes to is placeable.
pub proof fn lemma_piece_char_placeable(c: char)
    ensures
        spec_piece_of_char(c) matches Some(p) ==> spec_placeable(p),
{
}

/// Decoding the character of a placeable piece yields that piece back.
pub proof fn lemma_piece_char_round_trip(p: Piece)
    requires
        spec_placeable(p),
    ensures
        spec_piece_of_char(spec_char_of_piece(p)) == Some(p),
{
}

impl Piece {
    /// Builds a piece from its parts.
    pub fn new(kind: PieceKind, color: Player) -> (p: Self)
        ensures
            p == (Piece { kind, color }),
    {
        Piece { kind, color }
    }

    /// Decodes a piece from a single portable-notation character; any
    /// character that denotes no piece is rejected.
    pub fn from_fen(c: char) -> (r: Result<Piece, String>)
        ensures
            r matches Ok(p) ==> spec_piece_of_char(c) == Some(p),
            r is Err <==> spec_piece_of_char(c) is None,
            r matches Err(e) ==> e@ == spec_invalid_piece_message(c),
    {
        match c {
            'P' => Ok(Piece { kind: PieceKind::Pawn, color: Player::White }),
            'p' => Ok(Piece { kind: PieceKind::Pawn, color: Player::Black }),
            'R' => Ok(Piece { kind: PieceKind::Rook, color: Player::White }),
            'r' => Ok(Piece { kind: PieceKind::Rook, color: Player::Black }),
            'N' => Ok(Piece { kind: PieceKind::Knight, color: Player::White }),
            'n' => Ok(Piece { kind: PieceKind::Knight, color: Player::Black }),
            'B' => Ok(Piece { kind: PieceKind::Bishop, color: Player::White }),
            'b' => Ok(Piece { kind: PieceKind::Bishop, color: Player::Black }),
            'Q' => Ok(Piece { kind: PieceKind::Queen, color: Player::White }),
            'q' => Ok(Piece { kind: PieceKind::Queen, color: Player::Black }),
            'K' => Ok(Piece { kind: PieceKind::King, color: Player::White }),
            'k' => Ok(Piece { kind: PieceKind::King, color: Player::Black }),
            _ => Err(invalid_piece_char_message(c)),
        }
    }
}

/// Encodes a placeable piece as its portable-notation character.
pub fn char_of_piece(p: Piece) -> (c: char)
    requires
        spec_placeable(p),
    ensures
        c == spec_char_of_piece(p),
{
    match (p.kind, p.color) {
        (PieceKind::Pawn, Player::White) => 'P',
        (PieceKind::Pawn, Player::Black) => 'p',
        (PieceKind::Rook, Player::White) => 'R',
        (PieceKind::Rook, Player::Black) => 'r',
        (PieceKind::Knight, Player::White) => 'N',
        (PieceKind::Knight, Player::Black) => 'n',
        (PieceKind::Bishop, Player::White) => 'B',
        (PieceKind::Bishop, Player::Black) => 'b',
        (PieceKind::Queen, Player::White) => 'Q',
        (PieceKind::Queen, Player::Black) => 'q',
        (PieceKind::King, Player::White) => 'K',
        (PieceKind::King, Player::Black) => 'k',
        _ => {
            proof {
                assert(false);
            }
            ' '
        },
    }
}

/// The human-readable cause reported for an unrecognized piece character,
/// naming the character itself.
pub open spec fn spec_invalid_piece_message(c: char) -> Seq<char> {
    "invalid piece character in position string: "@.push(c)
}

/// Builds the cause reported for an unrecognized piece character.
fn invalid_piece_char_message(c: char) -> (s: String)
    ensures
        s@ == spec_invalid_piece_message(c),
{
    let mut s = String::from_str("invalid piece character in position string: ");
    crate::strutil::push_char(&mut s, c);
    s
}

} // verus!
