use vstd::prelude::*;

verus! {

#[verifier::external_type_specification]
#[verifier::external_body]
pub struct ExBoard(pleco::Board);

/// The position string pleco's Board::fen exports for a board state: a
/// deterministic function of the board alone.
pub uninterp spec fn fen_of(b: pleco::Board) -> Seq<char>;

/// Whether pleco's Board::apply_uci_move accepts the given UCI string on the
/// given board: it does exactly when the string names one of the position's
/// legal moves, a deterministic function of board and string.
pub uninterp spec fn uci_move_legal(b: pleco::Board, uci: Seq<char>) -> bool;

/// Whether pleco reports the side to move in check, mated, or stalemated:
/// deterministic queries of the board state.
pub uninterp spec fn in_check_of(b: pleco::Board) -> bool;

pub uninterp spec fn checkmate_of(b: pleco::Board) -> bool;

pub uninterp spec fn stalemate_of(b: pleco::Board) -> bool;

/// The raw encoding of pleco's current en-passant square (64 for none).
pub uninterp spec fn ep_square_of(b: pleco::Board) -> u8;

/// The kind and the owning side of the piece on a real square.
pub uninterp spec fn piece_kind_at_of(b: pleco::Board, sq: u8) -> crate::piece::PieceKind;

pub uninterp spec fn piece_player_at_of(b: pleco::Board, sq: u8) -> crate::square::Player;

/// Whether the side owning the piece on a real square still holds its
/// king-side or queen-side castling right.
pub uninterp spec fn owner_castle_kingside_of(b: pleco::Board, sq: u8) -> bool;

pub uninterp spec fn owner_castle_queenside_of(b: pleco::Board, sq: u8) -> bool;

/// The position string of the standard starting position.
pub open spec fn spec_start_fen() -> Seq<char> {
    "rnbqkbnr/pppppppp/8/8/8/8/PPPPPPPP/RNBQKBNR w KQkq - 0 1"@
}

/// Relies on pleco's Board::start_pos: the standard starting position, whose
/// exported position string its documentation states verbatim.
pub assume_specification[ pleco::Board::start_pos ]() -> (r: pleco::Board)
    ensures
        fen_of(r) == spec_start_fen(),
;

/// Relies on pleco's Board::fen: the position string of the current board
/// state, board layout first, the metadata fields after the first blank; a
/// deterministic function of the board.
pub assume_specification[ pleco::Board::fen ](b: &pleco::Board) -> (s: String)
    ensures
        s@ == fen_of(*b),
;

/// Relies on pleco's Board::apply_uci_move: applies the move the string
/// names if it is one of the legal moves of the position and reports whether
/// it did; on an illegal or unparseable move the board is left as it was.
pub assume_specification[ pleco::Board::apply_uci_move ](
    b: &mut pleco::Board,
    uci_move: &str,
) -> (r: bool)
    ensures
        r == uci_move_legal(*old(b), uci_move@),
        !r ==> *final(b) == *old(b),
;

/// Relies on pleco's Board::in_check: whether the side to move is in check.
pub assume_specification[ pleco::Board::in_check ](b: &pleco::Board) -> (r: bool)
    ensures
        r == in_check_of(*b),
;

/// Relies on pleco's Board::checkmate: whether the side to move is mated.
pub assume_specification[ pleco::Board::checkmate ](b: &pleco::Board) -> (r: bool)
    ensures
        r == checkmate_of(*b),
;

/// Relies on pleco's Board::stalemate: whether the side to move is
/// stalemated (pleco also reports this at fifty quiet moves).
pub assume_specification[ pleco::Board::stalemate ](b: &pleco::Board) -> (r: bool)
    ensures
        r == stalemate_of(*b),
;

/// Relies on pleco's Board::ep_square, handing out the raw square encoding
/// of its result (64 is pleco's "no square").
#[verifier::external_body]
pub(crate) fn board_ep_square(b: &pleco::Board) -> (r: u8)
    ensures
        r == ep_square_of(*b),
{
    b.ep_square().0
}

/// Relies on pleco's Board::piece_at_sq and Piece::type_of: the kind of the
/// piece standing on the given real square, converted variant for variant.
/// (pleco's piece and player enums share their names with this library's own
/// types, so they stay inside these bodies instead of being declared.)
#[verifier::external_body]
pub(crate) fn board_piece_kind_at(b: &pleco::Board, sq: u8) -> (r: crate::piece::PieceKind)
    requires
        sq < 64,
    ensures
        r == piece_kind_at_of(*b, sq),
{
    match b.piece_at_sq(pleco::SQ(sq)).type_of() {
        pleco::PieceType::None => crate::piece::PieceKind::NoPiece,
        pleco::PieceType::P => crate::piece::PieceKind::Pawn,
        pleco::PieceType::N => crate::piece::PieceKind::Knight,
        pleco::PieceType::B => crate::piece::PieceKind::Bishop,
        pleco::PieceType::R => crate::piece::PieceKind::Rook,
        pleco::PieceType::Q => crate::piece::PieceKind::Queen,
        pleco::PieceType::K => crate::piece::PieceKind::King,
        pleco::PieceType::All => crate::piece::PieceKind::All,
    }
}

/// Relies on pleco's Board::piece_at_sq and Piece::player_lossy: the side
/// owning the piece on the given real square, converted variant for variant
/// (for an empty square the result is pleco's filler value, never a panic).
#[verifier::external_body]
pub(crate) fn board_piece_player_at(b: &pleco::Board, sq: u8) -> (r: crate::square::Player)
    requires
        sq < 64,
    ensures
        r == piece_player_at_of(*b, sq),
{
    match b.piece_at_sq(pleco::SQ(sq)).player_lossy() {
        pleco::Player::White => crate::square::Player::White,
        pleco::Player::Black => crate::square::Player::Black,
    }
}

/// Relies on pleco's Board::can_castle with CastleType::KingSide, asked for
/// the side owning the piece on the given real square.
#[verifier::external_body]
pub(crate) fn board_owner_can_castle_kingside(b: &pleco::Board, sq: u8) -> (r: bool)
    requires
        sq < 64,
    ensures
        r == owner_castle_kingside_of(*b, sq),
{
    b.can_castle(b.piece_at_sq(pleco::SQ(sq)).player_lossy(), pleco::core::CastleType::KingSide)
}

/// Relies on pleco's Board::can_castle with CastleType::QueenSide, asked for
/// the side owning the piece on the given real square.
#[verifier::external_body]
pub(crate) fn board_owner_can_castle_queenside(b: &pleco::Board, sq: u8) -> (r: bool)
    requires
        sq < 64,
    ensures
        r == owner_castle_queenside_of(*b, sq),
{
    b.can_castle(b.piece_at_sq(pleco::SQ(sq)).player_lossy(), pleco::core::CastleType::QueenSide)
}

} // verus!
