use crate::assets::AssetStore;
use crate::engine::{
    checkmate_of, ep_square_of, fen_of, in_check_of, owner_castle_kingside_of,
    owner_castle_queenside_of, piece_kind_at_of, piece_player_at_of, spec_start_fen,
    stalemate_of, uci_move_legal,
};
use crate::errors::RenderError;
use crate::grid::BoardGrid;
use crate::moves::{classify, spec_classify, Move, MoveResult};
use crate::square::{Player, SQ};
use vstd::prelude::*;
use vstd::string::StringExecFns;

verus! {

/// The two characters of a square's UCI name: its file letter and its rank
/// digit.
pub open spec fn spec_sq_chars(sq: SQ) -> Seq<char> {
    seq![
        crate::square::spec_file_char((sq.spec_value() % 8) as u8),
        crate::grid::digit_char(sq.spec_value() as int / 8 + 1),
    ]
}

/// The UCI name of a move attempt: the start square's name, the target
/// square's name, then the promotion suffix as given.
pub open spec fn spec_uci_chars(start: SQ, target: SQ, promotion: Option<String>) -> Seq<char> {
    spec_sq_chars(start) + spec_sq_chars(target) + (match promotion {
        Some(p) => p@,
        None => Seq::<char>::empty(),
    })
}

/// A game of chess: the engine's board, which owns the rules, and the
/// append-only history of the moves applied so far.
pub struct ChessGame {
    board: pleco::Board,
    moves: Vec<Move>,
}

impl ChessGame {
    /// The move history, oldest first.
    pub closed spec fn history(self) -> Seq<Move> {
        self.moves@
    }

    /// The engine's board state.
    pub closed spec fn board_state(self) -> pleco::Board {
        self.board
    }

    /// Every recorded move names real squares.
    pub open spec fn wf(self) -> bool {
        forall|i: int| 0 <= i < self.history().len() ==> (#[trigger] self.history()[i]).wf()
    }

    /// Starts a game at the standard starting position with an empty
    /// history.
    pub fn new() -> (g: Self)
        ensures
            g.history() == Seq::<Move>::empty(),
            g.wf(),
            fen_of(g.board_state()) == spec_start_fen(),
    {
        ChessGame { board: pleco::Board::start_pos(), moves: Vec::new() }
    }

    /// The position string of the current board state, as the engine
    /// exports it.
    pub fn fen(&self) -> (s: String)
        ensures
            s@ == fen_of(self.board_state()),
    {
        self.board.fen()
    }

    /// How many moves have been applied and recorded.
    pub fn move_count(&self) -> (n: usize)
        ensures
            n == self.history().len(),
    {
        self.moves.len()
    }

    /// The most recently recorded move, if any.
    pub fn last_move(&self) -> (m: Option<Move>)
        ensures
            m == (if self.history().len() == 0 {
                None
            } else {
                Some(self.history().last())
            }),
    {
        if self.moves.len() == 0 {
            None
        } else {
            Some(self.moves[self.moves.len() - 1])
        }
    }

    /// Applies a move given by its start and target squares and an optional
    /// promotion suffix. The move is handed to the engine under its UCI
    /// name; the engine rejects it exactly when it is not legal in the
    /// current position, and then the whole game — board and history — is
    /// left untouched and the result is `Invalid`. A legal move is applied,
    /// its record built from the engine's post-move reports, classified
    /// against the history of the moves played before it — checkmate first,
    /// then the literal-repetition warning, then check, then stalemate, else
    /// plain `Valid` — and recorded at the end of the history exactly once.
    pub fn apply_move(
        &mut self,
        start_square: SQ,
        target_square: SQ,
        promotion: Option<String>,
    ) -> (r: MoveResult)
        requires
            old(self).wf(),
            start_square.is_valid(),
            target_square.is_valid(),
        ensures
            final(self).wf(),
            r == MoveResult::Invalid <==> !uci_move_legal(
                old(self).board_state(),
                spec_uci_chars(start_square, target_square, promotion),
            ),
            r == MoveResult::Invalid ==> *final(self) == *old(self),
            r != MoveResult::Invalid ==> {
                let b = final(self).board_state();
                let sq = target_square.spec_value();
                let m = final(self).history().last();
                &&& final(self).history() == old(self).history().push(m)
                &&& m.start_square == start_square
                &&& m.target_square == target_square
                &&& m.piece_kind == piece_kind_at_of(b, sq)
                &&& m.piece_player == piece_player_at_of(b, sq)
                &&& m.castling == (owner_castle_kingside_of(b, sq) || owner_castle_queenside_of(
                    b,
                    sq,
                ))
                &&& m.en_passant == (ep_square_of(b) != crate::square::SQ_COUNT)
                &&& r == spec_classify(
                    checkmate_of(b),
                    in_check_of(b),
                    stalemate_of(b),
                    m,
                    old(self).history(),
                )
            },
    {
        let uci = uci_string(start_square, target_square, promotion);
        let applied = self.board.apply_uci_move(uci.as_str());
        proof {
            assert(self.history() == old(self).history());
            assert forall|i: int|
                0 <= i < self.history().len() implies (#[trigger] self.history()[i]).wf() by {
                assert(old(self).history()[i].wf());
            }
        }
        if !applied {
            proof {
                assert(*self == *old(self));
            }
            return MoveResult::Invalid;
        }
        let sq = target_square.value();
        let piece_kind = crate::engine::board_piece_kind_at(&self.board, sq);
        let piece_player = crate::engine::board_piece_player_at(&self.board, sq);
        let castling = crate::engine::board_owner_can_castle_kingside(&self.board, sq)
            || crate::engine::board_owner_can_castle_queenside(&self.board, sq);
        let en_passant = crate::engine::board_ep_square(&self.board) != crate::square::SQ_COUNT;
        let m = Move::new(start_square, target_square, piece_player, piece_kind, castling, en_passant);
        let checkmate = self.board.checkmate();
        let in_check = self.board.in_check();
        let stalemate = self.board.stalemate();
        let result = classify(checkmate, in_check, stalemate, &m, &self.moves);
        self.moves.push(m);
        proof {
            assert(self.history() =~= old(self).history().push(m));
            assert(self.history().last() == m);
            assert(result == spec_classify(
                checkmate,
                in_check,
                stalemate,
                self.history().last(),
                old(self).history(),
            ));
            assert(result != MoveResult::Invalid);
            assert forall|i: int|
                0 <= i < self.history().len() implies (#[trigger] self.history()[i]).wf() by {
                if i < self.history().len() - 1 {
                    assert(old(self).history()[i].wf());
                    assert(self.history()[i] == old(self).history()[i]);
                }
            }
        }
        result
    }

    /// The grid of the current position under the requested orientation:
    /// reversed reads the board from Black's side. The exported position
    /// parses, or fails as malformed, exactly as the grid grammar says.
    pub fn get_board(&self, reversed: bool) -> (r: Result<BoardGrid, RenderError>)
        ensures
            r matches Ok(g) ==> g.wf() && crate::grid::spec_grid_of_fen(
                fen_of(self.board_state()),
                reversed,
            ) == Some(g@),
            r is Err ==> crate::grid::spec_grid_of_fen(fen_of(self.board_state()), reversed)
                is None,
            r matches Err(e) ==> e == RenderError::MalformedPosition,
    {
        let fen = self.fen();
        crate::grid::parse_position(fen.as_str(), reversed)
    }

    /// Renders the current position from the given side's perspective,
    /// highlighting the most recent move, with the supplied assets, as one
    /// encoded PNG of the fixed image dimensions. The errors are exact: the
    /// position fails iff the exported string does not parse; given it
    /// parses, the asset error comes iff the font is absent or some piece of
    /// the grid lacks a usable sprite under its (color, fill class, kind)
    /// key; and with position, font and sprites all good the render is owed
    /// and returns the complete image. No partial image is ever returned.
    pub fn generate_board_png(&self, perspective_color: Player, assets: &AssetStore) -> (r: Result<
        Vec<u8>,
        RenderError,
    >)
        requires
            self.wf(),
        ensures
            r matches Ok(bytes) ==> crate::ril_api::png_decodable(bytes@)
                && crate::ril_api::png_width(bytes@) == crate::render::IMAGE_WIDTH
                && crate::ril_api::png_height(bytes@) == crate::render::IMAGE_HEIGHT,
            r == Err::<Vec<u8>, RenderError>(RenderError::MalformedPosition)
                <==> crate::grid::spec_grid_of_fen(
                fen_of(self.board_state()),
                perspective_color == Player::Black,
            ) is None,
            ({
                let parsed = crate::grid::spec_grid_of_fen(
                    fen_of(self.board_state()),
                    perspective_color == Player::Black,
                );
                let last = if self.history().len() == 0 {
                    None
                } else {
                    Some(self.history().last())
                };
                &&& (parsed matches Some(cells) ==> (r == Err::<Vec<u8>, RenderError>(
                    RenderError::AssetUnavailable,
                ) <==> !(assets.has_font() && crate::render::spec_assets_good(
                    assets.sprites_seq(),
                    cells,
                    perspective_color,
                    last,
                ))))
                &&& ((parsed matches Some(cells) && assets.has_font()
                    && crate::render::spec_assets_good(
                    assets.sprites_seq(),
                    cells,
                    perspective_color,
                    last,
                )) ==> r is Ok)
                &&& (r is Ok ==> (parsed matches Some(cells) && assets.has_font()
                    && crate::render::spec_assets_good(
                    assets.sprites_seq(),
                    cells,
                    perspective_color,
                    last,
                )))
                &&& (r matches Ok(bytes) ==> (parsed matches Some(cells) ==> forall|x: u32, y: u32|
                    crate::render::RANK_RIGHT_PADDING <= x < crate::render::RANK_RIGHT_PADDING + 8
                        * crate::render::SQUARE_WIDTH && y < 8 * crate::render::SQUARE_HEIGHT ==> (
                    crate::render::spec_painted_pixel(
                        assets.sprites_seq(),
                        cells,
                        perspective_color,
                        last,
                        x,
                        y,
                    ) matches Some(c) ==> #[trigger] crate::ril_api::png_pixels(bytes@)[(x, y)]
                        == c)))
            }),
    {
        let fen = self.fen();
        let last = self.last_move();
        crate::render::render_board(fen.as_str(), perspective_color, last, assets)
    }
}

impl Default for ChessGame {
    /// A fresh game: the starting position with an empty history.
    fn default() -> (g: Self)
        ensures
            g.history() == Seq::<Move>::empty(),
            g.wf(),
            fen_of(g.board_state()) == spec_start_fen(),
    {
        ChessGame::new()
    }
}

/// The UCI name of a move: the two square labels, then the promotion suffix
/// as given.
fn uci_string(start_square: SQ, target_square: SQ, promotion: Option<String>) -> (s: String)
    requires
        start_square.is_valid(),
        target_square.is_valid(),
    ensures
        s@ == spec_uci_chars(start_square, target_square, promotion),
{
    let mut s = String::new();
    push_sq_chars(&mut s, start_square);
    push_sq_chars(&mut s, target_square);
    match &promotion {
        Some(p) => {
            s.append(p.as_str());
        },
        None => {},
    }
    proof {
        assert(s@ =~= spec_uci_chars(start_square, target_square, promotion));
    }
    s
}

/// Appends a square's UCI name to a string.
fn push_sq_chars(s: &mut String, sq: SQ)
    requires
        sq.is_valid(),
    ensures
        final(s)@ == old(s)@ + spec_sq_chars(sq),
{
    let v = sq.value();
    let file = crate::square::file_char(v % 8);
    let rank = crate::grid::digit_char_exec(v / 8 + 1);
    crate::strutil::push_char(s, file);
    crate::strutil::push_char(s, rank);
    proof {
        assert(s@ =~= old(s)@ + spec_sq_chars(sq));
    }
}

} // verus!
