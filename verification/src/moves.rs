use crate::piece::PieceKind;
use crate::square::Player;
use crate::square::SQ;
use vstd::prelude::*;

verus! {

/// The immutable record of one applied move: its squares, the (side, kind) of
/// the piece that ended on the target square, and a snapshot of whether the
/// mover still had a castling right and whether an en-passant square existed
/// after the move. Equality is structural over all fields.
#[derive(Debug, PartialEq, Eq, Clone, Copy, Structural)]
pub struct Move {
    pub start_square: SQ,
    pub target_square: SQ,
    pub piece_player: Player,
    pub piece_kind: PieceKind,
    pub castling: bool,
    pub en_passant: bool,
}

impl Move {
    /// A move record is well formed when both its squares name real squares.
    pub open spec fn wf(self) -> bool {
        self.start_square.is_valid() && self.target_square.is_valid()
    }

    /// Builds a move record from its parts.
    pub fn new(
        start_square: SQ,
        target_square: SQ,
        piece_player: Player,
        piece_kind: PieceKind,
        castling: bool,
        en_passant: bool,
    ) -> (m: Self)
        ensures
            m == (Move { start_square, target_square, piece_player, piece_kind, castling, en_passant }),
    {
        Move { start_square, target_square, piece_player, piece_kind, castling, en_passant }
    }
}

/// The outcome of one attempted move.
#[derive(Debug, PartialEq, Eq, Clone, Copy, Structural)]
pub enum MoveResult {
    Valid,
    Invalid,
    Check,
    Checkmate,
    Stalemate,
    RepetitionBy3Moves,
}

/// How many entries of `history` equal `m`.
pub open spec fn count_matches(history: Seq<Move>, m: Move) -> nat
    decreases history.len(),
{
    if history.len() == 0 {
        0
    } else {
        count_matches(history.drop_last(), m) + if history.last() == m {
            1nat
        } else {
            0nat
        }
    }
}

/// The outcome of a move that the engine accepted as legal, derived from the
/// engine's post-move reports and the history of the moves played before it.
/// The order of the branches is a deliberate priority: checkmate first, then
/// the literal-repetition warning, then check, then stalemate.
pub open spec fn spec_classify(
    checkmate: bool,
    in_check: bool,
    stalemate: bool,
    m: Move,
    history: Seq<Move>,
) -> MoveResult {
    if checkmate {
        MoveResult::Checkmate
    } else if count_matches(history, m) >= 2 {
        MoveResult::RepetitionBy3Moves
    } else if in_check {
        MoveResult::Check
    } else if stalemate {
        MoveResult::Stalemate
    } else {
        MoveResult::Valid
    }
}

/// Classifies an accepted move from the engine's three post-move reports, the
/// move record just built, and the history of prior moves. The history must
/// not yet contain the new record: repetition counts prior occurrences only.
pub fn classify(
    checkmate: bool,
    in_check: bool,
    stalemate: bool,
    m: &Move,
    history: &Vec<Move>,
) -> (r: MoveResult)
    ensures
        r == spec_classify(checkmate, in_check, stalemate, *m, history@),
{
    if checkmate {
        return MoveResult::Checkmate;
    }
    let mut count: usize = 0;
    let mut i: usize = 0;
    while i < history.len()
        invariant
            i <= history@.len(),
            count == count_matches(history@.take(i as int), *m),
            count <= i,
        decreases history@.len() - i,
    {
        proof {
            assert(history@.take(i + 1).drop_last() =~= history@.take(i as int));
            assert(history@.take(i + 1).last() == history@[i as int]);
        }
        if history[i] == *m {
            count = count + 1;
        }
        i = i + 1;
    }
    proof {
        assert(history@.take(history@.len() as int) =~= history@);
    }
    if count >= 2 {
        MoveResult::RepetitionBy3Moves
    } else if in_check {
        MoveResult::Check
    } else if stalemate {
        MoveResult::Stalemate
    } else {
        MoveResult::Valid
    }
}

/// Classification is a pure function of its inputs: two classifications of
/// the same engine reports, move record and prior history are equal.
pub proof fn lemma_classify_pure(
    checkmate: bool,
    in_check: bool,
    stalemate: bool,
    m: Move,
    history: Seq<Move>,
    r1: MoveResult,
    r2: MoveResult,
)
    requires
        r1 == spec_classify(checkmate, in_check, stalemate, m, history),
        r2 == spec_classify(checkmate, in_check, stalemate, m, history),
    ensures
        r1 == r2,
{
}

/// Checkmate takes priority over the repetition warning, over check and over
/// stalemate: when the engine reports checkmate, the outcome is `Checkmate`
/// no matter what else holds of the move or the history.
pub proof fn lemma_checkmate_priority(
    in_check: bool,
    stalemate: bool,
    m: Move,
    history: Seq<Move>,
)
    ensures
        spec_classify(true, in_check, stalemate, m, history) == MoveResult::Checkmate,
{
}

} // verus!
