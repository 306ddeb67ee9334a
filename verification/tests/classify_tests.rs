use chess_game::moves::{classify, Move, MoveResult};
use chess_game::piece::PieceKind;
use chess_game::square::{Player, SQ};

fn sample_move() -> Move {
    Move::new(
        SQ::new('e', 2),
        SQ::new('e', 4),
        Player::White,
        PieceKind::Pawn,
        true,
        false,
    )
}

fn other_move() -> Move {
    Move::new(
        SQ::new('d', 7),
        SQ::new('d', 5),
        Player::Black,
        PieceKind::Pawn,
        true,
        false,
    )
}

#[test]
fn quiet_move_is_valid() {
    let m = sample_move();
    let history: Vec<Move> = Vec::new();
    assert_eq!(classify(false, false, false, &m, &history), MoveResult::Valid);
}

#[test]
fn check_outranks_stalemate() {
    let m = sample_move();
    let history: Vec<Move> = Vec::new();
    assert_eq!(classify(false, true, true, &m, &history), MoveResult::Check);
}

#[test]
fn stalemate_is_reported() {
    let m = sample_move();
    let history: Vec<Move> = Vec::new();
    assert_eq!(classify(false, false, true, &m, &history), MoveResult::Stalemate);
}

#[test]
fn two_prior_occurrences_warn_of_repetition() {
    let m = sample_move();
    let history = vec![sample_move(), other_move(), sample_move()];
    assert_eq!(
        classify(false, false, false, &m, &history),
        MoveResult::RepetitionBy3Moves
    );
}

#[test]
fn one_prior_occurrence_does_not_warn() {
    let m = sample_move();
    let history = vec![sample_move(), other_move()];
    assert_eq!(classify(false, false, false, &m, &history), MoveResult::Valid);
}

#[test]
fn differing_snapshot_flags_break_equality() {
    // Same squares and piece, but a different castling snapshot: not a repeat.
    let m = sample_move();
    let mut changed = sample_move();
    changed = Move::new(
        changed.start_square,
        changed.target_square,
        changed.piece_player,
        changed.piece_kind,
        false,
        changed.en_passant,
    );
    let history = vec![changed, changed];
    assert_eq!(classify(false, false, false, &m, &history), MoveResult::Valid);
}

#[test]
fn checkmate_outranks_repetition_and_check() {
    // Even with two prior occurrences and check reported, checkmate wins.
    let m = sample_move();
    let history = vec![sample_move(), sample_move()];
    assert_eq!(
        classify(true, true, false, &m, &history),
        MoveResult::Checkmate
    );
}

#[test]
fn repetition_outranks_check() {
    let m = sample_move();
    let history = vec![sample_move(), sample_move()];
    assert_eq!(
        classify(false, true, false, &m, &history),
        MoveResult::RepetitionBy3Moves
    );
}

#[test]
fn classification_is_repeatable() {
    let m = sample_move();
    let history = vec![sample_move(), other_move()];
    let first = classify(false, true, false, &m, &history);
    let second = classify(false, true, false, &m, &history);
    assert_eq!(first, second);
}
