use chess_game::game::ChessGame;
use chess_game::piece::PieceKind;
use chess_game::moves::MoveResult;
use chess_game::square::SQ;

#[test]
fn opening_pawn_push_is_valid_and_recorded() {
    let mut game = ChessGame::new();
    let r = game.apply_move(SQ::new('a', 2), SQ::new('a', 4), None);
    assert_eq!(r, MoveResult::Valid);
    assert_eq!(game.move_count(), 1);
}

#[test]
fn move_from_empty_square_is_invalid_and_unrecorded() {
    let mut game = ChessGame::new();
    let r = game.apply_move(SQ::new('a', 3), SQ::new('a', 4), None);
    assert_eq!(r, MoveResult::Invalid);
    assert_eq!(game.move_count(), 0);
}

#[test]
fn moving_the_opponents_piece_is_invalid() {
    let mut game = ChessGame::new();
    // Black's pawn cannot be moved while it is White's turn.
    let r = game.apply_move(SQ::new('e', 7), SQ::new('e', 5), None);
    assert_eq!(r, MoveResult::Invalid);
    assert_eq!(game.move_count(), 0);
}

#[test]
fn fools_mate_is_checkmate() {
    let mut game = ChessGame::new();
    assert_eq!(
        game.apply_move(SQ::new('f', 2), SQ::new('f', 3), None),
        MoveResult::Valid
    );
    assert_eq!(
        game.apply_move(SQ::new('e', 7), SQ::new('e', 5), None),
        MoveResult::Valid
    );
    assert_eq!(
        game.apply_move(SQ::new('g', 2), SQ::new('g', 4), None),
        MoveResult::Valid
    );
    assert_eq!(
        game.apply_move(SQ::new('d', 8), SQ::new('h', 4), None),
        MoveResult::Checkmate
    );
    assert_eq!(game.move_count(), 4);
}

#[test]
fn scholars_mate_gives_check_on_the_way() {
    let mut game = ChessGame::new();
    assert_eq!(
        game.apply_move(SQ::new('e', 2), SQ::new('e', 4), None),
        MoveResult::Valid
    );
    assert_eq!(
        game.apply_move(SQ::new('e', 7), SQ::new('e', 5), None),
        MoveResult::Valid
    );
    assert_eq!(
        game.apply_move(SQ::new('d', 1), SQ::new('h', 5), None),
        MoveResult::Valid
    );
    assert_eq!(
        game.apply_move(SQ::new('g', 8), SQ::new('f', 6), None),
        MoveResult::Valid
    );
    // Queen takes f7: check on the black king (guarded, so not mate).
    assert_eq!(
        game.apply_move(SQ::new('h', 5), SQ::new('f', 7), None),
        MoveResult::Check
    );
}

#[test]
fn starting_fen_is_exported() {
    let game = ChessGame::new();
    assert_eq!(
        game.fen(),
        "rnbqkbnr/pppppppp/8/8/8/8/PPPPPPPP/RNBQKBNR w KQkq - 0 1"
    );
}

#[test]
fn fen_reflects_an_applied_move() {
    let mut game = ChessGame::new();
    game.apply_move(SQ::new('e', 2), SQ::new('e', 4), None);
    let fen = game.fen();
    assert!(fen.starts_with("rnbqkbnr/pppppppp/8/8/4P3/8/PPPP1PPP/RNBQKBNR b"));
}

#[test]
fn exported_position_parses_into_a_grid() {
    let mut game = ChessGame::new();
    game.apply_move(SQ::new('b', 1), SQ::new('c', 3), None);
    let grid = game.get_board(false).unwrap();
    let knight = grid.get(5, 2).unwrap();
    assert_eq!(knight.kind, PieceKind::Knight);
}

#[test]
fn bad_promotion_suffix_is_invalid() {
    let mut game = ChessGame::new();
    let r = game.apply_move(SQ::new('e', 2), SQ::new('e', 4), Some("q".to_string()));
    assert_eq!(r, MoveResult::Invalid);
    assert_eq!(game.move_count(), 0);
}

#[test]
fn default_game_matches_a_new_game() {
    let game = ChessGame::default();
    assert_eq!(game.move_count(), 0);
    assert_eq!(
        game.fen(),
        "rnbqkbnr/pppppppp/8/8/8/8/PPPPPPPP/RNBQKBNR w KQkq - 0 1"
    );
}

#[test]
fn third_occurrence_of_a_move_warns_of_repetition() {
    let mut game = ChessGame::new();
    let knight_out = |g: &mut ChessGame| g.apply_move(SQ::new('g', 1), SQ::new('f', 3), None);
    let knight_back = |g: &mut ChessGame| g.apply_move(SQ::new('f', 3), SQ::new('g', 1), None);
    let black_out = |g: &mut ChessGame| g.apply_move(SQ::new('g', 8), SQ::new('f', 6), None);
    let black_back = |g: &mut ChessGame| g.apply_move(SQ::new('f', 6), SQ::new('g', 8), None);
    assert_eq!(knight_out(&mut game), MoveResult::Valid);
    assert_eq!(black_out(&mut game), MoveResult::Valid);
    assert_eq!(knight_back(&mut game), MoveResult::Valid);
    assert_eq!(black_back(&mut game), MoveResult::Valid);
    assert_eq!(knight_out(&mut game), MoveResult::Valid);
    assert_eq!(black_out(&mut game), MoveResult::Valid);
    assert_eq!(knight_back(&mut game), MoveResult::Valid);
    assert_eq!(black_back(&mut game), MoveResult::Valid);
    // The ninth half-move repeats a record that already occurred twice.
    assert_eq!(knight_out(&mut game), MoveResult::RepetitionBy3Moves);
    assert_eq!(game.move_count(), 9);
}
