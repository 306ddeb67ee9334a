use chess_game::errors::RenderError;
use chess_game::grid::parse_position;
use chess_game::piece::PieceKind;
use chess_game::square::Player;

#[test]
fn empty_board_field_parses_to_empty_grid() {
    let grid = parse_position("8/8/8/8/8/8/8/8", false).unwrap();
    for rank in 0..8u8 {
        for file in 0..8u8 {
            assert!(grid.get(rank, file).is_none());
        }
    }
}

#[test]
fn out_of_range_run_length_is_malformed() {
    let r = parse_position("9/8/8/8/8/8/8/8", false);
    assert_eq!(r.err(), Some(RenderError::MalformedPosition));
}

#[test]
fn overfull_rank_is_malformed() {
    let r = parse_position("44444/8/8/8/8/8/8/8", false);
    assert_eq!(r.err(), Some(RenderError::MalformedPosition));
}

#[test]
fn unknown_piece_character_is_malformed() {
    let r = parse_position("x7/8/8/8/8/8/8/8", false);
    assert_eq!(r.err(), Some(RenderError::MalformedPosition));
}

#[test]
fn ninth_rank_is_malformed() {
    let r = parse_position("8/8/8/8/8/8/8/8/8", false);
    assert_eq!(r.err(), Some(RenderError::MalformedPosition));
}

#[test]
fn starting_position_parses() {
    let s = "rnbqkbnr/pppppppp/8/8/8/8/PPPPPPPP/RNBQKBNR w KQkq - 0 1";
    let grid = parse_position(s, false).unwrap();
    // Top row holds Black's back rank.
    let p = grid.get(0, 0).unwrap();
    assert_eq!(p.kind, PieceKind::Rook);
    assert_eq!(p.color, Player::Black);
    let p = grid.get(0, 4).unwrap();
    assert_eq!(p.kind, PieceKind::King);
    assert_eq!(p.color, Player::Black);
    // Second row from the bottom holds White's pawns.
    let p = grid.get(6, 3).unwrap();
    assert_eq!(p.kind, PieceKind::Pawn);
    assert_eq!(p.color, Player::White);
    // The middle is empty.
    for rank in 2..6u8 {
        for file in 0..8u8 {
            assert!(grid.get(rank, file).is_none());
        }
    }
}

#[test]
fn empty_grid_serializes_with_maximal_runs() {
    let grid = parse_position("8/8/8/8/8/8/8/8", false).unwrap();
    assert_eq!(grid.to_position_string(), "8/8/8/8/8/8/8/8");
}

#[test]
fn starting_position_round_trips() {
    let s = "rnbqkbnr/pppppppp/8/8/8/8/PPPPPPPP/RNBQKBNR w KQkq - 0 1";
    let grid = parse_position(s, false).unwrap();
    let written = grid.to_position_string();
    assert_eq!(written, "rnbqkbnr/pppppppp/8/8/8/8/PPPPPPPP/RNBQKBNR");
    let again = parse_position(&written, false).unwrap();
    for rank in 0..8u8 {
        for file in 0..8u8 {
            assert_eq!(grid.get(rank, file), again.get(rank, file));
        }
    }
}

#[test]
fn sparse_position_round_trips() {
    let s = "3k4/8/2P5/8/8/8/5q2/K7";
    let grid = parse_position(s, false).unwrap();
    let written = grid.to_position_string();
    assert_eq!(written, s);
    let again = parse_position(&written, false).unwrap();
    for rank in 0..8u8 {
        for file in 0..8u8 {
            assert_eq!(grid.get(rank, file), again.get(rank, file));
        }
    }
}

#[test]
fn reversed_parse_is_point_reflection_of_starting_position() {
    let s = "rnbqkbnr/pppppppp/8/8/8/8/PPPPPPPP/RNBQKBNR w KQkq - 0 1";
    let white = parse_position(s, false).unwrap();
    let black = parse_position(s, true).unwrap();
    for rank in 0..8u8 {
        for file in 0..8u8 {
            assert_eq!(white.get(rank, file), black.get(7 - rank, 7 - file));
        }
    }
}

#[test]
fn short_board_field_fills_remaining_ranks_with_empties() {
    let grid = parse_position("8/4P3", false).unwrap();
    let p = grid.get(1, 4).unwrap();
    assert_eq!(p.kind, PieceKind::Pawn);
    assert_eq!(p.color, Player::White);
    for rank in 2..8u8 {
        for file in 0..8u8 {
            assert!(grid.get(rank, file).is_none());
        }
    }
}
