use chess_game::assets::AssetStore;
use chess_game::errors::RenderError;
use chess_game::moves::Move;
use chess_game::piece::{Piece, PieceKind};
use chess_game::render::{
    get_square_color, render_board, FILE_EDGE_PADDING, IMAGE_HEIGHT, IMAGE_WIDTH, PIECE_HEIGHT,
    PIECE_WIDTH, RANK_EDGE_PADDING, RANK_RIGHT_PADDING, SQUARE_HEIGHT, SQUARE_WIDTH,
};
use chess_game::square::{Player, SquareColor, SQ};

#[test]
fn checker_pattern_without_a_last_move() {
    // (0, 0) has equal parities: light; (1, 0) differs: dark.
    assert_eq!(
        get_square_color(0, 0, Player::White, None),
        SquareColor::Light
    );
    assert_eq!(
        get_square_color(1, 0, Player::White, None),
        SquareColor::Dark
    );
    assert_eq!(
        get_square_color(1, 1, Player::White, None),
        SquareColor::Light
    );
    // The base shades do not depend on the perspective.
    assert_eq!(
        get_square_color(0, 0, Player::Black, None),
        SquareColor::Light
    );
}

fn a2_a4() -> Move {
    Move::new(
        SQ::new('a', 2),
        SQ::new('a', 4),
        Player::White,
        PieceKind::Pawn,
        true,
        true,
    )
}

#[test]
fn exactly_the_moved_squares_are_highlighted() {
    let last = Some(a2_a4());
    let mut highlighted = Vec::new();
    for rank in 0..8u8 {
        for file in 0..8u8 {
            if get_square_color(file, rank, Player::White, last) == SquareColor::Yellow {
                highlighted.push((file, rank));
            }
        }
    }
    // Under White's perspective a2 is cell (0, 6) and a4 is cell (0, 4).
    assert_eq!(highlighted, vec![(0, 4), (0, 6)]);
}

#[test]
fn highlighting_follows_the_perspective() {
    let last = Some(a2_a4());
    let mut highlighted = Vec::new();
    for rank in 0..8u8 {
        for file in 0..8u8 {
            if get_square_color(file, rank, Player::Black, last) == SquareColor::Yellow {
                highlighted.push((file, rank));
            }
        }
    }
    // Under Black's perspective a2 is cell (7, 1) and a4 is cell (7, 3).
    assert_eq!(highlighted, vec![(7, 1), (7, 3)]);
}

#[test]
fn malformed_position_fails_rendering_first() {
    let store = AssetStore::new();
    let r = render_board("9", Player::White, None, &store);
    assert_eq!(r.err(), Some(RenderError::MalformedPosition));
}

#[test]
fn missing_font_is_an_asset_error() {
    let store = AssetStore::new();
    let r = render_board("8/8/8/8/8/8/8/8", Player::White, None, &store);
    assert_eq!(r.err(), Some(RenderError::AssetUnavailable));
}

#[test]
fn error_messages_name_their_cause() {
    assert!(RenderError::MalformedPosition.message().contains("position"));
    assert!(RenderError::AssetUnavailable.message().contains("asset"));
    assert!(RenderError::EncodingFailure.message().contains("encoded"));
}

#[test]
fn sprite_lookup_finds_the_matching_entry() {
    let mut store = AssetStore::new();
    store.add_sprite(Player::White, SquareColor::Dark, PieceKind::Pawn, vec![1, 2]);
    store.add_sprite(Player::Black, SquareColor::Dark, PieceKind::Pawn, vec![3]);
    store.add_sprite(Player::Black, SquareColor::Light, PieceKind::King, vec![4]);
    assert_eq!(
        store.sprite(Player::Black, SquareColor::Dark, PieceKind::Pawn),
        Some(&vec![3u8])
    );
    assert_eq!(
        store.sprite(Player::White, SquareColor::Dark, PieceKind::Pawn),
        Some(&vec![1u8, 2u8])
    );
    assert_eq!(
        store.sprite(Player::White, SquareColor::Yellow, PieceKind::Pawn),
        None
    );
}

#[test]
fn piece_characters_decode_and_encode() {
    let p = Piece::from_fen('Q').unwrap();
    assert_eq!(p.kind, PieceKind::Queen);
    assert_eq!(p.color, Player::White);
    let p = Piece::from_fen('n').unwrap();
    assert_eq!(p.kind, PieceKind::Knight);
    assert_eq!(p.color, Player::Black);
    assert!(Piece::from_fen('x').is_err());
    assert!(Piece::from_fen('1').is_err());
    assert!(Piece::from_fen(' ').is_err());
}

#[test]
fn square_encoding_and_labels() {
    assert_eq!(SQ::new('a', 1).value(), 0);
    assert_eq!(SQ::new('h', 8).value(), 63);
    assert_eq!(SQ::new('e', 2).value(), 12);
    let label = chess_game::square::sq_label(SQ::new('e', 2));
    assert_eq!(label, (b'e', 2));
    // The perspective transform of cell labels.
    assert_eq!(chess_game::square::cell_label(0, 0, Player::White), (b'a', 8));
    assert_eq!(chess_game::square::cell_label(0, 0, Player::Black), (b'h', 1));
    assert_eq!(chess_game::square::cell_label(7, 7, Player::White), (b'h', 1));
    assert_eq!(chess_game::square::cell_label(7, 7, Player::Black), (b'a', 8));
}

#[test]
fn geometry_constants_are_consistent() {
    assert_eq!(IMAGE_WIDTH, 670);
    assert_eq!(IMAGE_HEIGHT, 670);
    assert!(PIECE_WIDTH <= SQUARE_WIDTH && PIECE_HEIGHT <= SQUARE_HEIGHT);
    assert!(RANK_EDGE_PADDING < RANK_RIGHT_PADDING);
    assert!(IMAGE_HEIGHT - FILE_EDGE_PADDING >= 8 * SQUARE_HEIGHT);
}

#[test]
fn kind_and_shade_names_match_the_asset_layout() {
    assert_eq!(PieceKind::Pawn.kind_name(), "pawn");
    assert_eq!(PieceKind::Knight.kind_name(), "knight");
    assert_eq!(PieceKind::Bishop.kind_name(), "bishop");
    assert_eq!(PieceKind::Rook.kind_name(), "rook");
    assert_eq!(PieceKind::Queen.kind_name(), "queen");
    assert_eq!(PieceKind::King.kind_name(), "king");
    assert_eq!(PieceKind::NoPiece.kind_name(), "unknown");
    assert_eq!(SquareColor::Dark.shade_name(), "dark");
    assert_eq!(SquareColor::Light.shade_name(), "light");
    assert_eq!(SquareColor::Yellow.shade_name(), "yellow");
}

#[test]
fn invalid_piece_error_names_the_character() {
    let e = Piece::from_fen('x').unwrap_err();
    assert_eq!(e, "invalid piece character in position string: x");
    let e = Piece::from_fen('9').unwrap_err();
    assert!(e.ends_with(": 9"));
}

#[test]
fn coordinate_labels_follow_the_perspective() {
    let white = chess_game::render::coordinate_labels(Player::White);
    assert_eq!(white.len(), 16);
    // Rank digits top to bottom read 8..1 from White's side, at the left margin.
    assert_eq!(white[0], ('8', RANK_EDGE_PADDING, 40));
    assert_eq!(white[7], ('1', RANK_EDGE_PADDING, 7 * 80 + 40));
    // File letters left to right read a..h, centered under their columns.
    assert_eq!(white[8], ('a', 30 + 40, IMAGE_HEIGHT - FILE_EDGE_PADDING));
    assert_eq!(white[15], ('h', 7 * 80 + 30 + 40, IMAGE_HEIGHT - FILE_EDGE_PADDING));
    let black = chess_game::render::coordinate_labels(Player::Black);
    // From Black's side both sequences read the other way.
    assert_eq!(black[0].0, '1');
    assert_eq!(black[7].0, '8');
    assert_eq!(black[8].0, 'h');
    assert_eq!(black[15].0, 'a');
}
