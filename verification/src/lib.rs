pub mod assets;
pub mod engine;
pub mod errors;
pub mod game;
pub mod grid;
pub mod moves;
pub mod piece;
pub mod render;
pub mod ril_api;
pub mod square;
mod strutil;

pub use assets::AssetStore;
pub use errors::RenderError;
pub use game::ChessGame;
pub use grid::BoardGrid;
pub use moves::Move;
pub use moves::MoveResult;
pub use piece::Piece;
pub use piece::PieceKind;
pub use square::Player;
pub use square::SquareColor;
pub use square::SQ;
