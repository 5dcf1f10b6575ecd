//! The 7x7 game spoken by the HTTP protocol in `common`: Crown, Knights and
//! Spies only, with its own rules engine and negamax AI.
pub mod ai;
pub mod board;
pub mod errors;
pub mod game;
pub mod hash;
pub mod laws;
pub mod rules;
pub mod types;

pub use self::errors::GameError;
pub use self::hash::Fnv1aHasher;
pub use self::types::{
    BoardState, Cell, DrawReason, Game, GameState, Piece, PieceKind, PlayState, PlayerAction,
    PlayerKind, TurnResult, BOARD_LENGTH,
};
