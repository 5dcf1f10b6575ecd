//! The current rules engine: three board sizes, rule variants and the AI.
pub mod ai;
pub mod board;
pub mod captures;
pub mod detect;
pub mod errors;
pub mod eval;
pub mod geometry;
pub mod hash;
pub mod laws;
pub mod layouts;
pub mod movegen;
pub mod play;
pub mod rules;
pub mod setup;
pub mod tables;
pub mod types;

pub use self::ai::{best_move, CrownfallDifficulty, CrownfallSearcher};
pub use self::board::CrownfallBoardState;
pub use self::captures::MoveCapturePreview;
pub use self::errors::CrownfallError;
pub use self::eval::CrownfallPersonality;
pub use self::hash::position_hash;
pub use self::layouts::{
    grand_archers_layout, grand_layout, mini_archers_layout, mini_layout, standard_archers_layout,
    standard_layout,
};
pub use self::play::CrownfallGame;
pub use self::types::{
    CrownfallBoardCell, CrownfallBoardVariant, CrownfallGameState, CrownfallPiece,
    CrownfallPieceKind, CrownfallPlayState, CrownfallPlayerAction, CrownfallPlayerKind,
    CrownfallRules, CrownfallRuleset, CrownfallTurnResult, DrawReason, WinReason,
};
