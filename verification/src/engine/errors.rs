//! The ways an action can be rejected.
use vstd::prelude::*;
use crate::engine::types::{CrownfallBoardCell, CrownfallPlayerKind};

verus! {

#[derive(Clone, Copy, Debug, Eq, PartialEq, Structural)]
pub enum CrownfallError {
    /// The player tried to remove a piece from an empty cell.
    EmptyKnightRemoval(CrownfallPlayerKind, CrownfallBoardCell),
    /// The player tried to remove an enemy piece.
    EnemyKnightRemoval(CrownfallPlayerKind, CrownfallBoardCell),
    /// The player acted out of turn.
    NotYourTurn(CrownfallPlayerKind),
    /// The player acted after the game had already ended.
    GameOver(CrownfallPlayerKind),
    /// The player tried to move from an empty cell.
    EmptyMove(CrownfallPlayerKind, CrownfallBoardCell),
    /// The player tried to move an enemy piece.
    EnemyMove(CrownfallPlayerKind, CrownfallBoardCell),
    /// The destination is not a legal one for the piece.
    InvalidDestination(CrownfallPlayerKind, CrownfallBoardCell, CrownfallBoardCell),
    /// The player must play a capturing move this turn.
    CaptureRequired(CrownfallPlayerKind),
}

impl CrownfallError {
    /// A short description of the refusal.
    pub fn message(&self) -> (r: &'static str)
        ensures
            *self is EmptyKnightRemoval ==> r@ == "tried to remove a nonexistent knight"@,
            *self is EnemyKnightRemoval ==> r@ == "tried to remove an enemy knight"@,
            *self is NotYourTurn ==> r@ == "tried to act out of turn"@,
            *self is GameOver ==> r@ == "tried to act after the game had already ended"@,
            *self is EmptyMove ==> r@ == "tried to move a nonexistent piece"@,
            *self is EnemyMove ==> r@ == "tried to move an enemy piece"@,
            *self is InvalidDestination ==> r@ == "tried to move to an invalid destination"@,
            *self is CaptureRequired ==> r@ == "must play a capturing move this turn"@,
    {
        match self {
            CrownfallError::EmptyKnightRemoval(..) => "tried to remove a nonexistent knight",
            CrownfallError::EnemyKnightRemoval(..) => "tried to remove an enemy knight",
            CrownfallError::NotYourTurn(..) => "tried to act out of turn",
            CrownfallError::GameOver(..) => "tried to act after the game had already ended",
            CrownfallError::EmptyMove(..) => "tried to move a nonexistent piece",
            CrownfallError::EnemyMove(..) => "tried to move an enemy piece",
            CrownfallError::InvalidDestination(..) => "tried to move to an invalid destination",
            CrownfallError::CaptureRequired(..) => "must play a capturing move this turn",
        }
    }
}

} // verus!
