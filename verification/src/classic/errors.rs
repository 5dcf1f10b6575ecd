//! Why an action was refused.
use vstd::prelude::*;
use crate::classic::types::{Cell, PlayerKind};

verus! {

#[derive(Clone, Copy, Debug, Eq, PartialEq, Structural)]
pub enum GameError {
    /// Tried to remove a piece from an empty cell.
    EmptyKnightRemoval(PlayerKind, Cell),
    /// Tried to remove an enemy piece.
    EnemyKnightRemoval(PlayerKind, Cell),
    /// Tried to act out of turn.
    NotYourTurn(PlayerKind),
    /// Tried to act after the game had ended.
    GameOver(PlayerKind),
    /// Tried to move a piece from an empty cell.
    EmptyMove(PlayerKind, Cell),
    /// Tried to move an enemy piece.
    EnemyMove(PlayerKind, Cell),
    /// Tried to move to a cell that is not a legal destination.
    InvalidDestination(PlayerKind, Cell, Cell),
}

impl GameError {
    /// A human-readable description of the refusal.
    /// A short description of the refusal.
    pub fn message(&self) -> (r: &'static str)
        ensures
            *self is EmptyKnightRemoval ==> r@ == "tried to remove a nonexistent knight"@,
            *self is EnemyKnightRemoval ==> r@ == "tried to remove an enemy knight"@,
            *self is NotYourTurn ==> r@ == "tried to act out of turn"@,
            *self is GameOver ==> r@ == "tried to act after the game had already ended"@,
            *self is EmptyMove ==> r@ == "tried to move a nonexistent piece"@,
            *self is EnemyMove ==> r@ == "tried to move an enemy piece"@,
            *self is InvalidDestination ==> r@ == "tried to move to an invalid destination"@,
    {
        match self {
            GameError::EmptyKnightRemoval(..) => "tried to remove a nonexistent knight",
            GameError::EnemyKnightRemoval(..) => "tried to remove an enemy knight",
            GameError::NotYourTurn(..) => "tried to act out of turn",
            GameError::GameOver(..) => "tried to act after the game had already ended",
            GameError::EmptyMove(..) => "tried to move a nonexistent piece",
            GameError::EnemyMove(..) => "tried to move an enemy piece",
            GameError::InvalidDestination(..) => "tried to move to an invalid destination",
        }
    }
}

} // verus!
