//! Data types of the HTTP protocol for the 7x7 game.
use vstd::prelude::*;
use crate::classic::types::{Game, PlayerAction, TurnResult};

verus! {

pub const URL_PENDING: &'static str = "/pending";
pub const URL_CREATE: &'static str = "/create";
pub const URL_JOIN: &'static str = "/join";
pub const URL_PLAY: &'static str = "/play";

#[derive(Clone, Copy, Debug, Eq, PartialEq, Structural)]
pub enum ErrorKind {
    General,
    TooManyGames,
    InvalidMove,
    GameOver,
    InvalidGame,
}

#[derive(Clone, Debug)]
pub struct CreateGameRequest {
    pub player_name: String,
}

#[derive(Clone, Debug)]
pub struct JoinGameRequest {
    pub id: String,
    pub player_name: String,
}

#[derive(Clone, Debug)]
pub enum CreateGameResponse {
    Success(String),
    Error(ErrorKind),
}

#[derive(Clone, Debug)]
pub struct WebGame {
    pub id: String,
    pub game: Game,
    pub white_player_name: String,
    pub black_player_name: String,
}

#[derive(Clone, Debug)]
pub enum JoinGameResponse {
    Success(WebGame),
    Error(ErrorKind),
}

/// A game waiting for its second player; `created` is the creation time in
/// milliseconds since the Unix epoch (UTC).
#[derive(Clone, Debug)]
pub struct PendingGame {
    pub id: String,
    pub white_player_name: String,
    pub created: i64,
}

#[derive(Clone, Debug)]
pub enum PendingGameListResponse {
    Success(Vec<PendingGame>),
    Error(ErrorKind),
}

#[derive(Clone, Debug)]
pub struct PerformActionRequest {
    pub id: String,
    pub action: PlayerAction,
}

#[derive(Clone, Debug)]
pub enum PerformActionResponse {
    Success { game: WebGame, result: Option<TurnResult> },
    Error(ErrorKind),
}

#[derive(Clone, Debug)]
pub enum PendingPollResult {
    Waiting,
    Joined(WebGame),
    Error(ErrorKind),
}

#[derive(Clone, Debug)]
pub enum GamePollResponse {
    Active(WebGame),
    Error(ErrorKind),
}

} // verus!
