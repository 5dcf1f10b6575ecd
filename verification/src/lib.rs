//! Crownfall: a two-player abstract strategy board game.
//!
//! `engine` holds the rules engine (three board sizes, rule variants, the
//! negamax AI); `classic` holds the 7x7 game that the HTTP protocol in
//! `common` speaks; `common` and `net` hold the protocol data types and the
//! byte-level framing of the TCP protocol; `server` holds the game server's
//! state and what it answers to each packet.
pub mod classic;
pub mod common;
pub mod engine;
pub mod net;
pub mod server;
