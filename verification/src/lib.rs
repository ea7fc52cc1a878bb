//! State tracking for a multiplayer game session.
//!
//! The library follows a stream of typed log events and keeps the current
//! lobby: the players, their statistics and teams, and the chat transcript.
//! Every operation is specified over a mathematical model of the lobby and
//! proved against it.

pub mod gui;
pub mod models;
pub mod tf2;
