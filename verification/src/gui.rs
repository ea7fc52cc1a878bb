//! What the window shows, worked out from the lobby: the scoreboard, the
//! rows of the chat and the credit for the background image. Drawing is
//! left to the caller.

pub mod background_image;
pub mod chat;
pub mod scoreboard;
