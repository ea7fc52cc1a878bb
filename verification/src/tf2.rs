//! The game session: what the log says of it, what the profile service
//! says of its players, and what is known of the lobby.

pub mod lobby;
pub mod logfile;
pub mod steam;
