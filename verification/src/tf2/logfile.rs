//! The events that the game's log reports, already told apart and split
//! into their parts.

use crate::models::timestamp::Timestamp;
use vstd::prelude::*;

verus! {

/// One event of the log.
#[allow(inconsistent_fields)]
#[derive(Debug)]
pub enum LogLine {
    /// A line that reports nothing of the lobby.
    Unknown { line: String },
    /// The head of a status listing.
    StatusHeader { when: Timestamp },
    /// One player of a status listing.
    StatusForPlayer { when: Timestamp, id: u32, name: String, steam_id32: String },
    /// One player killed another.
    Kill { when: Timestamp, killer: String, victim: String, weapon: String, crit: bool },
    /// A player took its own life.
    Suicide { when: Timestamp, name: String },
    /// A new lobby began.
    LobbyCreated { when: Timestamp },
    /// The lobby ended.
    LobbyDestroyed { when: Timestamp },
    /// A player said something.
    Chat { when: Timestamp, name: String, message: String, dead: bool, team: bool },
    /// A player was put on a team.
    PlayerTeam { steam_id32: String, team: String },
}

/// An event of the log, as a value.
#[allow(inconsistent_fields)]
pub enum LogLineView {
    Unknown { line: Seq<char> },
    StatusHeader { when: Timestamp },
    StatusForPlayer { when: Timestamp, id: u32, name: Seq<char>, steam_id32: Seq<char> },
    Kill { when: Timestamp, killer: Seq<char>, victim: Seq<char>, weapon: Seq<char>, crit: bool },
    Suicide { when: Timestamp, name: Seq<char> },
    LobbyCreated { when: Timestamp },
    LobbyDestroyed { when: Timestamp },
    Chat { when: Timestamp, name: Seq<char>, message: Seq<char>, dead: bool, team: bool },
    PlayerTeam { steam_id32: Seq<char>, team: Seq<char> },
}

impl View for LogLine {
    type V = LogLineView;

    open spec fn view(&self) -> LogLineView {
        match *self {
            LogLine::Unknown { line } => LogLineView::Unknown { line: line@ },
            LogLine::StatusHeader { when } => LogLineView::StatusHeader { when },
            LogLine::StatusForPlayer { when, id, name, steam_id32 } => LogLineView::StatusForPlayer {
                when,
                id,
                name: name@,
                steam_id32: steam_id32@,
            },
            LogLine::Kill { when, killer, victim, weapon, crit } => LogLineView::Kill {
                when,
                killer: killer@,
                victim: victim@,
                weapon: weapon@,
                crit,
            },
            LogLine::Suicide { when, name } => LogLineView::Suicide { when, name: name@ },
            LogLine::LobbyCreated { when } => LogLineView::LobbyCreated { when },
            LogLine::LobbyDestroyed { when } => LogLineView::LobbyDestroyed { when },
            LogLine::Chat { when, name, message, dead, team } => LogLineView::Chat {
                when,
                name: name@,
                message: message@,
                dead,
                team,
            },
            LogLine::PlayerTeam { steam_id32, team } => LogLineView::PlayerTeam {
                steam_id32: steam_id32@,
                team: team@,
            },
        }
    }
}

impl Clone for LogLine {
    fn clone(&self) -> (r: LogLine)
        ensures
            r@ == self@,
    {
        match self {
            LogLine::Unknown { line } => LogLine::Unknown { line: line.clone() },
            LogLine::StatusHeader { when } => LogLine::StatusHeader { when: *when },
            LogLine::StatusForPlayer { when, id, name, steam_id32 } => LogLine::StatusForPlayer {
                when: *when,
                id: *id,
                name: name.clone(),
                steam_id32: steam_id32.clone(),
            },
            LogLine::Kill { when, killer, victim, weapon, crit } => LogLine::Kill {
                when: *when,
                killer: killer.clone(),
                victim: victim.clone(),
                weapon: weapon.clone(),
                crit: *crit,
            },
            LogLine::Suicide { when, name } => LogLine::Suicide { when: *when, name: name.clone() },
            LogLine::LobbyCreated { when } => LogLine::LobbyCreated { when: *when },
            LogLine::LobbyDestroyed { when } => LogLine::LobbyDestroyed { when: *when },
            LogLine::Chat { when, name, message, dead, team } => LogLine::Chat {
                when: *when,
                name: name.clone(),
                message: message.clone(),
                dead: *dead,
                team: *team,
            },
            LogLine::PlayerTeam { steam_id32, team } => LogLine::PlayerTeam {
                steam_id32: steam_id32.clone(),
                team: team.clone(),
            },
        }
    }
}

} // verus!
