//! Plain data shared by every part of the library, and the state of the
//! window that shows the lobby.

use crate::tf2::lobby::model::LobbyView;
use crate::tf2::lobby::Lobby;
use vstd::prelude::*;

pub mod steamid;
pub mod timestamp;

use self::steamid::SteamID;

verus! {

/// What the window shows: the lobby as it was last reported, who the user
/// is, and how the user wants it shown.
pub struct AppWin {
    pub lobby: Lobby,
    pub self_steamid: SteamID,
    pub swap_team_colors: bool,
    pub show_crits: bool,
}

impl AppWin {
    /// The window of the user `self_steamid` before any report: an empty
    /// lobby, the team colours as the game has them, critical hits shown.
    pub fn new(self_steamid: SteamID) -> (r: AppWin)
        ensures
            r.lobby@ == LobbyView::empty(),
            r.self_steamid == self_steamid,
            !r.swap_team_colors,
            r.show_crits,
    {
        AppWin { lobby: Lobby::new(), self_steamid, swap_team_colors: false, show_crits: true }
    }

    /// Takes in the reports that have come since the last look, oldest
    /// first: the newest one is what the window shows from now on. Without
    /// a report the window keeps what it has.
    pub fn process_bus(&mut self, reports: Vec<Lobby>)
        ensures
            final(self).lobby@ == if reports@.len() > 0 {
                reports@.last()@
            } else {
                old(self).lobby@
            },
            final(self).self_steamid == old(self).self_steamid,
            final(self).swap_team_colors == old(self).swap_team_colors,
            final(self).show_crits == old(self).show_crits,
    {
        let mut reports = reports;
        match reports.pop() {
            Some(lobby) => {
                self.lobby = lobby;
            },
            None => {},
        }
    }
}

/// A mark that the user can put on a player.
#[derive(Debug, Copy, Clone, PartialEq, Eq, Structural)]
pub enum PlayerFlags {
    Cheater,
    Bot,
    Sus,
    New,
    Racist,
    Exploiter,
}

/// The letter that stands for a mark.
pub open spec fn flag_shortname_text(flag: PlayerFlags) -> Seq<char> {
    match flag {
        PlayerFlags::Cheater => "C"@,
        PlayerFlags::Bot => "B"@,
        PlayerFlags::Sus => "S"@,
        PlayerFlags::New => "N"@,
        PlayerFlags::Racist => "R"@,
        PlayerFlags::Exploiter => "E"@,
    }
}

/// The words that say what a mark means.
pub open spec fn flag_description_text(flag: PlayerFlags) -> Seq<char> {
    match flag {
        PlayerFlags::Cheater => "Cheater"@,
        PlayerFlags::Bot => "Bot"@,
        PlayerFlags::Sus => "Suspicious"@,
        PlayerFlags::New => "New Account"@,
        PlayerFlags::Racist => "Racist"@,
        PlayerFlags::Exploiter => "Exploiter"@,
    }
}

/// The letter that stands for the mark `flag`.
pub fn flag_shortname(flag: PlayerFlags) -> (r: &'static str)
    ensures
        r@ == flag_shortname_text(flag),
{
    match flag {
        PlayerFlags::Cheater => "C",
        PlayerFlags::Bot => "B",
        PlayerFlags::Sus => "S",
        PlayerFlags::New => "N",
        PlayerFlags::Racist => "R",
        PlayerFlags::Exploiter => "E",
    }
}

/// The words that say what the mark `flag` means.
pub fn flag_description(flag: PlayerFlags) -> (r: &'static str)
    ensures
        r@ == flag_description_text(flag),
{
    match flag {
        PlayerFlags::Cheater => "Cheater",
        PlayerFlags::Bot => "Bot",
        PlayerFlags::Sus => "Suspicious",
        PlayerFlags::New => "New Account",
        PlayerFlags::Racist => "Racist",
        PlayerFlags::Exploiter => "Exploiter",
    }
}

} // verus!
