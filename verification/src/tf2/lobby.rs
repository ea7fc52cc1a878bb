//! The lobby: its players, their statistics and the chat transcript.

use crate::models::steamid::SteamID;
use crate::models::timestamp::{local_date, now, Timestamp};
use std::borrow::ToOwned;
use vstd::prelude::*;

pub mod laws;
pub mod lobby_thread;
pub mod model;

use self::model::{
    team_of_code, LobbyChatView, LobbyView, PlayerKillView, PlayerSteamInfoView, PlayerView,
    NEW_ACCOUNT_DAYS,
};

verus! {

/// `str`'s equality, `<str as PartialEq>::eq`: two string slices are equal
/// exactly when they hold the same characters.
pub assume_specification[ <str as PartialEq>::eq ](a: &str, b: &str) -> (r: bool)
    ensures
        r == (a@ == b@),
;

/// The side a player is on. The order of the variants is the order in which
/// the teams are listed.
#[derive(Debug, Copy, Clone, PartialEq, Eq, PartialOrd, Ord, Structural)]
pub enum Team {
    Unknown,
    Invaders,
    Defendes,
    Spec,
}

/// One kill that a player made.
#[derive(Debug)]
pub struct PlayerKill {
    pub weapon: String,
    pub crit: bool,
}

/// What the profile service knows of an account.
#[derive(Debug)]
pub struct PlayerSteamInfo {
    pub steamid: SteamID,
    pub name: String,
    pub avatar: String,
    pub avatarmedium: String,
    pub avatarfull: String,
    pub account_age: Option<Timestamp>,
}

/// One player of the lobby.
#[derive(Debug)]
pub struct Player {
    pub id: u32,
    pub steamid: SteamID,
    pub name: String,
    pub team: Team,
    pub kills: u32,
    pub deaths: u32,
    pub crit_kills: u32,
    pub crit_deaths: u32,
    pub kills_with: Vec<PlayerKill>,
    pub last_seen: Timestamp,
    pub steam_info: Option<PlayerSteamInfo>,
}

/// One line of the chat transcript.
#[derive(Debug)]
pub struct LobbyChat {
    pub when: Timestamp,
    pub steamid: SteamID,
    pub message: String,
    pub dead: bool,
    pub team: bool,
}

/// The lobby: the players in the order in which they were first seen, and
/// the chat lines in the order in which they were said.
#[derive(Debug)]
pub struct Lobby {
    pub players: Vec<Player>,
    pub chat: Vec<LobbyChat>,
}

impl Team {
    /// The team that a team code of the log names; a code that names none
    /// stands for no team.
    pub fn from_code(code: &str) -> (r: Team)
        ensures
            r == team_of_code(code@),
    {
        if *code == *"INVADERS" {
            Team::Invaders
        } else if *code == *"DEFENDERS" {
            Team::Defendes
        } else if *code == *"SPEC" {
            Team::Spec
        } else {
            Team::Unknown
        }
    }
}

impl Player {
    /// The record of a player who has just been seen for the first time: on
    /// no team, with nothing to its name and no profile.
    pub fn new(id: u32, steamid: SteamID, name: String, when: Timestamp) -> (r: Player)
        ensures
            r@ == PlayerView::fresh(id, steamid, name@, when),
    {
        let r = Player {
            id,
            steamid,
            name,
            team: Team::Unknown,
            kills: 0,
            deaths: 0,
            crit_kills: 0,
            crit_deaths: 0,
            kills_with: Vec::new(),
            last_seen: when,
            steam_info: None,
        };
        assert(r@.kills_with =~= Seq::empty());
        r
    }
}

/// The text shown for the day on which an account was made: the day where
/// it is known, the word `Unknown` where it is not.
pub fn date_or_unknown(date: Option<String>) -> (r: String)
    ensures
        r@ == match date {
            Some(day) => day@,
            None => "Unknown"@,
        },
{
    match date {
        Some(day) => day,
        None => "Unknown".to_owned(),
    }
}

impl PlayerSteamInfo {
    /// The day on which the account was made, as a date in the time zone of
    /// the machine, or the word `Unknown` where the service did not tell it
    /// or the instant has no date.
    pub fn get_account_created(&self) -> (r: String)
        ensures
            self.account_age is None ==> r@ == "Unknown"@,
    {
        match self.account_age {
            Some(created) => date_or_unknown(local_date(created)),
            None => date_or_unknown(None),
        }
    }

    /// Whether the account was made less than 365 days before `now`. An
    /// account of unknown age is not new.
    pub fn is_account_new_at(&self, now: Timestamp) -> (r: bool)
        ensures
            r == self@.is_account_new_at(now),
    {
        match self.account_age {
            Some(created) => now.is_less_than_days_after(&created, NEW_ACCOUNT_DAYS),
            None => false,
        }
    }

    /// Whether the account was made less than 365 days before the instant
    /// that the system clock shows. An account of unknown age is not new.
    pub fn is_account_new(&self) -> (r: bool)
        ensures
            exists|now: Timestamp| r == #[trigger] self@.is_account_new_at(now),
            self.account_age is None ==> !r,
    {
        let now = now();
        self.is_account_new_at(now)
    }
}

impl Default for LobbyChat {
    /// An empty line at the Unix epoch, said by nobody.
    fn default() -> (r: LobbyChat)
        ensures
            r@ == (LobbyChatView {
                when: Timestamp { secs: 0, nanos: 0 },
                steamid: SteamID(0),
                message: Seq::empty(),
                dead: false,
                team: false,
            }),
    {
        LobbyChat {
            when: Timestamp::default(),
            steamid: SteamID::default(),
            message: String::new(),
            dead: false,
            team: false,
        }
    }
}

impl Default for Lobby {
    /// The lobby without players and without chat.
    fn default() -> (r: Lobby)
        ensures
            r@ == LobbyView::empty(),
    {
        Lobby::new()
    }
}

impl View for PlayerKill {
    type V = PlayerKillView;

    open spec fn view(&self) -> PlayerKillView {
        PlayerKillView { weapon: self.weapon@, crit: self.crit }
    }
}

impl View for PlayerSteamInfo {
    type V = PlayerSteamInfoView;

    open spec fn view(&self) -> PlayerSteamInfoView {
        PlayerSteamInfoView {
            steamid: self.steamid,
            name: self.name@,
            avatar: self.avatar@,
            avatarmedium: self.avatarmedium@,
            avatarfull: self.avatarfull@,
            account_age: self.account_age,
        }
    }
}

impl View for Player {
    type V = PlayerView;

    open spec fn view(&self) -> PlayerView {
        PlayerView {
            id: self.id,
            steamid: self.steamid,
            name: self.name@,
            team: self.team,
            kills: self.kills,
            deaths: self.deaths,
            crit_kills: self.crit_kills,
            crit_deaths: self.crit_deaths,
            kills_with: self.kills_with@.map_values(|k: PlayerKill| k@),
            last_seen: self.last_seen,
            steam_info: match self.steam_info {
                Some(info) => Some(info@),
                None => None,
            },
        }
    }
}

impl View for LobbyChat {
    type V = LobbyChatView;

    open spec fn view(&self) -> LobbyChatView {
        LobbyChatView {
            when: self.when,
            steamid: self.steamid,
            message: self.message@,
            dead: self.dead,
            team: self.team,
        }
    }
}

/// The players `players`, as values.
pub open spec fn player_views(players: Seq<Player>) -> Seq<PlayerView> {
    players.map_values(|p: Player| p@)
}

/// The chat lines `chat`, as values.
pub open spec fn chat_views(chat: Seq<LobbyChat>) -> Seq<LobbyChatView> {
    chat.map_values(|c: LobbyChat| c@)
}

impl View for Lobby {
    type V = LobbyView;

    open spec fn view(&self) -> LobbyView {
        LobbyView { players: player_views(self.players@), chat: chat_views(self.chat@) }
    }
}

impl Clone for PlayerKill {
    fn clone(&self) -> (r: PlayerKill)
        ensures
            r@ == self@,
    {
        PlayerKill { weapon: self.weapon.clone(), crit: self.crit }
    }
}

impl Clone for PlayerSteamInfo {
    fn clone(&self) -> (r: PlayerSteamInfo)
        ensures
            r@ == self@,
    {
        PlayerSteamInfo {
            steamid: self.steamid,
            name: self.name.clone(),
            avatar: self.avatar.clone(),
            avatarmedium: self.avatarmedium.clone(),
            avatarfull: self.avatarfull.clone(),
            account_age: self.account_age,
        }
    }
}

impl Clone for Player {
    fn clone(&self) -> (r: Player)
        ensures
            r@ == self@,
    {
        let mut kills_with: Vec<PlayerKill> = Vec::new();
        let mut i: usize = 0;
        while i < self.kills_with.len()
            invariant
                i <= self.kills_with.len(),
                kills_with@.len() == i,
                forall|j: int| 0 <= j < i ==> (#[trigger] kills_with@[j])@ == self.kills_with@[j]@,
            decreases self.kills_with.len() - i,
        {
            kills_with.push(self.kills_with[i].clone());
            i += 1;
        }
        let steam_info = match &self.steam_info {
            Some(info) => Some(info.clone()),
            None => None,
        };
        let r = Player {
            id: self.id,
            steamid: self.steamid,
            name: self.name.clone(),
            team: self.team,
            kills: self.kills,
            deaths: self.deaths,
            crit_kills: self.crit_kills,
            crit_deaths: self.crit_deaths,
            kills_with,
            last_seen: self.last_seen,
            steam_info,
        };
        assert(r@.kills_with =~= self@.kills_with);
        r
    }
}

impl Clone for LobbyChat {
    fn clone(&self) -> (r: LobbyChat)
        ensures
            r@ == self@,
    {
        LobbyChat {
            when: self.when,
            steamid: self.steamid,
            message: self.message.clone(),
            dead: self.dead,
            team: self.team,
        }
    }
}

impl Clone for Lobby {
    /// An independent copy of the lobby: the two share nothing, so that a
    /// change to one never shows in the other.
    fn clone(&self) -> (r: Lobby)
        ensures
            r@ == self@,
    {
        let mut players: Vec<Player> = Vec::new();
        let mut i: usize = 0;
        while i < self.players.len()
            invariant
                i <= self.players.len(),
                players@.len() == i,
                forall|j: int| 0 <= j < i ==> (#[trigger] players@[j])@ == self.players@[j]@,
            decreases self.players.len() - i,
        {
            players.push(self.players[i].clone());
            i += 1;
        }
        let mut chat: Vec<LobbyChat> = Vec::new();
        let mut k: usize = 0;
        while k < self.chat.len()
            invariant
                k <= self.chat.len(),
                chat@.len() == k,
                forall|j: int| 0 <= j < k ==> (#[trigger] chat@[j])@ == self.chat@[j]@,
            decreases self.chat.len() - k,
        {
            chat.push(self.chat[k].clone());
            k += 1;
        }
        let r = Lobby { players, chat };
        assert(r@.players =~= self@.players);
        assert(r@.chat =~= self@.chat);
        r
    }
}

/// The characters of a name that may be absent.
pub open spec fn name_view(name: Option<&str>) -> Option<Seq<char>> {
    match name {
        Some(n) => Some(n@),
        None => None,
    }
}

impl Lobby {
    /// The lobby without players and without chat.
    pub fn new() -> (r: Lobby)
        ensures
            r@ == LobbyView::empty(),
    {
        let r = Lobby { players: Vec::new(), chat: Vec::new() };
        assert(r@.players =~= Seq::empty());
        assert(r@.chat =~= Seq::empty());
        r
    }

    /// The place of the first player with the name `name` or the identity
    /// `steamid`, if there is one.
    pub fn find_index(&self, name: Option<&str>, steamid: Option<SteamID>) -> (r: Option<usize>)
        ensures
            match r {
                Some(i) => i < self.players.len() && self@.find(name_view(name), steamid) == Some(
                    i as int,
                ),
                None => self@.find(name_view(name), steamid) is None,
            },
    {
        let mut i: usize = 0;
        while i < self.players.len()
            invariant
                i <= self.players.len(),
                forall|j: int|
                    0 <= j < i ==> !(#[trigger] self@.players[j]).matches(
                        name_view(name),
                        steamid,
                    ),
            decreases self.players.len() - i,
        {
            let by_name = match name {
                Some(n) => *self.players[i].name.as_str() == *n,
                None => false,
            };
            let by_steamid = match steamid {
                Some(s) => self.players[i].steamid == s,
                None => false,
            };
            assert((by_name || by_steamid) == self@.players[i as int].matches(
                name_view(name),
                steamid,
            ));
            if by_name || by_steamid {
                proof {
                    self@.lemma_find_is(name_view(name), steamid, i as int);
                }
                return Some(i);
            }
            i += 1;
        }
        proof {
            self@.lemma_find_none(name_view(name), steamid);
        }
        None
    }

    /// The first player with the name `name` or the identity `steamid`, if
    /// there is one.
    pub fn get_player(&self, name: Option<&str>, steamid: Option<SteamID>) -> (r: Option<&Player>)
        ensures
            match r {
                Some(p) => self@.find(name_view(name), steamid) is Some && *p
                    == self.players[self@.find(name_view(name), steamid)->0],
                None => self@.find(name_view(name), steamid) is None,
            },
    {
        match self.find_index(name, steamid) {
            Some(i) => Some(&self.players[i]),
            None => None,
        }
    }

    /// The first player with the name `name` or the identity `steamid`, if
    /// there is one, to be changed in place. The lobby afterwards is the
    /// lobby before with that player as the caller left it.
    pub fn get_player_mut(&mut self, name: Option<&str>, steamid: Option<SteamID>) -> (r: Option<
        &mut Player,
    >)
        ensures
            match r {
                Some(p) => {
                    &&& old(self)@.find(name_view(name), steamid) is Some
                    &&& *p == old(self).players[old(self)@.find(name_view(name), steamid)->0]
                    &&& final(self).players@ == old(self).players@.update(
                        old(self)@.find(name_view(name), steamid)->0,
                        *final(p),
                    )
                    &&& final(self).chat == old(self).chat
                },
                None => old(self)@.find(name_view(name), steamid) is None && *final(self) == *old(
                    self,
                ),
            },
    {
        match self.find_index(name, steamid) {
            Some(i) => Some(&mut self.players[i]),
            None => None,
        }
    }
}

} // verus!
