//! The mathematical model of the lobby and of every operation on it.

use crate::models::steamid::{parse_steam_id32, parse_u64_string, SteamID};
use crate::models::timestamp::{Timestamp, NANOS_PER_SECOND, SECONDS_PER_DAY};
use crate::tf2::lobby::Team;
use crate::tf2::logfile::LogLineView;
use vstd::prelude::*;

verus! {

/// A kill, as a value.
pub struct PlayerKillView {
    pub weapon: Seq<char>,
    pub crit: bool,
}

/// A profile, as a value.
pub struct PlayerSteamInfoView {
    pub steamid: SteamID,
    pub name: Seq<char>,
    pub avatar: Seq<char>,
    pub avatarmedium: Seq<char>,
    pub avatarfull: Seq<char>,
    pub account_age: Option<Timestamp>,
}

/// A player, as a value.
pub struct PlayerView {
    pub id: u32,
    pub steamid: SteamID,
    pub name: Seq<char>,
    pub team: Team,
    pub kills: u32,
    pub deaths: u32,
    pub crit_kills: u32,
    pub crit_deaths: u32,
    pub kills_with: Seq<PlayerKillView>,
    pub last_seen: Timestamp,
    pub steam_info: Option<PlayerSteamInfoView>,
}

/// A chat line, as a value.
pub struct LobbyChatView {
    pub when: Timestamp,
    pub steamid: SteamID,
    pub message: Seq<char>,
    pub dead: bool,
    pub team: bool,
}

/// The lobby, as a value.
pub struct LobbyView {
    pub players: Seq<PlayerView>,
    pub chat: Seq<LobbyChatView>,
}

/// Whether no two of the players `players` have the same identity.
pub open spec fn distinct_identities(players: Seq<PlayerView>) -> bool {
    forall|i: int, j: int|
        0 <= i < j < players.len() ==> (#[trigger] players[i]).steamid != (
        #[trigger] players[j]).steamid
}

/// The seconds after which a player who was not seen again leaves the lobby.
pub const MAX_AGE_SECONDS: u64 = 30;

/// The days for which an account counts as new.
pub const NEW_ACCOUNT_DAYS: u32 = 365;

/// A counter one step on; at its greatest value it stays.
pub open spec fn bump(n: u32) -> u32 {
    if n < u32::MAX {
        (n + 1) as u32
    } else {
        n
    }
}

impl PlayerView {
    /// The record of a player who has just been seen for the first time.
    pub open spec fn fresh(id: u32, steamid: SteamID, name: Seq<char>, when: Timestamp) -> PlayerView {
        PlayerView {
            id,
            steamid,
            name,
            team: Team::Unknown,
            kills: 0,
            deaths: 0,
            crit_kills: 0,
            crit_deaths: 0,
            kills_with: Seq::empty(),
            last_seen: when,
            steam_info: None,
        }
    }

    /// Whether the player is the one asked for by name or by identity.
    pub open spec fn matches(self, name: Option<Seq<char>>, steamid: Option<SteamID>) -> bool {
        Some(self.name) == name || Some(self.steamid) == steamid
    }

    /// The player after a status line named it again.
    pub open spec fn seen(self, id: u32, name: Seq<char>, when: Timestamp) -> PlayerView {
        PlayerView { id, name, last_seen: when, ..self }
    }

    /// The player on another team.
    pub open spec fn on_team(self, team: Team) -> PlayerView {
        PlayerView { team, ..self }
    }

    /// The player after one more kill.
    pub open spec fn credit_kill(self, weapon: Seq<char>, crit: bool) -> PlayerView {
        PlayerView {
            kills: bump(self.kills),
            crit_kills: if crit {
                bump(self.crit_kills)
            } else {
                self.crit_kills
            },
            kills_with: self.kills_with.push(PlayerKillView { weapon, crit }),
            ..self
        }
    }

    /// The player after one more death.
    pub open spec fn credit_death(self, crit: bool) -> PlayerView {
        PlayerView {
            deaths: bump(self.deaths),
            crit_deaths: if crit {
                bump(self.crit_deaths)
            } else {
                self.crit_deaths
            },
            ..self
        }
    }

    /// The player with a profile attached, in place of any earlier one.
    pub open spec fn with_steam_info(self, info: PlayerSteamInfoView) -> PlayerView {
        PlayerView { steam_info: Some(info), ..self }
    }

    /// Whether the player was last seen more than `max_age` seconds before
    /// `now`.
    pub open spec fn is_stale(self, now: Timestamp, max_age: u64) -> bool {
        now@ - self.last_seen@ > max_age * NANOS_PER_SECOND
    }
}

impl PlayerSteamInfoView {
    /// Whether the account was made less than a year of 365 days before
    /// `now`. An account of unknown age is not new.
    pub open spec fn is_account_new_at(self, now: Timestamp) -> bool {
        match self.account_age {
            Some(created) => now@ - created@ < NEW_ACCOUNT_DAYS * SECONDS_PER_DAY
                * NANOS_PER_SECOND,
            None => false,
        }
    }
}

impl LobbyView {
    /// The lobby without players and without chat.
    pub open spec fn empty() -> LobbyView {
        LobbyView { players: Seq::empty(), chat: Seq::empty() }
    }

    /// Whether the lobby holds at most one record for each identity.
    pub open spec fn wf(self) -> bool {
        distinct_identities(self.players)
    }

    /// Whether the player at `i` is the first that is asked for.
    pub open spec fn is_first_match(
        self,
        name: Option<Seq<char>>,
        steamid: Option<SteamID>,
        i: int,
    ) -> bool {
        &&& 0 <= i < self.players.len()
        &&& self.players[i].matches(name, steamid)
        &&& forall|j: int| 0 <= j < i ==> !(#[trigger] self.players[j]).matches(name, steamid)
    }

    /// The place of the first player that is asked for by name or by
    /// identity, if there is one.
    pub open spec fn find(self, name: Option<Seq<char>>, steamid: Option<SteamID>) -> Option<int> {
        if exists|i: int| self.is_first_match(name, steamid, i) {
            Some(choose|i: int| self.is_first_match(name, steamid, i))
        } else {
            None
        }
    }

    /// Where a player is asked for, there is a first such player at or
    /// before it.
    pub proof fn lemma_first_match_exists(
        self,
        name: Option<Seq<char>>,
        steamid: Option<SteamID>,
        j: int,
    )
        requires
            0 <= j < self.players.len(),
            self.players[j].matches(name, steamid),
        ensures
            exists|i: int| 0 <= i <= j && self.is_first_match(name, steamid, i),
        decreases j,
    {
        if forall|k: int| 0 <= k < j ==> !(#[trigger] self.players[k]).matches(name, steamid) {
            assert(self.is_first_match(name, steamid, j));
        } else {
            let k = choose|k: int| 0 <= k < j && (#[trigger] self.players[k]).matches(name, steamid);
            self.lemma_first_match_exists(name, steamid, k);
        }
    }

    /// `find` gives the first player that is asked for, and gives none only
    /// where no player is asked for.
    pub proof fn lemma_find(self, name: Option<Seq<char>>, steamid: Option<SteamID>)
        ensures
            match self.find(name, steamid) {
                Some(i) => self.is_first_match(name, steamid, i),
                None => forall|j: int|
                    0 <= j < self.players.len() ==> !(#[trigger] self.players[j]).matches(
                        name,
                        steamid,
                    ),
            },
    {
        if self.find(name, steamid) is None {
            assert forall|j: int| 0 <= j < self.players.len() implies !(
            #[trigger] self.players[j]).matches(name, steamid) by {
                if self.players[j].matches(name, steamid) {
                    self.lemma_first_match_exists(name, steamid, j);
                }
            }
        }
    }

    /// The first player that is asked for is what `find` gives.
    pub proof fn lemma_find_is(self, name: Option<Seq<char>>, steamid: Option<SteamID>, i: int)
        requires
            self.is_first_match(name, steamid, i),
        ensures
            self.find(name, steamid) == Some(i),
    {
        let k = choose|k: int| self.is_first_match(name, steamid, k);
        if k < i {
            assert(!self.players[k].matches(name, steamid));
        } else if i < k {
            assert(!self.players[i].matches(name, steamid));
        }
    }

    /// Where no player is asked for, `find` gives none.
    pub proof fn lemma_find_none(self, name: Option<Seq<char>>, steamid: Option<SteamID>)
        requires
            forall|j: int|
                0 <= j < self.players.len() ==> !(#[trigger] self.players[j]).matches(
                    name,
                    steamid,
                ),
        ensures
            self.find(name, steamid) is None,
    {
        if self.find(name, steamid) is Some {
            let k = choose|k: int| self.is_first_match(name, steamid, k);
            assert(self.players[k].matches(name, steamid));
        }
    }

    /// A lobby whose players have, place by place, the names and identities
    /// of the players of `other` finds the same players.
    pub proof fn lemma_find_same_names(
        self,
        other: LobbyView,
        name: Option<Seq<char>>,
        steamid: Option<SteamID>,
    )
        requires
            self.players.len() == other.players.len(),
            forall|j: int|
                0 <= j < self.players.len() ==> (#[trigger] self.players[j]).name
                    == other.players[j].name && self.players[j].steamid
                    == other.players[j].steamid,
        ensures
            self.find(name, steamid) == other.find(name, steamid),
    {
        other.lemma_find(name, steamid);
        match other.find(name, steamid) {
            Some(i) => {
                assert forall|j: int| 0 <= j < i implies !(#[trigger] self.players[j]).matches(
                    name,
                    steamid,
                ) by {
                    assert(!other.players[j].matches(name, steamid));
                }
                assert(self.players[i].matches(name, steamid));
                self.lemma_find_is(name, steamid, i);
            },
            None => {
                assert forall|j: int| 0 <= j < self.players.len() implies !(
                #[trigger] self.players[j]).matches(name, steamid) by {
                    assert(!other.players[j].matches(name, steamid));
                }
                self.lemma_find_none(name, steamid);
            },
        }
    }

    /// Crediting a kill changes no name and no identity.
    pub proof fn lemma_credit_kill_keeps_names(self, killer: Seq<char>, weapon: Seq<char>, crit: bool)
        ensures
            self.credit_kill(killer, weapon, crit).players.len() == self.players.len(),
            forall|j: int|
                0 <= j < self.players.len() ==> (#[trigger] self.credit_kill(
                    killer,
                    weapon,
                    crit,
                ).players[j]).name == self.players[j].name && self.credit_kill(
                    killer,
                    weapon,
                    crit,
                ).players[j].steamid == self.players[j].steamid,
    {
        self.lemma_find(Some(killer), None);
    }

    /// The lobby with the player at `i` replaced.
    pub open spec fn with_player(self, i: int, player: PlayerView) -> LobbyView {
        LobbyView { players: self.players.update(i, player), ..self }
    }

    /// The lobby with one more player at the end.
    pub open spec fn with_new_player(self, player: PlayerView) -> LobbyView {
        LobbyView { players: self.players.push(player), ..self }
    }

    /// The lobby after a status line named a player. A player with that
    /// identity is brought up to date in place; another one joins at the end
    /// with nothing to its name. A line whose identity cannot be read
    /// changes nothing.
    pub open spec fn player_seen(
        self,
        when: Timestamp,
        id: u32,
        name: Seq<char>,
        steam_id32: Seq<char>,
    ) -> LobbyView {
        match parse_steam_id32(steam_id32) {
            Some(steamid) => match self.find(None, Some(steamid)) {
                Some(i) => self.with_player(i, self.players[i].seen(id, name, when)),
                None => self.with_new_player(PlayerView::fresh(id, steamid, name, when)),
            },
            None => self,
        }
    }

    /// The lobby after a player was put on a team. A player that the lobby
    /// does not know yet joins it under the text of its identity, on no
    /// team, seen at `now`. A line whose identity cannot be read changes
    /// nothing.
    pub open spec fn assign_team(
        self,
        steam_id32: Seq<char>,
        team: Seq<char>,
        now: Timestamp,
    ) -> LobbyView {
        match parse_steam_id32(steam_id32) {
            Some(steamid) => match self.find(None, Some(steamid)) {
                Some(i) => self.with_player(i, self.players[i].on_team(team_of_code(team))),
                None => self.with_new_player(PlayerView::fresh(0, steamid, steam_id32, now)),
            },
            None => self,
        }
    }

    /// The lobby after the first player called `killer`, if there is one,
    /// made a kill.
    pub open spec fn credit_kill(self, killer: Seq<char>, weapon: Seq<char>, crit: bool) -> LobbyView {
        match self.find(Some(killer), None) {
            Some(i) => self.with_player(i, self.players[i].credit_kill(weapon, crit)),
            None => self,
        }
    }

    /// The lobby after the first player called `victim`, if there is one,
    /// died.
    pub open spec fn credit_death(self, victim: Seq<char>, crit: bool) -> LobbyView {
        match self.find(Some(victim), None) {
            Some(i) => self.with_player(i, self.players[i].credit_death(crit)),
            None => self,
        }
    }

    /// The lobby after a kill: the killer is credited, then the victim.
    /// Whoever of the two is not in the lobby is passed over.
    pub open spec fn kill(
        self,
        killer: Seq<char>,
        victim: Seq<char>,
        weapon: Seq<char>,
        crit: bool,
    ) -> LobbyView {
        self.credit_kill(killer, weapon, crit).credit_death(victim, crit)
    }

    /// The lobby after a player took its own life.
    pub open spec fn suicide(self, name: Seq<char>) -> LobbyView {
        self.credit_death(name, false)
    }

    /// The lobby after a chat line. The line of a speaker that the lobby
    /// does not know is dropped.
    pub open spec fn chat(
        self,
        when: Timestamp,
        name: Seq<char>,
        message: Seq<char>,
        dead: bool,
        team: bool,
    ) -> LobbyView {
        match self.find(Some(name), None) {
            Some(i) => LobbyView {
                chat: self.chat.push(
                    LobbyChatView { when, steamid: self.players[i].steamid, message, dead, team },
                ),
                ..self
            },
            None => self,
        }
    }

    /// The lobby without the players last seen more than `max_age` seconds
    /// before `now`; the others stay in their order.
    pub open spec fn evict_stale(self, now: Timestamp, max_age: u64) -> LobbyView {
        LobbyView {
            players: self.players.filter(|p: PlayerView| !p.is_stale(now, max_age)),
            ..self
        }
    }

    /// The lobby after a status header seen at `when`.
    pub open spec fn purge_old_players(self, when: Timestamp) -> LobbyView {
        self.evict_stale(when, MAX_AGE_SECONDS)
    }

    /// The identities of the players without a profile, in the order of the
    /// players.
    pub open spec fn missing_steam_info(self) -> Seq<SteamID> {
        self.players.filter(|p: PlayerView| p.steam_info is None).map_values(
            |p: PlayerView| p.steamid,
        )
    }

    /// The lobby after one profile came back from the service. It takes the
    /// place of the profile of the first player with its identity; where the
    /// identity cannot be read, or no player has it, nothing changes.
    pub open spec fn set_steam_info(self, summary: SteamPlayerView) -> LobbyView {
        match parse_u64_string(summary.steamid) {
            Some(steamid) => match self.find(None, Some(steamid)) {
                Some(i) => self.with_player(
                    i,
                    self.players[i].with_steam_info(summary.steam_info(steamid)),
                ),
                None => self,
            },
            None => self,
        }
    }

    /// The lobby after the profiles `summaries` came back, taken in order.
    pub open spec fn merge_steam_info(self, summaries: Seq<SteamPlayerView>) -> LobbyView
        decreases summaries.len(),
    {
        if summaries.len() == 0 {
            self
        } else {
            self.merge_steam_info(summaries.drop_last()).set_steam_info(summaries.last())
        }
    }
}

impl LobbyView {
    /// The lobby after one event of the log, where the system clock shows
    /// `now` as the event is taken in.
    pub open spec fn apply(self, line: LogLineView, now: Timestamp) -> LobbyView {
        match line {
            LogLineView::Unknown { .. } => self,
            LogLineView::StatusHeader { when } => self.purge_old_players(when),
            LogLineView::StatusForPlayer { when, id, name, steam_id32 } => self.player_seen(
                when,
                id,
                name,
                steam_id32,
            ),
            LogLineView::Kill { killer, victim, weapon, crit, .. } => self.kill(
                killer,
                victim,
                weapon,
                crit,
            ),
            LogLineView::Suicide { name, .. } => self.suicide(name),
            LogLineView::LobbyCreated { .. } => LobbyView::empty(),
            LogLineView::LobbyDestroyed { .. } => self,
            LogLineView::Chat { when, name, message, dead, team } => self.chat(
                when,
                name,
                message,
                dead,
                team,
            ),
            LogLineView::PlayerTeam { steam_id32, team } => self.assign_team(steam_id32, team, now),
        }
    }

    /// The lobby after the events `lines`, taken in order, where the system
    /// clock shows `clock[i]` as the event `lines[i]` is taken in.
    pub open spec fn apply_all(self, lines: Seq<LogLineView>, clock: Seq<Timestamp>) -> LobbyView
        decreases lines.len(),
    {
        if lines.len() == 0 {
            self
        } else {
            self.apply_all(lines.drop_last(), clock).apply(lines.last(), clock[lines.len() - 1])
        }
    }

    /// The events see of the clock only the readings that were made for
    /// them.
    pub proof fn lemma_apply_all_clock(
        self,
        lines: Seq<LogLineView>,
        clock: Seq<Timestamp>,
        other: Seq<Timestamp>,
    )
        requires
            lines.len() <= clock.len() <= other.len(),
            forall|i: int| 0 <= i < lines.len() ==> clock[i] == other[i],
        ensures
            self.apply_all(lines, clock) == self.apply_all(lines, other),
        decreases lines.len(),
    {
        if lines.len() > 0 {
            self.lemma_apply_all_clock(lines.drop_last(), clock, other);
        }
    }

    /// Whether the event `line` finds every player that it names by name.
    pub open spec fn resolves(self, line: LogLineView) -> bool {
        match line {
            LogLineView::Kill { killer, victim, .. } => self.find(Some(killer), None) is Some
                && self.find(Some(victim), None) is Some,
            LogLineView::Suicide { name, .. } => self.find(Some(name), None) is Some,
            LogLineView::Chat { name, .. } => self.find(Some(name), None) is Some,
            _ => true,
        }
    }
}

/// The team that a team code of the log names; a code that names none
/// stands for no team.
pub open spec fn team_of_code(code: Seq<char>) -> Team {
    if code == "INVADERS"@ {
        Team::Invaders
    } else if code == "DEFENDERS"@ {
        Team::Defendes
    } else if code == "SPEC"@ {
        Team::Spec
    } else {
        Team::Unknown
    }
}

/// One account as the profile service describes it, as a value.
pub struct SteamPlayerView {
    pub steamid: Seq<char>,
    pub personaname: Seq<char>,
    pub avatar: Seq<char>,
    pub avatarmedium: Seq<char>,
    pub avatarfull: Seq<char>,
    pub timecreated: Option<u64>,
}

impl SteamPlayerView {
    /// The instant at which the account was made, where the service told
    /// it and it is a second that an instant can hold.
    pub open spec fn account_age(self) -> Option<Timestamp> {
        match self.timecreated {
            Some(secs) => if secs <= i64::MAX {
                Some(Timestamp { secs: secs as i64, nanos: 0 })
            } else {
                None
            },
            None => None,
        }
    }

    /// The profile that the lobby keeps of the account with identity
    /// `steamid`.
    pub open spec fn steam_info(self, steamid: SteamID) -> PlayerSteamInfoView {
        PlayerSteamInfoView {
            steamid,
            name: self.personaname,
            avatar: self.avatar,
            avatarmedium: self.avatarmedium,
            avatarfull: self.avatarfull,
            account_age: self.account_age(),
        }
    }
}

} // verus!
