//! The worker that follows the log and keeps the lobby up to date.

use crate::models::steamid::{parse_u64_string, SteamID};
use crate::models::timestamp::{now, Timestamp};
use crate::tf2::lobby::laws::{
    lemma_apply_keeps_wf, lemma_assign_team_keeps_wf, lemma_credit_death_keeps_wf,
    lemma_evict_stale_keeps_wf, lemma_kill_keeps_wf, lemma_merge_changes_profiles_only,
    lemma_player_seen_keeps_wf, lemma_set_steam_info,
};
use crate::tf2::lobby::model::{
    bump, LobbyChatView, LobbyView, PlayerKillView, PlayerView, SteamPlayerView, MAX_AGE_SECONDS,
};
use crate::tf2::lobby::{
    player_views, Lobby, LobbyChat, Player, PlayerKill, PlayerSteamInfo, Team,
};
use crate::tf2::logfile::{LogLine, LogLineView};
use crate::tf2::steam::SteamPlayer;
use vstd::prelude::*;

verus! {

/// The state of the worker: the lobby as the log has described it so far.
pub struct LobbyThread {
    pub lobby: Lobby,
}

/// Which of the two sides of a kill were players of the lobby.
#[derive(Debug, Clone, Copy, PartialEq, Eq, Structural)]
pub struct KillOutcome {
    pub killer_found: bool,
    pub victim_found: bool,
}

/// What the worker asks of the profile service in one round.
#[derive(Debug)]
pub enum SteamInfoRequest {
    /// There is no key for the service: it is never asked.
    Disabled,
    /// Every player has a profile: there is nothing to ask.
    UpToDate,
    /// The profiles of these players are asked for.
    Fetch(Vec<SteamID>),
}

/// The events `lines`, as values.
pub open spec fn line_views(lines: Seq<LogLine>) -> Seq<LogLineView> {
    lines.map_values(|l: LogLine| l@)
}

/// The answers `summaries` of the profile service, as values.
pub open spec fn summary_views(summaries: Seq<SteamPlayer>) -> Seq<SteamPlayerView> {
    summaries.map_values(|s: SteamPlayer| s@)
}

/// Whether `request` is what the worker asks of the profile service for the
/// lobby `lobby`: nothing ever without a key; with one, the profiles of the
/// players that have none, in their order, and nothing where all have one.
pub open spec fn is_request_for(request: SteamInfoRequest, lobby: LobbyView, has_key: bool) -> bool {
    match request {
        SteamInfoRequest::Disabled => !has_key,
        SteamInfoRequest::UpToDate => has_key && lobby.missing_steam_info().len() == 0,
        SteamInfoRequest::Fetch(steamids) => has_key && steamids@.len() > 0 && steamids@
            == lobby.missing_steam_info(),
    }
}

/// Whether taking in the events `lines`, the clock showing `clock[i]` at
/// the turn of `lines[i]`, leads from the lobby `before` to the lobby
/// `after`, and `resolved[i]` says whether `lines[i]` found every player
/// that it names by name in the lobby as the events before it left it.
pub open spec fn is_run_of(
    before: LobbyView,
    lines: Seq<LogLineView>,
    clock: Seq<Timestamp>,
    after: LobbyView,
    resolved: Seq<bool>,
) -> bool {
    &&& clock.len() == lines.len()
    &&& resolved.len() == lines.len()
    &&& after == before.apply_all(lines, clock)
    &&& forall|i: int|
        0 <= i < lines.len() ==> #[trigger] resolved[i] == before.apply_all(
            lines.take(i),
            clock,
        ).resolves(lines[i])
}

/// What one round of the worker hands to the program around it.
#[derive(Debug)]
pub struct Round {
    /// For each event of the round, whether it found every player that it
    /// names by name.
    pub resolved: Vec<bool>,
    /// A copy of the lobby for those who follow it.
    pub report: Lobby,
    /// What to ask of the profile service.
    pub request: SteamInfoRequest,
}

/// A counter one step on; at its greatest value it stays.
fn bumped(n: u32) -> (r: u32)
    ensures
        r == bump(n),
{
    n.saturating_add(1)
}

impl LobbyThread {
    /// A worker that knows of no player and no chat.
    pub fn new() -> (r: LobbyThread)
        ensures
            r.lobby@ == LobbyView::empty(),
            r.lobby@.wf(),
    {
        LobbyThread { lobby: Lobby::new() }
    }

    /// Takes note of one player of a status listing.
    pub fn player_seen(&mut self, when: Timestamp, id: u32, name: String, steam_id32: String)
        ensures
            final(self).lobby@ == old(self).lobby@.player_seen(when, id, name@, steam_id32@),
            old(self).lobby@.wf() ==> final(self).lobby@.wf(),
    {
        proof {
            if self.lobby@.wf() {
                lemma_player_seen_keeps_wf(self.lobby@, when, id, name@, steam_id32@);
            }
        }
        let steamid = match SteamID::from_steam_id32(steam_id32.as_str()) {
            Some(steamid) => steamid,
            None => {
                return ;
            },
        };
        match self.lobby.find_index(None, Some(steamid)) {
            Some(i) => {
                self.lobby.players[i].id = id;
                self.lobby.players[i].name = name;
                self.lobby.players[i].last_seen = when;
                assert(self.lobby@.players =~= old(self).lobby@.players.update(
                    i as int,
                    old(self).lobby@.players[i as int].seen(id, name@, when),
                ));
            },
            None => {
                self.lobby.players.push(Player::new(id, steamid, name, when));
                assert(self.lobby@.players =~= old(self).lobby@.players.push(
                    PlayerView::fresh(id, steamid, name@, when),
                ));
            },
        }
    }

    /// Puts a player on the team that `team` names, at the instant `now`.
    /// A player that the lobby does not know yet joins it under the text of
    /// its identity, on no team, and counts as seen at `now`.
    pub fn assign_team_at(&mut self, steam_id32: String, team: String, now: Timestamp)
        ensures
            final(self).lobby@ == old(self).lobby@.assign_team(steam_id32@, team@, now),
            old(self).lobby@.wf() ==> final(self).lobby@.wf(),
    {
        proof {
            if self.lobby@.wf() {
                lemma_assign_team_keeps_wf(self.lobby@, steam_id32@, team@, now);
            }
        }
        let steamid = match SteamID::from_steam_id32(steam_id32.as_str()) {
            Some(steamid) => steamid,
            None => {
                return ;
            },
        };
        match self.lobby.find_index(None, Some(steamid)) {
            Some(i) => {
                self.lobby.players[i].team = Team::from_code(team.as_str());
                assert(self.lobby@.players =~= old(self).lobby@.players.update(
                    i as int,
                    old(self).lobby@.players[i as int].on_team(self.lobby.players[i as int].team),
                ));
            },
            None => {
                let ghost label = steam_id32@;
                self.lobby.players.push(Player::new(0, steamid, steam_id32, now));
                assert(self.lobby@.players =~= old(self).lobby@.players.push(
                    PlayerView::fresh(0, steamid, label, now),
                ));
            },
        }
    }

    /// Puts a player on the team that `team` names. A player that the lobby
    /// does not know yet joins it as `assign_team_at` says, seen at the
    /// instant that the system clock shows.
    pub fn assign_team(&mut self, steam_id32: String, team: String)
        ensures
            exists|now: Timestamp|
                final(self).lobby@ == old(self).lobby@.assign_team(steam_id32@, team@, now),
            old(self).lobby@.wf() ==> final(self).lobby@.wf(),
    {
        let now = now();
        self.assign_team_at(steam_id32, team, now);
    }

    /// Counts a kill: one more kill for the first player called `killer`,
    /// with the weapon added to its history, and one more death for the
    /// first player called `victim`. Whoever of the two is not in the lobby
    /// is passed over, and the result says so.
    pub fn kill(&mut self, killer: String, victim: String, weapon: String, crit: bool) -> (r:
        KillOutcome)
        ensures
            final(self).lobby@ == old(self).lobby@.kill(killer@, victim@, weapon@, crit),
            r.killer_found == old(self).lobby@.find(Some(killer@), None) is Some,
            r.victim_found == old(self).lobby@.find(Some(victim@), None) is Some,
            old(self).lobby@.wf() ==> final(self).lobby@.wf(),
    {
        proof {
            if self.lobby@.wf() {
                lemma_kill_keeps_wf(self.lobby@, killer@, victim@, weapon@, crit);
            }
        }
        let ghost before = self.lobby@;
        let killer_found = match self.lobby.find_index(Some(killer.as_str()), None) {
            Some(i) => {
                self.lobby.players[i].kills = bumped(self.lobby.players[i].kills);
                if crit {
                    self.lobby.players[i].crit_kills = bumped(self.lobby.players[i].crit_kills);
                }
                self.lobby.players[i].kills_with.push(PlayerKill { weapon, crit });
                assert(self.lobby@.players[i as int].kills_with =~= before.players[i as int].kills_with.push(
                    PlayerKillView { weapon: weapon@, crit },
                ));
                assert(self.lobby@.players =~= before.players.update(
                    i as int,
                    before.players[i as int].credit_kill(weapon@, crit),
                ));
                true
            },
            None => false,
        };
        let ghost credited = self.lobby@;
        assert(credited == before.credit_kill(killer@, weapon@, crit));
        proof {
            before.lemma_credit_kill_keeps_names(killer@, weapon@, crit);
            credited.lemma_find_same_names(before, Some(victim@), None);
        }
        let victim_found = self.credit_death(victim.as_str(), crit);
        KillOutcome { killer_found, victim_found }
    }

    /// Counts one more death for the first player called `name`, and one
    /// more critical death where `crit` holds. The result says whether the
    /// lobby has such a player.
    fn credit_death(&mut self, name: &str, crit: bool) -> (r: bool)
        ensures
            final(self).lobby@ == old(self).lobby@.credit_death(name@, crit),
            r == old(self).lobby@.find(Some(name@), None) is Some,
    {
        match self.lobby.find_index(Some(name), None) {
            Some(i) => {
                self.lobby.players[i].deaths = bumped(self.lobby.players[i].deaths);
                if crit {
                    self.lobby.players[i].crit_deaths = bumped(self.lobby.players[i].crit_deaths);
                }
                assert(self.lobby@.players =~= old(self).lobby@.players.update(
                    i as int,
                    old(self).lobby@.players[i as int].credit_death(crit),
                ));
                true
            },
            None => false,
        }
    }

    /// Counts one more death for the first player called `name`, who took
    /// its own life. The result says whether the lobby has such a player.
    pub fn suicide(&mut self, name: String) -> (r: bool)
        ensures
            final(self).lobby@ == old(self).lobby@.suicide(name@),
            r == old(self).lobby@.find(Some(name@), None) is Some,
            old(self).lobby@.wf() ==> final(self).lobby@.wf(),
    {
        proof {
            if self.lobby@.wf() {
                lemma_credit_death_keeps_wf(self.lobby@, name@, false);
            }
        }
        self.credit_death(name.as_str(), false)
    }

    /// Adds a line to the chat under the identity of the first player called
    /// `name`. The line of a speaker that the lobby does not know is
    /// dropped, and the result says so.
    pub fn chat(&mut self, when: Timestamp, name: String, message: String, dead: bool, team: bool) -> (r:
        bool)
        ensures
            final(self).lobby@ == old(self).lobby@.chat(when, name@, message@, dead, team),
            r == old(self).lobby@.find(Some(name@), None) is Some,
            old(self).lobby@.wf() ==> final(self).lobby@.wf(),
    {
        match self.lobby.find_index(Some(name.as_str()), None) {
            Some(i) => {
                let steamid = self.lobby.players[i].steamid;
                self.lobby.chat.push(LobbyChat { when, steamid, message, dead, team });
                assert(self.lobby@.chat =~= old(self).lobby@.chat.push(
                    LobbyChatView { when, steamid, message: message@, dead, team },
                ));
                assert(self.lobby@.players =~= old(self).lobby@.players);
                true
            },
            None => false,
        }
    }

    /// Removes the players last seen more than `max_age` seconds before
    /// `now`. The others stay, in their order.
    pub fn evict_stale(&mut self, now: Timestamp, max_age: u64)
        ensures
            final(self).lobby@ == old(self).lobby@.evict_stale(now, max_age),
            old(self).lobby@.wf() ==> final(self).lobby@.wf(),
    {
        proof {
            if self.lobby@.wf() {
                lemma_evict_stale_keeps_wf(self.lobby@, now, max_age);
            }
        }
        let ghost before = self.lobby@;
        let ghost keep = |p: PlayerView| !p.is_stale(now, max_age);
        let mut kept: Vec<Player> = Vec::new();
        let mut i: usize = 0;
        while i < self.lobby.players.len()
            invariant
                i <= self.lobby.players.len(),
                self.lobby@ == before,
                keep == |p: PlayerView| !p.is_stale(now, max_age),
                player_views(kept@) == before.players.take(i as int).filter(keep),
            decreases self.lobby.players.len() - i,
        {
            let ghost seen = before.players.take(i as int);
            let player = &self.lobby.players[i];
            proof {
                assert(before.players.take(i + 1) =~= seen.push(player@));
                seen.lemma_filter_push(player@, keep);
            }
            if !now.is_more_than_seconds_after(&player.last_seen, max_age) {
                kept.push(player.clone());
                assert(player_views(kept@) =~= seen.filter(keep).push(player@));
            }
            i += 1;
        }
        assert(before.players.take(i as int) =~= before.players);
        self.lobby.players = kept;
        assert(self.lobby@.chat =~= before.chat);
    }

    /// Removes the players that no status listing has named for more than
    /// thirty seconds before `when`.
    pub fn purge_old_players(&mut self, when: Timestamp)
        ensures
            final(self).lobby@ == old(self).lobby@.purge_old_players(when),
            old(self).lobby@.wf() ==> final(self).lobby@.wf(),
    {
        self.evict_stale(when, MAX_AGE_SECONDS);
    }

    /// Starts over with an empty lobby: no player and no chat line stays.
    pub fn new_lobby(&mut self)
        ensures
            final(self).lobby@ == LobbyView::empty(),
            final(self).lobby@.wf(),
    {
        self.lobby = Lobby::new();
    }

    /// A copy of the lobby for those who follow it. The copy is independent
    /// of the worker's own lobby.
    pub fn lobby_report(&self) -> (r: Lobby)
        ensures
            r@ == self.lobby@,
    {
        self.lobby.clone()
    }

    /// The identities of the players without a profile, in the order of the
    /// players.
    pub fn steamids_without_info(&self) -> (r: Vec<SteamID>)
        ensures
            r@ == self.lobby@.missing_steam_info(),
    {
        let ghost players = self.lobby@.players;
        let ghost bare = |p: PlayerView| p.steam_info is None;
        let ghost steamid = |p: PlayerView| p.steamid;
        let mut steamids: Vec<SteamID> = Vec::new();
        let mut i: usize = 0;
        while i < self.lobby.players.len()
            invariant
                i <= self.lobby.players.len(),
                players == self.lobby@.players,
                bare == |p: PlayerView| p.steam_info is None,
                steamid == |p: PlayerView| p.steamid,
                steamids@ == players.take(i as int).filter(bare).map_values(steamid),
            decreases self.lobby.players.len() - i,
        {
            let ghost seen = players.take(i as int);
            let player = &self.lobby.players[i];
            proof {
                assert(players.take(i + 1) =~= seen.push(player@));
                seen.lemma_filter_push(player@, bare);
            }
            if player.steam_info.is_none() {
                steamids.push(player.steamid);
                assert(steamids@ =~= seen.filter(bare).push(player@).map_values(steamid));
            }
            i += 1;
        }
        assert(players.take(i as int) =~= players);
        steamids
    }

    /// What to ask of the profile service in this round. Without a key for
    /// the service nothing is ever asked; with one, the profiles of the
    /// players that have none are asked for, all in one request, and no
    /// request is made where every player has one.
    pub fn steam_info_request(&self, has_key: bool) -> (r: SteamInfoRequest)
        ensures
            is_request_for(r, self.lobby@, has_key),
    {
        if !has_key {
            return SteamInfoRequest::Disabled;
        }
        let steamids = self.steamids_without_info();
        if steamids.len() == 0 {
            SteamInfoRequest::UpToDate
        } else {
            SteamInfoRequest::Fetch(steamids)
        }
    }

    /// Takes in one profile that the service sent. It replaces the profile
    /// of the first player with its identity; where the identity cannot be
    /// read, or the player has left, nothing changes and the result is
    /// `false`.
    pub fn set_steam_info(&mut self, summary: &SteamPlayer) -> (r: bool)
        ensures
            final(self).lobby@ == old(self).lobby@.set_steam_info(summary@),
            r == (parse_u64_string(summary.steamid@) matches Some(steamid) && old(
                self,
            ).lobby@.find(None, Some(steamid)) is Some),
            final(self).lobby@.players.len() == old(self).lobby@.players.len(),
            old(self).lobby@.wf() ==> final(self).lobby@.wf(),
    {
        proof {
            lemma_set_steam_info(self.lobby@, summary@);
        }
        let steamid = match SteamID::from_u64_string(summary.steamid.as_str()) {
            Some(steamid) => steamid,
            None => {
                return false;
            },
        };
        match self.lobby.find_index(None, Some(steamid)) {
            Some(i) => {
                self.lobby.players[i].steam_info = Some(
                    PlayerSteamInfo {
                        steamid,
                        name: summary.personaname.clone(),
                        avatar: summary.avatar.clone(),
                        avatarmedium: summary.avatarmedium.clone(),
                        avatarfull: summary.avatarfull.clone(),
                        account_age: summary.get_account_age(),
                    },
                );
                assert(self.lobby@.players =~= old(self).lobby@.players.update(
                    i as int,
                    old(self).lobby@.players[i as int].with_steam_info(summary@.steam_info(steamid)),
                ));
                true
            },
            None => false,
        }
    }

    /// Takes in what the profile service answered. From an answer, each
    /// profile goes to the player with its identity, in the order of the
    /// answer; a failed request, `None`, changes nothing.
    pub fn steam_info_response(&mut self, response: Option<Vec<SteamPlayer>>)
        ensures
            final(self).lobby@ == match response {
                Some(summaries) => old(self).lobby@.merge_steam_info(summary_views(summaries@)),
                None => old(self).lobby@,
            },
            final(self).lobby@.players.len() == old(self).lobby@.players.len(),
            old(self).lobby@.wf() ==> final(self).lobby@.wf(),
    {
        proof {
            if response is Some {
                lemma_merge_changes_profiles_only(self.lobby@, summary_views(response->0@));
            }
        }
        let summaries = match response {
            Some(summaries) => summaries,
            None => {
                return ;
            },
        };
        let ghost before = self.lobby@;
        let ghost views = summary_views(summaries@);
        let mut i: usize = 0;
        while i < summaries.len()
            invariant
                i <= summaries.len(),
                views == summary_views(summaries@),
                self.lobby@ == before.merge_steam_info(views.take(i as int)),
            decreases summaries.len() - i,
        {
            proof {
                assert(views.take(i + 1).drop_last() =~= views.take(i as int));
            }
            self.set_steam_info(&summaries[i]);
            i += 1;
        }
        assert(views.take(i as int) =~= views);
    }

    /// Takes in one event of the log, where the system clock shows `now`.
    /// The result says whether the event found every player that it names
    /// by name; an event that names none finds them all.
    pub fn process_line_at(&mut self, line: LogLine, now: Timestamp) -> (r: bool)
        ensures
            final(self).lobby@ == old(self).lobby@.apply(line@, now),
            r == old(self).lobby@.resolves(line@),
            old(self).lobby@.wf() ==> final(self).lobby@.wf(),
    {
        proof {
            if self.lobby@.wf() {
                lemma_apply_keeps_wf(self.lobby@, line@, now);
            }
        }
        match line {
            LogLine::Unknown { line: _ } => true,
            LogLine::StatusHeader { when } => {
                self.purge_old_players(when);
                true
            },
            LogLine::StatusForPlayer { when, id, name, steam_id32 } => {
                self.player_seen(when, id, name, steam_id32);
                true
            },
            LogLine::Kill { when: _, killer, victim, weapon, crit } => {
                let outcome = self.kill(killer, victim, weapon, crit);
                outcome.killer_found && outcome.victim_found
            },
            LogLine::Suicide { when: _, name } => self.suicide(name),
            LogLine::LobbyCreated { when: _ } => {
                self.new_lobby();
                true
            },
            LogLine::LobbyDestroyed { when: _ } => true,
            LogLine::Chat { when, name, message, dead, team } => self.chat(
                when,
                name,
                message,
                dead,
                team,
            ),
            LogLine::PlayerTeam { steam_id32, team } => {
                self.assign_team_at(steam_id32, team, now);
                true
            },
        }
    }

    /// Takes in one event of the log at the instant that the system clock
    /// shows. The result says whether the event found every player that it
    /// names by name.
    pub fn process_line(&mut self, line: LogLine) -> (r: bool)
        ensures
            exists|now: Timestamp| final(self).lobby@ == old(self).lobby@.apply(line@, now),
            r == old(self).lobby@.resolves(line@),
            old(self).lobby@.wf() ==> final(self).lobby@.wf(),
    {
        let now = now();
        self.process_line_at(line, now)
    }

    /// Takes in the events `lines` in their order, each at the instant that
    /// the system clock shows when its turn comes. The result says of each
    /// event whether it found every player that it names by name.
    pub fn process_bus(&mut self, lines: Vec<LogLine>) -> (resolved: Vec<bool>)
        ensures
            exists|clock: Seq<Timestamp>| #[trigger]
                is_run_of(old(self).lobby@, line_views(lines@), clock, final(self).lobby@, resolved@),
            old(self).lobby@.wf() ==> final(self).lobby@.wf(),
    {
        let ghost before = self.lobby@;
        let ghost views = line_views(lines@);
        let ghost mut clock: Seq<Timestamp> = Seq::empty();
        let mut resolved: Vec<bool> = Vec::new();
        for line in it: lines
            invariant
                views == line_views(lines@),
                clock.len() == it.index(),
                resolved@.len() == it.index(),
                self.lobby@ == before.apply_all(views.take(it.index() as int), clock),
                forall|i: int|
                    0 <= i < it.index() ==> #[trigger] resolved@[i] == before.apply_all(
                        views.take(i),
                        clock,
                    ).resolves(views[i]),
                before.wf() ==> self.lobby@.wf(),
        {
            let ghost current = self.lobby@;
            let ghost k = it.index() as int;
            let ghost earlier = resolved@;
            let found = self.process_line(line);
            resolved.push(found);
            proof {
                let now = choose|now: Timestamp| self.lobby@ == current.apply(line@, now);
                let longer = clock.push(now);
                before.lemma_apply_all_clock(views.take(k), clock, longer);
                assert(views.take(k + 1).drop_last() =~= views.take(k));
                assert forall|i: int| 0 <= i < k + 1 implies #[trigger] resolved@[i]
                    == before.apply_all(views.take(i), longer).resolves(views[i]) by {
                    before.lemma_apply_all_clock(views.take(i), clock, longer);
                    if i < k {
                        assert(resolved@[i] == earlier[i]);
                    }
                }
                clock = longer;
            }
        }
        assert(views.take(lines@.len() as int) =~= views);
        assert(is_run_of(before, views, clock, self.lobby@, resolved@));
        resolved
    }

    /// One round of the worker: the events that have come are taken in, in
    /// their order; then a copy of the lobby is made for those who follow
    /// it, and what to ask of the profile service is worked out, both from
    /// the lobby as the events left it.
    pub fn run_once(&mut self, lines: Vec<LogLine>, has_key: bool) -> (r: Round)
        ensures
            exists|clock: Seq<Timestamp>| #[trigger]
                is_run_of(
                    old(self).lobby@,
                    line_views(lines@),
                    clock,
                    final(self).lobby@,
                    r.resolved@,
                ),
            r.report@ == final(self).lobby@,
            is_request_for(r.request, final(self).lobby@, has_key),
            old(self).lobby@.wf() ==> final(self).lobby@.wf(),
    {
        let ghost before = self.lobby@;
        let resolved = self.process_bus(lines);
        let ghost clock = choose|clock: Seq<Timestamp>| #[trigger]
            is_run_of(before, line_views(lines@), clock, self.lobby@, resolved@);
        let report = self.lobby_report();
        let request = self.steam_info_request(has_key);
        let r = Round { resolved, report, request };
        assert(is_run_of(before, line_views(lines@), clock, self.lobby@, r.resolved@));
        r
    }
}

} // verus!
