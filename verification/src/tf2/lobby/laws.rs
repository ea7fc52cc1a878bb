//! What holds of the lobby whatever the log brings.

use crate::models::steamid::{parse_steam_id32, parse_u64_string, SteamID};
use crate::models::timestamp::{Timestamp, NANOS_PER_SECOND};
use crate::tf2::lobby::model::{
    bump, distinct_identities, LobbyView, PlayerKillView, PlayerView, SteamPlayerView,
    MAX_AGE_SECONDS,
};
use crate::tf2::logfile::LogLineView;
use vstd::prelude::*;

verus! {

/// The last status line wins: of two status lines for one identity, one
/// after the other, the lobby keeps what the second says, as if the first
/// had never come. The transient id and the name may differ between the
/// two; the player stays one player.
pub proof fn lemma_player_seen_twice(
    lobby: LobbyView,
    steam_id32: Seq<char>,
    when1: Timestamp,
    id1: u32,
    name1: Seq<char>,
    when2: Timestamp,
    id2: u32,
    name2: Seq<char>,
)
    ensures
        lobby.player_seen(when1, id1, name1, steam_id32).player_seen(when2, id2, name2, steam_id32)
            == lobby.player_seen(when2, id2, name2, steam_id32),
        lobby.player_seen(when1, id1, name1, steam_id32).player_seen(
            when2,
            id2,
            name2,
            steam_id32,
        ).players.len() == lobby.player_seen(when1, id1, name1, steam_id32).players.len(),
{
    let once = lobby.player_seen(when1, id1, name1, steam_id32);
    let twice = once.player_seen(when2, id2, name2, steam_id32);
    let direct = lobby.player_seen(when2, id2, name2, steam_id32);
    match parse_steam_id32(steam_id32) {
        Some(steamid) => {
            lobby.lemma_find(None, Some(steamid));
            match lobby.find(None, Some(steamid)) {
                Some(i) => {
                    assert(once.is_first_match(None, Some(steamid), i));
                    once.lemma_find_is(None, Some(steamid), i);
                    assert(twice.players =~= direct.players);
                },
                None => {
                    let n = lobby.players.len() as int;
                    assert(once.is_first_match(None, Some(steamid), n));
                    once.lemma_find_is(None, Some(steamid), n);
                    assert(twice.players =~= direct.players);
                },
            }
        },
        None => {},
    }
}

/// Taking in the same status line twice leaves the lobby as taking it in
/// once does: the same players with the same statistics.
pub proof fn lemma_player_seen_idempotent(
    lobby: LobbyView,
    when: Timestamp,
    id: u32,
    name: Seq<char>,
    steam_id32: Seq<char>,
)
    ensures
        lobby.player_seen(when, id, name, steam_id32).player_seen(when, id, name, steam_id32)
            == lobby.player_seen(when, id, name, steam_id32),
{
    lemma_player_seen_twice(lobby, steam_id32, when, id, name, when, id, name);
}

/// A status event that the log brings twice counts once: taking it in a
/// second time leaves the lobby as the first time left it, whatever the
/// clock shows.
pub proof fn lemma_status_event_idempotent(
    lobby: LobbyView,
    line: LogLineView,
    now1: Timestamp,
    now2: Timestamp,
)
    requires
        line is StatusForPlayer,
    ensures
        lobby.apply(line, now1).apply(line, now2) == lobby.apply(line, now1),
{
    match line {
        LogLineView::StatusForPlayer { when, id, name, steam_id32 } => {
            lemma_player_seen_idempotent(lobby, when, id, name, steam_id32);
        },
        _ => {},
    }
}

/// A status line that comes again later changes nothing but the instant at
/// which its player was last seen.
pub proof fn lemma_player_seen_again_refreshes(
    lobby: LobbyView,
    when1: Timestamp,
    when2: Timestamp,
    id: u32,
    name: Seq<char>,
    steam_id32: Seq<char>,
)
    ensures
        ({
            let once = lobby.player_seen(when1, id, name, steam_id32);
            let twice = once.player_seen(when2, id, name, steam_id32);
            &&& twice.chat == once.chat
            &&& twice.players.len() == once.players.len()
            &&& forall|j: int|
                0 <= j < once.players.len() ==> (#[trigger] twice.players[j]) == (PlayerView {
                    last_seen: twice.players[j].last_seen,
                    ..once.players[j]
                })
        }),
{
    let once = lobby.player_seen(when1, id, name, steam_id32);
    match parse_steam_id32(steam_id32) {
        Some(steamid) => {
            lobby.lemma_find(None, Some(steamid));
            once.lemma_find(None, Some(steamid));
            match lobby.find(None, Some(steamid)) {
                Some(i) => {
                    assert(once.is_first_match(None, Some(steamid), i));
                    once.lemma_find_is(None, Some(steamid), i);
                },
                None => {
                    let n = lobby.players.len() as int;
                    assert(once.is_first_match(None, Some(steamid), n));
                    once.lemma_find_is(None, Some(steamid), n);
                },
            }
        },
        None => {},
    }
}

/// A new lobby forgets everything: whatever the lobby held, after a
/// `LobbyCreated` event it has no player and no chat line.
pub proof fn lemma_lobby_created_resets(lobby: LobbyView, when: Timestamp, now: Timestamp)
    ensures
        lobby.apply(LogLineView::LobbyCreated { when }, now) == LobbyView::empty(),
{
}

/// Whatever events came before it, once a `LobbyCreated` event is the last
/// one taken in, the lobby is empty.
pub proof fn lemma_reset_after_any_events(
    lobby: LobbyView,
    lines: Seq<LogLineView>,
    clock: Seq<Timestamp>,
)
    requires
        lines.len() > 0,
        lines.last() is LobbyCreated,
    ensures
        lobby.apply_all(lines, clock) == LobbyView::empty(),
{
}

/// Kill accounting where both sides are players of the lobby: the killer
/// has one more kill and one more entry in its history, the victim one more
/// death, each also one more critical where the kill was critical, and
/// nobody else changes. A counter at its greatest value stays there. Where
/// killer and victim are two players, the killer's deaths and the victim's
/// kills stay as they were.
pub proof fn lemma_kill_accounting(
    lobby: LobbyView,
    killer: Seq<char>,
    victim: Seq<char>,
    weapon: Seq<char>,
    crit: bool,
)
    requires
        lobby.find(Some(killer), None) is Some,
        lobby.find(Some(victim), None) is Some,
    ensures
        ({
            let a = lobby.find(Some(killer), None)->0;
            let b = lobby.find(Some(victim), None)->0;
            let after = lobby.kill(killer, victim, weapon, crit);
            &&& after.chat == lobby.chat
            &&& after.players.len() == lobby.players.len()
            &&& forall|j: int|
                0 <= j < lobby.players.len() && j != a && j != b ==> #[trigger] after.players[j]
                    == lobby.players[j]
            &&& after.players[a].kills == bump(lobby.players[a].kills)
            &&& after.players[a].crit_kills == if crit {
                bump(lobby.players[a].crit_kills)
            } else {
                lobby.players[a].crit_kills
            }
            &&& after.players[a].kills_with == lobby.players[a].kills_with.push(
                PlayerKillView { weapon, crit },
            )
            &&& after.players[a].kills_with.len() == lobby.players[a].kills_with.len() + 1
            &&& after.players[b].deaths == bump(lobby.players[b].deaths)
            &&& after.players[b].crit_deaths == if crit {
                bump(lobby.players[b].crit_deaths)
            } else {
                lobby.players[b].crit_deaths
            }
            &&& a != b ==> after.players[a] == lobby.players[a].credit_kill(weapon, crit)
            &&& a != b ==> after.players[b] == lobby.players[b].credit_death(crit)
            &&& a == b ==> after.players[a] == lobby.players[a].credit_kill(
                weapon,
                crit,
            ).credit_death(crit)
        }),
{
    let credited = lobby.credit_kill(killer, weapon, crit);
    lobby.lemma_find(Some(killer), None);
    lobby.lemma_find(Some(victim), None);
    lobby.lemma_credit_kill_keeps_names(killer, weapon, crit);
    credited.lemma_find_same_names(lobby, Some(victim), None);
}

/// Kill accounting in whole numbers: below the greatest value of a counter,
/// a critical kill adds exactly one to the killer's kills, critical kills
/// and history, and to the victim's deaths and critical deaths.
pub proof fn lemma_critical_kill_adds_one(
    lobby: LobbyView,
    killer: Seq<char>,
    victim: Seq<char>,
    weapon: Seq<char>,
)
    requires
        lobby.find(Some(killer), None) is Some,
        lobby.find(Some(victim), None) is Some,
        lobby.players[lobby.find(Some(killer), None)->0].kills < u32::MAX,
        lobby.players[lobby.find(Some(killer), None)->0].crit_kills < u32::MAX,
        lobby.players[lobby.find(Some(victim), None)->0].deaths < u32::MAX,
        lobby.players[lobby.find(Some(victim), None)->0].crit_deaths < u32::MAX,
    ensures
        ({
            let a = lobby.find(Some(killer), None)->0;
            let b = lobby.find(Some(victim), None)->0;
            let after = lobby.kill(killer, victim, weapon, true);
            &&& after.players[a].kills == lobby.players[a].kills + 1
            &&& after.players[a].crit_kills == lobby.players[a].crit_kills + 1
            &&& after.players[a].kills_with.len() == lobby.players[a].kills_with.len() + 1
            &&& after.players[b].deaths == lobby.players[b].deaths + 1
            &&& after.players[b].crit_deaths == lobby.players[b].crit_deaths + 1
        }),
{
    lemma_kill_accounting(lobby, killer, victim, weapon, true);
}

/// A kill by somebody who is not in the lobby still counts for the victim,
/// and a kill of somebody who is not in the lobby still counts for the
/// killer; a kill between two strangers changes nothing.
pub proof fn lemma_kill_with_a_stranger(
    lobby: LobbyView,
    killer: Seq<char>,
    victim: Seq<char>,
    weapon: Seq<char>,
    crit: bool,
)
    ensures
        lobby.find(Some(killer), None) is None ==> lobby.kill(killer, victim, weapon, crit)
            == lobby.credit_death(victim, crit),
        lobby.find(Some(victim), None) is None ==> lobby.kill(killer, victim, weapon, crit)
            == lobby.credit_kill(killer, weapon, crit),
        lobby.find(Some(killer), None) is None && lobby.find(Some(victim), None) is None
            ==> lobby.kill(killer, victim, weapon, crit) == lobby,
{
    let credited = lobby.credit_kill(killer, weapon, crit);
    lobby.lemma_credit_kill_keeps_names(killer, weapon, crit);
    credited.lemma_find_same_names(lobby, Some(victim), None);
}

/// Leaving players out keeps the others distinct.
pub proof fn lemma_filter_keeps_distinct(players: Seq<PlayerView>, keep: spec_fn(PlayerView) -> bool)
    requires
        distinct_identities(players),
    ensures
        distinct_identities(players.filter(keep)),
        forall|p: PlayerView| #[trigger]
            players.filter(keep).contains(p) ==> players.contains(p) && keep(p),
    decreases players.len(),
{
    let kept = players.filter(keep);
    if players.len() == 0 {
        assert(kept =~= Seq::empty()) by {
            reveal(Seq::filter);
        }
    } else {
        let front = players.drop_last();
        let last = players.last();
        assert(distinct_identities(front)) by {
            assert forall|i: int, j: int| 0 <= i < j < front.len() implies (
            #[trigger] front[i]).steamid != (#[trigger] front[j]).steamid by {
                assert(front[i] == players[i] && front[j] == players[j]);
            }
        }
        lemma_filter_keeps_distinct(front, keep);
        assert(players =~= front.push(last));
        front.lemma_filter_push(last, keep);
        let kept_front = front.filter(keep);
        assert forall|p: PlayerView| #[trigger] kept.contains(p) implies players.contains(p)
            && keep(p) by {
            let k = choose|k: int| 0 <= k < kept.len() && kept[k] == p;
            if k < kept_front.len() {
                assert(kept_front[k] == p);
                assert(kept_front.contains(p));
                let m = choose|m: int| 0 <= m < front.len() && front[m] == p;
                assert(players[m] == p);
            } else {
                assert(p == last);
                assert(players[players.len() - 1] == p);
            }
        }
        assert forall|i: int, j: int| 0 <= i < j < kept.len() implies (
        #[trigger] kept[i]).steamid != (#[trigger] kept[j]).steamid by {
            if j < kept_front.len() {
                assert(kept[i] == kept_front[i] && kept[j] == kept_front[j]);
            } else {
                assert(kept[j] == last);
                assert(kept[i] == kept_front[i]);
                assert(kept_front.contains(kept_front[i]));
                let m = choose|m: int| 0 <= m < front.len() && front[m] == kept_front[i];
                assert(players[m] == kept[i]);
                assert(players[players.len() - 1] == last);
            }
        }
    }
}

/// Replacing a player by one with the same identity keeps the players
/// distinct.
proof fn lemma_with_player_keeps_wf(lobby: LobbyView, i: int, player: PlayerView)
    requires
        lobby.wf(),
        0 <= i < lobby.players.len(),
        player.steamid == lobby.players[i].steamid,
    ensures
        lobby.with_player(i, player).wf(),
{
    let after = lobby.with_player(i, player);
    assert forall|a: int, b: int| 0 <= a < b < after.players.len() implies (
    #[trigger] after.players[a]).steamid != (#[trigger] after.players[b]).steamid by {
        assert(after.players[a].steamid == lobby.players[a].steamid);
        assert(after.players[b].steamid == lobby.players[b].steamid);
    }
}

/// A player whose identity nobody has yet keeps the players distinct.
proof fn lemma_with_new_player_keeps_wf(lobby: LobbyView, player: PlayerView)
    requires
        lobby.wf(),
        lobby.find(None, Some(player.steamid)) is None,
    ensures
        lobby.with_new_player(player).wf(),
{
    let after = lobby.with_new_player(player);
    lobby.lemma_find(None, Some(player.steamid));
    assert forall|a: int, b: int| 0 <= a < b < after.players.len() implies (
    #[trigger] after.players[a]).steamid != (#[trigger] after.players[b]).steamid by {
        if b < lobby.players.len() {
            assert(after.players[a] == lobby.players[a]);
            assert(after.players[b] == lobby.players[b]);
        } else {
            assert(after.players[a] == lobby.players[a]);
            assert(!lobby.players[a].matches(None, Some(player.steamid)));
        }
    }
}

/// A status line keeps one record per identity.
pub proof fn lemma_player_seen_keeps_wf(
    lobby: LobbyView,
    when: Timestamp,
    id: u32,
    name: Seq<char>,
    steam_id32: Seq<char>,
)
    requires
        lobby.wf(),
    ensures
        lobby.player_seen(when, id, name, steam_id32).wf(),
{
    match parse_steam_id32(steam_id32) {
        Some(steamid) => {
            lobby.lemma_find(None, Some(steamid));
            match lobby.find(None, Some(steamid)) {
                Some(i) => lemma_with_player_keeps_wf(
                    lobby,
                    i,
                    lobby.players[i].seen(id, name, when),
                ),
                None => lemma_with_new_player_keeps_wf(
                    lobby,
                    PlayerView::fresh(id, steamid, name, when),
                ),
            }
        },
        None => {},
    }
}

/// Putting a player on a team keeps one record per identity, also where
/// the player joins the lobby by it.
pub proof fn lemma_assign_team_keeps_wf(
    lobby: LobbyView,
    steam_id32: Seq<char>,
    team: Seq<char>,
    now: Timestamp,
)
    requires
        lobby.wf(),
    ensures
        lobby.assign_team(steam_id32, team, now).wf(),
{
    match parse_steam_id32(steam_id32) {
        Some(steamid) => {
            lobby.lemma_find(None, Some(steamid));
            match lobby.find(None, Some(steamid)) {
                Some(i) => lemma_with_player_keeps_wf(
                    lobby,
                    i,
                    lobby.assign_team(steam_id32, team, now).players[i],
                ),
                None => lemma_with_new_player_keeps_wf(
                    lobby,
                    PlayerView::fresh(0, steamid, steam_id32, now),
                ),
            }
        },
        None => {},
    }
}

/// A kill keeps one record per identity.
pub proof fn lemma_kill_keeps_wf(
    lobby: LobbyView,
    killer: Seq<char>,
    victim: Seq<char>,
    weapon: Seq<char>,
    crit: bool,
)
    requires
        lobby.wf(),
    ensures
        lobby.kill(killer, victim, weapon, crit).wf(),
{
    let credited = lobby.credit_kill(killer, weapon, crit);
    lobby.lemma_find(Some(killer), None);
    match lobby.find(Some(killer), None) {
        Some(i) => lemma_with_player_keeps_wf(lobby, i, lobby.players[i].credit_kill(weapon, crit)),
        None => {},
    }
    lemma_credit_death_keeps_wf(credited, victim, crit);
}

/// One record per identity: where no two players of the lobby have the
/// same identity, no event of the log makes two of them have it.
pub proof fn lemma_apply_keeps_wf(lobby: LobbyView, line: LogLineView, now: Timestamp)
    requires
        lobby.wf(),
    ensures
        lobby.apply(line, now).wf(),
{
    match line {
        LogLineView::StatusHeader { when } => {
            lemma_evict_stale_keeps_wf(lobby, when, MAX_AGE_SECONDS);
        },
        LogLineView::StatusForPlayer { when, id, name, steam_id32 } => {
            lemma_player_seen_keeps_wf(lobby, when, id, name, steam_id32);
        },
        LogLineView::Kill { killer, victim, weapon, crit, .. } => {
            lemma_kill_keeps_wf(lobby, killer, victim, weapon, crit);
        },
        LogLineView::Suicide { name, .. } => {
            lemma_credit_death_keeps_wf(lobby, name, false);
        },
        LogLineView::PlayerTeam { steam_id32, team } => {
            lemma_assign_team_keeps_wf(lobby, steam_id32, team, now);
        },
        _ => {},
    }
}

/// Crediting a death keeps one record per identity.
pub proof fn lemma_credit_death_keeps_wf(lobby: LobbyView, victim: Seq<char>, crit: bool)
    requires
        lobby.wf(),
    ensures
        lobby.credit_death(victim, crit).wf(),
{
    lobby.lemma_find(Some(victim), None);
    match lobby.find(Some(victim), None) {
        Some(i) => lemma_with_player_keeps_wf(lobby, i, lobby.players[i].credit_death(crit)),
        None => {},
    }
}

/// Eviction keeps one record per identity, whatever the age at which
/// players leave.
pub proof fn lemma_evict_stale_keeps_wf(lobby: LobbyView, now: Timestamp, max_age: u64)
    requires
        lobby.wf(),
    ensures
        lobby.evict_stale(now, max_age).wf(),
{
    lemma_filter_keeps_distinct(lobby.players, |p: PlayerView| !p.is_stale(now, max_age));
}

/// One record per identity, for ever: from a lobby in which no two players
/// have the same identity, and so from the empty lobby, no run of events
/// leads to one in which two have it.
pub proof fn lemma_apply_all_keeps_wf(
    lobby: LobbyView,
    lines: Seq<LogLineView>,
    clock: Seq<Timestamp>,
)
    requires
        lobby.wf(),
    ensures
        lobby.apply_all(lines, clock).wf(),
        LobbyView::empty().wf(),
    decreases lines.len(),
{
    if lines.len() > 0 {
        lemma_apply_all_keeps_wf(lobby, lines.drop_last(), clock);
        lemma_apply_keeps_wf(
            lobby.apply_all(lines.drop_last(), clock),
            lines.last(),
            clock[lines.len() - 1],
        );
    }
}

/// Identity stability: once a status line has named an identity, the lobby
/// has exactly one player with it, whatever transient id and name a later
/// status line gives it.
pub proof fn lemma_identity_stays_one_player(
    lobby: LobbyView,
    steam_id32: Seq<char>,
    when1: Timestamp,
    id1: u32,
    name1: Seq<char>,
    when2: Timestamp,
    id2: u32,
    name2: Seq<char>,
)
    requires
        lobby.wf(),
        parse_steam_id32(steam_id32) is Some,
    ensures
        ({
            let steamid = parse_steam_id32(steam_id32)->0;
            let once = lobby.player_seen(when1, id1, name1, steam_id32);
            let twice = once.player_seen(when2, id2, name2, steam_id32);
            &&& twice.wf()
            &&& twice.players.len() == once.players.len()
            &&& twice.find(None, Some(steamid)) is Some
            &&& forall|j: int|
                0 <= j < twice.players.len() && (#[trigger] twice.players[j]).steamid == steamid
                    ==> Some(j) == twice.find(None, Some(steamid))
            &&& twice.players[twice.find(None, Some(steamid))->0].id == id2
            &&& twice.players[twice.find(None, Some(steamid))->0].name == name2
        }),
{
    let steamid = parse_steam_id32(steam_id32)->0;
    let once = lobby.player_seen(when1, id1, name1, steam_id32);
    let twice = once.player_seen(when2, id2, name2, steam_id32);
    lemma_player_seen_twice(lobby, steam_id32, when1, id1, name1, when2, id2, name2);
    lemma_apply_keeps_wf(
        lobby,
        LogLineView::StatusForPlayer { when: when2, id: id2, name: name2, steam_id32 },
        when2,
    );
    lobby.lemma_find(None, Some(steamid));
    match lobby.find(None, Some(steamid)) {
        Some(i) => {
            assert(twice.is_first_match(None, Some(steamid), i));
            twice.lemma_find_is(None, Some(steamid), i);
        },
        None => {
            let n = lobby.players.len() as int;
            assert(twice.is_first_match(None, Some(steamid), n));
            twice.lemma_find_is(None, Some(steamid), n);
        },
    }
    let k = twice.find(None, Some(steamid))->0;
    assert forall|j: int|
        0 <= j < twice.players.len() && (#[trigger] twice.players[j]).steamid
            == steamid implies Some(j) == twice.find(None, Some(steamid)) by {
        if j < k {
            assert(twice.players[j].steamid != twice.players[k].steamid);
        } else if k < j {
            assert(twice.players[k].steamid != twice.players[j].steamid);
        }
    }
}

/// Eviction: a status header removes exactly the players that were last
/// seen more than thirty seconds before it. Who stays, stays as it was and
/// in its place among the others; the chat is not touched.
pub proof fn lemma_eviction(lobby: LobbyView, when: Timestamp)
    ensures
        ({
            let after = lobby.apply(LogLineView::StatusHeader { when }, when);
            &&& after.chat == lobby.chat
            &&& after.players.len() <= lobby.players.len()
            &&& forall|p: PlayerView| #[trigger]
                after.players.contains(p) <==> lobby.players.contains(p) && !p.is_stale(
                    when,
                    MAX_AGE_SECONDS,
                )
        }),
{
    let keep = |p: PlayerView| !p.is_stale(when, MAX_AGE_SECONDS);
    let after = lobby.purge_old_players(when);
    lobby.players.lemma_filter_len(keep);
    assert forall|p: PlayerView| #[trigger]
        after.players.contains(p) <==> lobby.players.contains(p) && !p.is_stale(
            when,
            MAX_AGE_SECONDS,
        ) by {
        if after.players.contains(p) {
            lobby.players.lemma_filter_contains_rev(keep, p);
            let k = choose|k: int| 0 <= k < after.players.len() && after.players[k] == p;
            lobby.players.lemma_filter_pred(keep, k);
        }
        if lobby.players.contains(p) && keep(p) {
            let k = choose|k: int| 0 <= k < lobby.players.len() && lobby.players[k] == p;
            lobby.players.lemma_filter_contains(keep, k);
        }
    }
}

/// Eviction by the clock: a player last seen at an instant leaves with the
/// status header that comes more than thirty seconds later, and then no
/// player of the lobby has its identity; with a header that comes thirty
/// seconds later or sooner it stays, unchanged.
pub proof fn lemma_eviction_after_thirty_seconds(lobby: LobbyView, i: int, when: Timestamp)
    requires
        lobby.wf(),
        0 <= i < lobby.players.len(),
    ensures
        ({
            let player = lobby.players[i];
            let after = lobby.apply(LogLineView::StatusHeader { when }, when);
            let age = when@ - player.last_seen@;
            &&& age > 30 * NANOS_PER_SECOND ==> after.find(None, Some(player.steamid)) is None
            &&& age <= 30 * NANOS_PER_SECOND ==> after.find(None, Some(player.steamid)) is Some
                && after.players[after.find(None, Some(player.steamid))->0] == player
        }),
{
    let player = lobby.players[i];
    let after = lobby.purge_old_players(when);
    let age = when@ - player.last_seen@;
    let keep = |p: PlayerView| !p.is_stale(when, MAX_AGE_SECONDS);
    lemma_eviction(lobby, when);
    lemma_filter_keeps_distinct(lobby.players, keep);
    after.lemma_find(None, Some(player.steamid));
    assert(lobby.players.contains(player));
    if age > 30 * NANOS_PER_SECOND {
        if after.find(None, Some(player.steamid)) is Some {
            let k = after.find(None, Some(player.steamid))->0;
            let other = after.players[k];
            assert(after.players.contains(other));
            assert(lobby.players.contains(other));
            let m = choose|m: int| 0 <= m < lobby.players.len() && lobby.players[m] == other;
            if m < i {
                assert(lobby.players[m].steamid != lobby.players[i].steamid);
            } else if i < m {
                assert(lobby.players[i].steamid != lobby.players[m].steamid);
            }
        }
    } else {
        assert(after.players.contains(player));
        let k = choose|k: int| 0 <= k < after.players.len() && after.players[k] == player;
        assert(after.players[k].matches(None, Some(player.steamid)));
        let f = after.find(None, Some(player.steamid))->0;
        if f < k {
            assert(after.players[f].steamid != after.players[k].steamid);
        } else if k < f {
            assert(after.players[k].steamid != after.players[f].steamid);
        }
    }
}

/// Enrichment changes profiles and nothing else: whatever the profile
/// service answers, the lobby afterwards has the same players in the same
/// order, each with its identity, name, team and statistics untouched, and
/// the same chat. An answer for an account that is not in the lobby adds no
/// player.
pub proof fn lemma_merge_changes_profiles_only(lobby: LobbyView, summaries: Seq<SteamPlayerView>)
    ensures
        ({
            let after = lobby.merge_steam_info(summaries);
            &&& after.chat == lobby.chat
            &&& after.players.len() == lobby.players.len()
            &&& forall|j: int|
                0 <= j < lobby.players.len() ==> (#[trigger] after.players[j]) == (PlayerView {
                    steam_info: after.players[j].steam_info,
                    ..lobby.players[j]
                })
            &&& forall|j: int|
                0 <= j < lobby.players.len() && lobby.players[j].steam_info is Some ==> (
                #[trigger] after.players[j]).steam_info is Some
            &&& lobby.wf() ==> after.wf()
        }),
    decreases summaries.len(),
{
    if summaries.len() > 0 {
        let before = lobby.merge_steam_info(summaries.drop_last());
        lemma_merge_changes_profiles_only(lobby, summaries.drop_last());
        lemma_set_steam_info(before, summaries.last());
        let after = lobby.merge_steam_info(summaries);
        assert forall|j: int| 0 <= j < lobby.players.len() implies (#[trigger] after.players[j])
            == (PlayerView { steam_info: after.players[j].steam_info, ..lobby.players[j] }) by {
            assert(before.players[j] == (PlayerView {
                steam_info: before.players[j].steam_info,
                ..lobby.players[j]
            }));
        }
        assert forall|j: int|
            0 <= j < lobby.players.len() && lobby.players[j].steam_info is Some implies (
        #[trigger] after.players[j]).steam_info is Some by {
            assert(before.players[j].steam_info is Some);
        }
        if lobby.wf() {
            assert forall|a: int, b: int| 0 <= a < b < after.players.len() implies (
            #[trigger] after.players[a]).steamid != (#[trigger] after.players[b]).steamid by {
                assert(after.players[a].steamid == lobby.players[a].steamid);
                assert(after.players[b].steamid == lobby.players[b].steamid);
            }
        }
    }
}

/// One profile from the service: it becomes the profile of the first player
/// with its identity, whole, in place of any earlier one, and nothing else
/// changes; where the identity cannot be read or no player has it, nothing
/// changes at all.
pub proof fn lemma_set_steam_info(lobby: LobbyView, summary: SteamPlayerView)
    ensures
        ({
            let after = lobby.set_steam_info(summary);
            &&& after.chat == lobby.chat
            &&& after.players.len() == lobby.players.len()
            &&& forall|j: int|
                0 <= j < lobby.players.len() ==> (#[trigger] after.players[j]) == (PlayerView {
                    steam_info: after.players[j].steam_info,
                    ..lobby.players[j]
                })
            &&& forall|j: int|
                0 <= j < lobby.players.len() && lobby.players[j].steam_info is Some ==> (
                #[trigger] after.players[j]).steam_info is Some
            &&& lobby.wf() ==> after.wf()
            &&& match parse_u64_string(summary.steamid) {
                Some(steamid) => match lobby.find(None, Some(steamid)) {
                    Some(i) => after.players[i].steam_info == Some(summary.steam_info(steamid))
                        && after.players[i].steamid == steamid && forall|j: int|
                        0 <= j < lobby.players.len() && j != i ==> #[trigger] after.players[j]
                            == lobby.players[j],
                    None => after == lobby,
                },
                None => after == lobby,
            }
        }),
{
    match parse_u64_string(summary.steamid) {
        Some(steamid) => {
            lobby.lemma_find(None, Some(steamid));
            match lobby.find(None, Some(steamid)) {
                Some(i) => {
                    if lobby.wf() {
                        lemma_with_player_keeps_wf(
                            lobby,
                            i,
                            lobby.players[i].with_steam_info(summary.steam_info(steamid)),
                        );
                    }
                },
                None => {},
            }
        },
        None => {},
    }
}

/// Enrichment reaches the player it is meant for: where the answer of the
/// profile service holds a profile whose identity a player of the lobby
/// has, that player has a profile afterwards, and the profile is for its
/// identity.
pub proof fn lemma_merge_sets_profile(
    lobby: LobbyView,
    summaries: Seq<SteamPlayerView>,
    k: int,
    i: int,
)
    requires
        lobby.wf(),
        0 <= k < summaries.len(),
        0 <= i < lobby.players.len(),
        parse_u64_string(summaries[k].steamid) == Some(lobby.players[i].steamid),
    ensures
        lobby.merge_steam_info(summaries).players[i].steam_info is Some,
        lobby.merge_steam_info(summaries).players[i].steamid == lobby.players[i].steamid,
    decreases summaries.len(),
{
    let steamid = lobby.players[i].steamid;
    let front = summaries.drop_last();
    let before = lobby.merge_steam_info(front);
    lemma_merge_changes_profiles_only(lobby, front);
    lemma_set_steam_info(before, summaries.last());
    if k == summaries.len() - 1 {
        assert(before.players[i].matches(None, Some(steamid)));
        before.lemma_find(None, Some(steamid));
        let f = before.find(None, Some(steamid))->0;
        if f < i {
            assert(before.players[f].steamid != before.players[i].steamid);
        }
    } else {
        assert(front[k] == summaries[k]);
        lemma_merge_sets_profile(lobby, front, k, i);
    }
}

/// The chat only grows: but for the start of a new lobby, no event takes a
/// line out of the chat or changes one; it adds at most one line at the end.
pub proof fn lemma_chat_only_grows(lobby: LobbyView, line: LogLineView, now: Timestamp)
    requires
        !(line is LobbyCreated),
    ensures
        lobby.chat.is_prefix_of(lobby.apply(line, now).chat),
        lobby.apply(line, now).chat.len() <= lobby.chat.len() + 1,
{
    let after = lobby.apply(line, now);
    match line {
        LogLineView::Chat { when, name, message, dead, team } => {
            if lobby.find(Some(name), None) is Some {
                assert(after.chat.subrange(0, lobby.chat.len() as int) =~= lobby.chat);
            } else {
                assert(after.chat.subrange(0, lobby.chat.len() as int) =~= lobby.chat);
            }
        },
        LogLineView::Kill { killer, victim, weapon, crit, .. } => {
            assert(after.chat == lobby.chat);
            assert(after.chat.subrange(0, lobby.chat.len() as int) =~= lobby.chat);
        },
        _ => {
            assert(after.chat == lobby.chat);
            assert(after.chat.subrange(0, lobby.chat.len() as int) =~= lobby.chat);
        },
    }
}

/// A chat line of a speaker that the lobby does not know is dropped: the
/// lobby stays as it was.
pub proof fn lemma_chat_of_a_stranger_is_dropped(
    lobby: LobbyView,
    when: Timestamp,
    name: Seq<char>,
    message: Seq<char>,
    dead: bool,
    team: bool,
)
    requires
        forall|j: int| 0 <= j < lobby.players.len() ==> (#[trigger] lobby.players[j]).name != name,
    ensures
        lobby.chat(when, name, message, dead, team) == lobby,
{
    lobby.lemma_find_none(Some(name), None);
}

} // verus!
