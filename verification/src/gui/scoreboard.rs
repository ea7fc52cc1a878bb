//! The scoreboard: the players of each team in the order in which they are
//! listed.

use crate::tf2::lobby::model::PlayerView;
use crate::tf2::lobby::{player_views, Lobby, Player, Team};
use std::cmp::Ordering;
use vstd::prelude::*;
use vstd::string::StringExecFns;

verus! {

/// The place of a team among the teams: unknown first, then the invaders,
/// the defenders and the spectators.
pub open spec fn team_rank(team: Team) -> int {
    match team {
        Team::Unknown => 0,
        Team::Invaders => 1,
        Team::Defendes => 2,
        Team::Spec => 3,
    }
}

/// Whether the text `a` comes before the text `b` in the order of the
/// dictionary, character by character; a text comes after each of its
/// beginnings.
pub open spec fn text_before(a: Seq<char>, b: Seq<char>) -> bool
    decreases a.len(),
{
    if b.len() == 0 {
        false
    } else if a.len() == 0 {
        true
    } else if a[0] != b[0] {
        a[0] < b[0]
    } else {
        text_before(a.drop_first(), b.drop_first())
    }
}

/// Whether the player `a` is listed before the player `b`: by team, then
/// the one with more kills, then the one with fewer deaths, then by name.
pub open spec fn listed_before(a: PlayerView, b: PlayerView) -> bool {
    if a.team != b.team {
        team_rank(a.team) < team_rank(b.team)
    } else if a.kills != b.kills {
        a.kills > b.kills
    } else if a.deaths != b.deaths {
        a.deaths < b.deaths
    } else {
        text_before(a.name, b.name)
    }
}

/// Whether the players `players` stand in the order of the scoreboard: none
/// is listed before one that stands in front of it.
pub open spec fn in_scoreboard_order(players: Seq<PlayerView>) -> bool {
    forall|i: int, j: int|
        0 <= i < j < players.len() ==> !listed_before(#[trigger] players[j], #[trigger] players[i])
}

/// No text comes before itself, and of two texts at most one comes before
/// the other.
pub proof fn lemma_text_before_asymmetric(a: Seq<char>, b: Seq<char>)
    ensures
        !(text_before(a, b) && text_before(b, a)),
    decreases a.len(),
{
    if a.len() > 0 && b.len() > 0 && a[0] == b[0] {
        lemma_text_before_asymmetric(a.drop_first(), b.drop_first());
    }
}

/// What comes before a text that comes before a third comes before the
/// third.
pub proof fn lemma_text_before_transitive(a: Seq<char>, b: Seq<char>, c: Seq<char>)
    requires
        text_before(a, b),
        text_before(b, c),
    ensures
        text_before(a, c),
    decreases a.len(),
{
    if a.len() > 0 && a[0] == b[0] && b[0] == c[0] {
        lemma_text_before_transitive(a.drop_first(), b.drop_first(), c.drop_first());
    }
}

/// The order of the scoreboard is an order: a player listed before one that
/// is listed before a third is listed before the third.
pub proof fn lemma_listed_before_transitive(a: PlayerView, b: PlayerView, c: PlayerView)
    requires
        listed_before(a, b),
        listed_before(b, c),
    ensures
        listed_before(a, c),
{
    if a.team == b.team && b.team == c.team && a.kills == b.kills && b.kills == c.kills
        && a.deaths == b.deaths && b.deaths == c.deaths {
        lemma_text_before_transitive(a.name, b.name, c.name);
    }
}

/// Of two players at most one is listed before the other, and none before
/// itself.
pub proof fn lemma_listed_before_asymmetric(a: PlayerView, b: PlayerView)
    ensures
        !(listed_before(a, b) && listed_before(b, a)),
{
    lemma_text_before_asymmetric(a.name, b.name);
}

/// The team of the other colour: invaders and defenders change places, the
/// rest stay.
pub open spec fn swapped_team(team: Team) -> Team {
    match team {
        Team::Invaders => Team::Defendes,
        Team::Defendes => Team::Invaders,
        other => other,
    }
}

/// `str`'s order, `<str as Ord>::cmp`: string slices are ordered as in a
/// dictionary by their bytes, which is the order of their characters by code
/// point.
#[verifier::external_body]
fn str_ordering(a: &str, b: &str) -> (r: Ordering)
    ensures
        (r == Ordering::Less) == text_before(a@, b@),
        (r == Ordering::Greater) == text_before(b@, a@),
{
    a.cmp(b)
}

impl Team {
    /// The place of the team among the teams.
    pub fn rank(self) -> (r: u8)
        ensures
            r == team_rank(self),
    {
        match self {
            Team::Unknown => 0,
            Team::Invaders => 1,
            Team::Defendes => 2,
            Team::Spec => 3,
        }
    }

    /// The team of the other colour.
    pub fn swapped(self) -> (r: Team)
        ensures
            r == swapped_team(self),
    {
        match self {
            Team::Invaders => Team::Defendes,
            Team::Defendes => Team::Invaders,
            other => other,
        }
    }
}

/// Compares two players for the scoreboard: `Less` where `a` is listed
/// before `b`, `Greater` where `b` is listed before `a`, `Equal` where
/// neither is.
pub fn cmp_for_scoreboard(a: &Player, b: &Player) -> (r: Ordering)
    ensures
        (r == Ordering::Less) == listed_before(a@, b@),
        (r == Ordering::Greater) == listed_before(b@, a@),
{
    proof {
        lemma_text_before_asymmetric(a@.name, b@.name);
    }
    if a.team != b.team {
        return if a.team.rank() < b.team.rank() {
            Ordering::Less
        } else {
            Ordering::Greater
        };
    }
    if a.kills != b.kills {
        return if a.kills > b.kills {
            Ordering::Less
        } else {
            Ordering::Greater
        };
    }
    if a.deaths != b.deaths {
        return if a.deaths < b.deaths {
            Ordering::Less
        } else {
            Ordering::Greater
        };
    }
    str_ordering(a.name.as_str(), b.name.as_str())
}

/// Whether the player `a` is listed before the player `b`.
pub fn is_listed_before(a: &Player, b: &Player) -> (r: bool)
    ensures
        r == listed_before(a@, b@),
{
    match cmp_for_scoreboard(a, b) {
        Ordering::Less => true,
        _ => false,
    }
}

/// The players `players`, each on the team of the other colour.
pub open spec fn with_swapped_teams(players: Seq<PlayerView>) -> Seq<PlayerView> {
    players.map_values(|p: PlayerView| p.on_team(swapped_team(p.team)))
}

/// The players of `players` that are on the team `team`, in their order.
pub open spec fn on_team(players: Seq<PlayerView>, team: Team) -> Seq<PlayerView> {
    players.filter(|p: PlayerView| p.team == team)
}

/// The names `names` in one line, with a comma and a blank between each two.
pub open spec fn joined(names: Seq<Seq<char>>) -> Seq<char>
    decreases names.len(),
{
    if names.len() == 0 {
        Seq::empty()
    } else if names.len() == 1 {
        names[0]
    } else {
        joined(names.drop_last()) + ", "@ + names.last()
    }
}

/// The names of the players `players`, in their order.
pub open spec fn names_of(players: Seq<PlayerView>) -> Seq<Seq<char>> {
    players.map_values(|p: PlayerView| p.name)
}

/// Puts every player on the team of the other colour.
pub fn swap_team_colors(players: &mut Vec<Player>)
    ensures
        player_views(final(players)@) == with_swapped_teams(player_views(old(players)@)),
{
    let ghost before = player_views(players@);
    let mut i: usize = 0;
    while i < players.len()
        invariant
            i <= players.len(),
            players.len() == before.len(),
            forall|j: int|
                0 <= j < i ==> (#[trigger] players[j])@ == before[j].on_team(
                    swapped_team(before[j].team),
                ),
            forall|j: int| i <= j < players.len() ==> (#[trigger] players[j])@ == before[j],
        decreases players.len() - i,
    {
        players[i].team = players[i].team.swapped();
        i += 1;
    }
    assert(player_views(players@) =~= with_swapped_teams(before));
}

/// The place at which `player` joins the players `sorted`: behind every
/// player that it is not listed before.
fn insertion_point(sorted: &Vec<Player>, player: &Player) -> (r: usize)
    ensures
        r <= sorted.len(),
        forall|j: int| 0 <= j < r ==> !listed_before(player@, (#[trigger] sorted[j])@),
        r < sorted.len() ==> listed_before(player@, sorted[r as int]@),
{
    let mut i: usize = 0;
    while i < sorted.len()
        invariant
            i <= sorted.len(),
            forall|j: int| 0 <= j < i ==> !listed_before(player@, (#[trigger] sorted[j])@),
        decreases sorted.len() - i,
    {
        if is_listed_before(player, &sorted[i]) {
            return i;
        }
        i += 1;
    }
    i
}

/// A player put into a run of players has the players of the run and
/// itself, each as often as before.
proof fn lemma_insert_to_multiset(players: Seq<PlayerView>, at: int, player: PlayerView)
    requires
        0 <= at <= players.len(),
    ensures
        players.insert(at, player).to_multiset() == players.to_multiset().insert(player),
{
    let longer = players.insert(at, player);
    assert(longer.remove(at) =~= players);
    assert(longer[at] == player);
    vstd::seq_lib::to_multiset_remove(longer, at);
    longer.to_multiset_ensures();
    assert(longer.contains(player));
    assert(longer.to_multiset() =~= players.to_multiset().insert(player));
}

/// The players in the order of the scoreboard: by team, then the one with
/// more kills, then the one with fewer deaths, then by name. The result has
/// the players that were given, each as often as it was given.
pub fn sort_for_scoreboard(players: Vec<Player>) -> (r: Vec<Player>)
    ensures
        in_scoreboard_order(player_views(r@)),
        player_views(r@).to_multiset() == player_views(players@).to_multiset(),
{
    let ghost given = player_views(players@);
    let mut sorted: Vec<Player> = Vec::new();
    assert(player_views(sorted@) =~= given.take(0));
    for player in it: players
        invariant
            given == player_views(players@),
            in_scoreboard_order(player_views(sorted@)),
            player_views(sorted@).to_multiset() == given.take(it.index() as int).to_multiset(),
    {
        let ghost before = player_views(sorted@);
        let ghost k = it.index() as int;
        let at = insertion_point(&sorted, &player);
        proof {
            assert forall|j: int| 0 <= j < at implies !listed_before(
                player@,
                #[trigger] before[j],
            ) by {
                assert(before[j] == sorted[j]@);
            }
            assert(at < before.len() ==> before[at as int] == sorted[at as int]@);
        }
        sorted.insert(at, player);
        proof {
            let after = player_views(sorted@);
            assert(after =~= before.insert(at as int, player@));
            lemma_insert_to_multiset(before, at as int, player@);
            assert(given.take(k + 1) =~= given.take(k).push(player@));
            vstd::seq_lib::to_multiset_build(given.take(k), player@);
            assert forall|i: int, j: int| 0 <= i < j < after.len() implies !listed_before(
                #[trigger] after[j],
                #[trigger] after[i],
            ) by {
                if j == at {
                    assert(after[i] == before[i]);
                } else if i == at {
                    assert(after[j] == before[j - 1]);
                    lemma_listed_before_asymmetric(player@, before[at as int]);
                    if listed_before(after[j], player@) {
                        lemma_listed_before_transitive(after[j], player@, before[at as int]);
                    }
                } else {
                    let bi = if i < at { i } else { i - 1 };
                    let bj = if j < at { j } else { j - 1 };
                    assert(after[i] == before[bi] && after[j] == before[bj]);
                }
            }
        }
    }
    assert(given.take(players@.len() as int) =~= given);
    sorted
}

/// The players of `players` that are on the team `team`, in their order.
pub fn players_of_team(players: &Vec<Player>, team: Team) -> (r: Vec<Player>)
    ensures
        player_views(r@) == on_team(player_views(players@), team),
{
    let ghost given = player_views(players@);
    let ghost wanted = |p: PlayerView| p.team == team;
    let mut chosen: Vec<Player> = Vec::new();
    let mut i: usize = 0;
    assert(given.take(0).filter(wanted) =~= Seq::empty()) by {
        reveal(Seq::filter);
    }
    while i < players.len()
        invariant
            i <= players.len(),
            given == player_views(players@),
            wanted == |p: PlayerView| p.team == team,
            player_views(chosen@) == given.take(i as int).filter(wanted),
        decreases players.len() - i,
    {
        let ghost seen = given.take(i as int);
        let player = &players[i];
        proof {
            assert(given.take(i + 1) =~= seen.push(player@));
            seen.lemma_filter_push(player@, wanted);
        }
        if player.team == team {
            chosen.push(player.clone());
            assert(player_views(chosen@) =~= seen.filter(wanted).push(player@));
        }
        i += 1;
    }
    assert(given.take(i as int) =~= given);
    chosen
}

/// The names of the players `players` in one line, with a comma and a blank
/// between each two.
pub fn player_names(players: &Vec<Player>) -> (r: String)
    ensures
        r@ == joined(names_of(player_views(players@))),
{
    let ghost names = names_of(player_views(players@));
    let mut line = String::new();
    let mut i: usize = 0;
    while i < players.len()
        invariant
            i <= players.len(),
            names == names_of(player_views(players@)),
            line@ == joined(names.take(i as int)),
        decreases players.len() - i,
    {
        proof {
            assert(names.take(i + 1).drop_last() =~= names.take(i as int));
            assert(names.take(i + 1).last() == players[i as int].name@);
        }
        if i > 0 {
            line.append(", ");
            line.append(players[i].name.as_str());
        } else {
            line.append(players[i].name.as_str());
            assert(line@ =~= players[i as int].name@);
            assert(names.take(1)[0] == players[i as int].name@);
        }
        i += 1;
    }
    assert(names.take(i as int) =~= names);
    line
}

/// The scoreboard: the two teams in the order in which their players are
/// listed, and the players that watch or have only just joined.
pub struct Scoreboard {
    pub blu: Vec<Player>,
    pub red: Vec<Player>,
    pub spectators: Vec<Player>,
    pub unknown: Vec<Player>,
}

/// The players of the lobby as the scoreboard lists them: with the team
/// colours swapped where `swap` holds, then in the order of the scoreboard.
pub open spec fn is_scoreboard_listing(
    listing: Seq<PlayerView>,
    players: Seq<PlayerView>,
    swap: bool,
) -> bool {
    &&& in_scoreboard_order(listing)
    &&& listing.to_multiset() == (if swap {
        with_swapped_teams(players)
    } else {
        players
    }).to_multiset()
}

/// Works out the scoreboard of the lobby. The players are taken with their
/// team colours swapped where `swap` holds and put in the order of the
/// scoreboard; from that listing come the invaders as the blue team, the
/// defenders as the red team, the spectators and the players of no team.
pub fn scoreboard(lobby: &Lobby, swap: bool) -> (r: Scoreboard)
    ensures
        exists|listing: Seq<PlayerView>|
            {
                &&& #[trigger] is_scoreboard_listing(listing, lobby@.players, swap)
                &&& player_views(r.blu@) == on_team(listing, Team::Invaders)
                &&& player_views(r.red@) == on_team(listing, Team::Defendes)
                &&& player_views(r.spectators@) == on_team(listing, Team::Spec)
                &&& player_views(r.unknown@) == on_team(listing, Team::Unknown)
            },
{
    let mut players = lobby.clone().players;
    if swap {
        swap_team_colors(&mut players);
    }
    let sorted = sort_for_scoreboard(players);
    let r = Scoreboard {
        blu: players_of_team(&sorted, Team::Invaders),
        red: players_of_team(&sorted, Team::Defendes),
        spectators: players_of_team(&sorted, Team::Spec),
        unknown: players_of_team(&sorted, Team::Unknown),
    };
    assert(is_scoreboard_listing(player_views(sorted@), lobby@.players, swap));
    r
}

impl Scoreboard {
    /// The line that names the spectators, where there are any.
    pub fn spectators_label(&self) -> (r: Option<String>)
        ensures
            match r {
                Some(label) => self.spectators@.len() > 0 && label@ == "Spectators: "@ + joined(
                    names_of(player_views(self.spectators@)),
                ),
                None => self.spectators@.len() == 0,
            },
    {
        if self.spectators.len() == 0 {
            return None;
        }
        let mut label = String::new();
        label.append("Spectators: ");
        label.append(player_names(&self.spectators).as_str());
        assert(label@ =~= "Spectators: "@ + joined(names_of(player_views(self.spectators@))));
        Some(label)
    }

    /// The line that names the players of no team. It is shown only while
    /// there are spectators.
    pub fn joined_label(&self) -> (r: Option<String>)
        ensures
            match r {
                Some(label) => self.spectators@.len() > 0 && label@ == "Joined: "@ + joined(
                    names_of(player_views(self.unknown@)),
                ),
                None => self.spectators@.len() == 0,
            },
    {
        if self.spectators.len() == 0 {
            return None;
        }
        let mut label = String::new();
        label.append("Joined: ");
        label.append(player_names(&self.unknown).as_str());
        assert(label@ =~= "Joined: "@ + joined(names_of(player_views(self.unknown@))));
        Some(label)
    }

    /// Whether a line is drawn between the two labels: where there are both
    /// spectators and players of no team.
    pub fn needs_separator(&self) -> (r: bool)
        ensures
            r == (self.spectators@.len() > 0 && self.unknown@.len() > 0),
    {
        self.spectators.len() > 0 && self.unknown.len() > 0
    }
}

} // verus!
