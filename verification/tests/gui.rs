use std::cmp::Ordering;
use tf2_lobby::gui::background_image::background_image_description;
use tf2_lobby::gui::chat::{chat_prefix, chat_row};
use tf2_lobby::gui::scoreboard::{
    cmp_for_scoreboard, is_listed_before, player_names, players_of_team, scoreboard,
    sort_for_scoreboard, swap_team_colors,
};
use tf2_lobby::models::steamid::SteamID;
use tf2_lobby::models::timestamp::Timestamp;
use tf2_lobby::models::{flag_description, flag_shortname, AppWin, PlayerFlags};
use tf2_lobby::tf2::lobby::{Lobby, LobbyChat, Player, Team};

fn player(id: u32, name: &str, team: Team, kills: u32, deaths: u32) -> Player {
    let mut p = Player::new(id, SteamID(1000 + id as u64), name.to_string(), Timestamp::from_secs(0));
    p.team = team;
    p.kills = kills;
    p.deaths = deaths;
    p
}

fn names(players: &[Player]) -> Vec<&str> {
    players.iter().map(|p| p.name.as_str()).collect()
}

fn roster() -> Vec<Player> {
    vec![
        player(1, "zed", Team::Defendes, 3, 1),
        player(2, "amy", Team::Invaders, 5, 2),
        player(3, "bob", Team::Invaders, 7, 9),
        player(4, "cat", Team::Spec, 0, 0),
        player(5, "dan", Team::Unknown, 0, 0),
        player(6, "eve", Team::Invaders, 5, 1),
        player(7, "fay", Team::Invaders, 5, 1),
        player(8, "Eve", Team::Invaders, 5, 1),
        player(9, "gus", Team::Defendes, 3, 0),
    ]
}

#[test]
fn flags_have_letters_and_descriptions() {
    assert_eq!(flag_shortname(PlayerFlags::Cheater), "C");
    assert_eq!(flag_shortname(PlayerFlags::Bot), "B");
    assert_eq!(flag_shortname(PlayerFlags::Sus), "S");
    assert_eq!(flag_shortname(PlayerFlags::New), "N");
    assert_eq!(flag_shortname(PlayerFlags::Racist), "R");
    assert_eq!(flag_shortname(PlayerFlags::Exploiter), "E");
    assert_eq!(flag_description(PlayerFlags::Cheater), "Cheater");
    assert_eq!(flag_description(PlayerFlags::Bot), "Bot");
    assert_eq!(flag_description(PlayerFlags::Sus), "Suspicious");
    assert_eq!(flag_description(PlayerFlags::New), "New Account");
    assert_eq!(flag_description(PlayerFlags::Racist), "Racist");
    assert_eq!(flag_description(PlayerFlags::Exploiter), "Exploiter");
}

#[test]
fn window_starts_empty_and_keeps_the_newest_report() {
    let mut win = AppWin::new(SteamID(5));
    assert!(win.lobby.players.is_empty());
    assert!(win.lobby.chat.is_empty());
    assert_eq!(win.self_steamid, SteamID(5));
    assert!(!win.swap_team_colors);
    assert!(win.show_crits);
    let mut first = Lobby::new();
    first.players.push(player(1, "old", Team::Spec, 0, 0));
    let mut second = Lobby::new();
    second.players.push(player(2, "new", Team::Spec, 0, 0));
    second.players.push(player(3, "newer", Team::Spec, 0, 0));
    win.swap_team_colors = true;
    win.process_bus(vec![first, second]);
    assert_eq!(names(&win.lobby.players), vec!["new", "newer"]);
    win.process_bus(Vec::new());
    assert_eq!(names(&win.lobby.players), vec!["new", "newer"]);
    assert!(win.swap_team_colors);
    assert!(win.show_crits);
    assert_eq!(win.self_steamid, SteamID(5));
}

#[test]
fn image_credit_names_author_and_place() {
    let d = background_image_description();
    assert_eq!(d.author, "die salo");
    assert_eq!(d.url, "https://www.instagram.com/p/CyrMyRos2xQ/?img_index=1");
}

#[test]
fn scoreboard_order_goes_by_team_kills_deaths_name() {
    let a = player(1, "a", Team::Invaders, 0, 0);
    let b = player(2, "b", Team::Defendes, 9, 0);
    assert_eq!(cmp_for_scoreboard(&a, &b), Ordering::Less);
    assert_eq!(cmp_for_scoreboard(&b, &a), Ordering::Greater);
    let more = player(3, "z", Team::Invaders, 4, 9);
    let fewer = player(4, "a", Team::Invaders, 3, 0);
    assert_eq!(cmp_for_scoreboard(&more, &fewer), Ordering::Less);
    assert_eq!(cmp_for_scoreboard(&fewer, &more), Ordering::Greater);
    let dies_less = player(5, "z", Team::Invaders, 4, 1);
    let dies_more = player(6, "a", Team::Invaders, 4, 2);
    assert_eq!(cmp_for_scoreboard(&dies_less, &dies_more), Ordering::Less);
    assert_eq!(cmp_for_scoreboard(&dies_more, &dies_less), Ordering::Greater);
    let ann = player(7, "ann", Team::Invaders, 4, 1);
    let anna = player(8, "anna", Team::Invaders, 4, 1);
    let bob = player(9, "Bob", Team::Invaders, 4, 1);
    assert_eq!(cmp_for_scoreboard(&ann, &anna), Ordering::Less);
    assert_eq!(cmp_for_scoreboard(&anna, &ann), Ordering::Greater);
    assert_eq!(cmp_for_scoreboard(&bob, &ann), Ordering::Less);
    assert_eq!(cmp_for_scoreboard(&ann, &ann), Ordering::Equal);
    assert!(is_listed_before(&ann, &anna));
    assert!(!is_listed_before(&anna, &ann));
    assert!(!is_listed_before(&ann, &ann));
}

#[test]
fn names_are_ordered_by_code_point() {
    let e_acute = player(1, "é", Team::Spec, 0, 0);
    let z = player(2, "z", Team::Spec, 0, 0);
    let cjk = player(3, "中", Team::Spec, 0, 0);
    let emoji = player(4, "😀", Team::Spec, 0, 0);
    let empty = player(5, "", Team::Spec, 0, 0);
    assert_eq!(cmp_for_scoreboard(&z, &e_acute), Ordering::Less);
    assert_eq!(cmp_for_scoreboard(&e_acute, &cjk), Ordering::Less);
    assert_eq!(cmp_for_scoreboard(&cjk, &emoji), Ordering::Less);
    assert_eq!(cmp_for_scoreboard(&emoji, &z), Ordering::Greater);
    assert_eq!(cmp_for_scoreboard(&empty, &z), Ordering::Less);
    assert_eq!(cmp_for_scoreboard(&z, &empty), Ordering::Greater);
    assert_eq!(cmp_for_scoreboard(&empty, &empty), Ordering::Equal);
}

#[test]
fn team_ranks_follow_the_listing() {
    assert_eq!(Team::Unknown.rank(), 0);
    assert_eq!(Team::Invaders.rank(), 1);
    assert_eq!(Team::Defendes.rank(), 2);
    assert_eq!(Team::Spec.rank(), 3);
    assert_eq!(Team::Invaders.swapped(), Team::Defendes);
    assert_eq!(Team::Defendes.swapped(), Team::Invaders);
    assert_eq!(Team::Spec.swapped(), Team::Spec);
    assert_eq!(Team::Unknown.swapped(), Team::Unknown);
}

#[test]
fn sort_puts_the_players_in_scoreboard_order() {
    let sorted = sort_for_scoreboard(roster());
    assert_eq!(
        names(&sorted),
        vec!["dan", "bob", "Eve", "eve", "fay", "amy", "gus", "zed", "cat"]
    );
    assert!(sort_for_scoreboard(Vec::new()).is_empty());
    let again = sort_for_scoreboard(sorted);
    assert_eq!(
        names(&again),
        vec!["dan", "bob", "Eve", "eve", "fay", "amy", "gus", "zed", "cat"]
    );
}

#[test]
fn sort_agrees_with_the_standard_sort() {
    let mut expected = roster();
    expected.extend(roster());
    expected.sort_by(cmp_for_scoreboard);
    let mut given = roster();
    given.extend(roster());
    let sorted = sort_for_scoreboard(given);
    let ids = |ps: &[Player]| ps.iter().map(|p| p.id).collect::<Vec<u32>>();
    assert_eq!(ids(&sorted), ids(&expected));
}

#[test]
fn swap_changes_invaders_and_defenders_only() {
    let mut players = roster();
    swap_team_colors(&mut players);
    let teams: Vec<Team> = players.iter().map(|p| p.team).collect();
    assert_eq!(
        teams,
        vec![
            Team::Invaders,
            Team::Defendes,
            Team::Defendes,
            Team::Spec,
            Team::Unknown,
            Team::Defendes,
            Team::Defendes,
            Team::Defendes,
            Team::Invaders,
        ]
    );
    assert_eq!(names(&players), names(&roster()));
    assert_eq!(players[1].kills, 5);
}

#[test]
fn players_of_team_keeps_the_order() {
    let players = roster();
    assert_eq!(names(&players_of_team(&players, Team::Invaders)), vec!["amy", "bob", "eve", "fay", "Eve"]);
    assert_eq!(names(&players_of_team(&players, Team::Defendes)), vec!["zed", "gus"]);
    assert_eq!(names(&players_of_team(&players, Team::Spec)), vec!["cat"]);
    assert_eq!(names(&players_of_team(&players, Team::Unknown)), vec!["dan"]);
    assert!(players_of_team(&Vec::new(), Team::Spec).is_empty());
}

#[test]
fn player_names_are_joined_by_commas() {
    assert_eq!(player_names(&Vec::new()), "");
    assert_eq!(player_names(&vec![player(1, "solo", Team::Spec, 0, 0)]), "solo");
    assert_eq!(player_names(&roster()), "zed, amy, bob, cat, dan, eve, fay, Eve, gus");
    assert_eq!(
        player_names(&vec![player(1, "", Team::Spec, 0, 0), player(2, "", Team::Spec, 0, 0)]),
        ", "
    );
}

#[test]
fn scoreboard_lists_each_team_in_order() {
    let mut lobby = Lobby::new();
    lobby.players = roster();
    let board = scoreboard(&lobby, false);
    assert_eq!(names(&board.blu), vec!["bob", "Eve", "eve", "fay", "amy"]);
    assert_eq!(names(&board.red), vec!["gus", "zed"]);
    assert_eq!(names(&board.spectators), vec!["cat"]);
    assert_eq!(names(&board.unknown), vec!["dan"]);
    assert_eq!(board.spectators_label(), Some("Spectators: cat".to_string()));
    assert_eq!(board.joined_label(), Some("Joined: dan".to_string()));
    assert!(board.needs_separator());
    assert_eq!(names(&lobby.players), names(&roster()));
    assert_eq!(lobby.players[0].team, Team::Defendes);
}

#[test]
fn scoreboard_swaps_the_colours() {
    let mut lobby = Lobby::new();
    lobby.players = roster();
    let board = scoreboard(&lobby, true);
    assert_eq!(names(&board.blu), vec!["gus", "zed"]);
    assert_eq!(names(&board.red), vec!["bob", "Eve", "eve", "fay", "amy"]);
    assert!(board.blu.iter().all(|p| p.team == Team::Invaders));
    assert!(board.red.iter().all(|p| p.team == Team::Defendes));
    assert_eq!(names(&board.spectators), vec!["cat"]);
    assert_eq!(names(&board.unknown), vec!["dan"]);
}

#[test]
fn labels_are_shown_only_while_there_are_spectators() {
    let mut lobby = Lobby::new();
    lobby.players = vec![
        player(1, "dan", Team::Unknown, 0, 0),
        player(2, "amy", Team::Invaders, 1, 0),
    ];
    let board = scoreboard(&lobby, false);
    assert_eq!(board.spectators_label(), None);
    assert_eq!(board.joined_label(), None);
    assert!(!board.needs_separator());
    lobby.players = vec![
        player(1, "cat", Team::Spec, 0, 0),
        player(2, "cab", Team::Spec, 0, 0),
    ];
    let board = scoreboard(&lobby, false);
    assert_eq!(board.spectators_label(), Some("Spectators: cab, cat".to_string()));
    assert_eq!(board.joined_label(), Some("Joined: ".to_string()));
    assert!(!board.needs_separator());
    let empty = scoreboard(&Lobby::new(), true);
    assert!(empty.blu.is_empty() && empty.red.is_empty());
    assert!(empty.spectators.is_empty() && empty.unknown.is_empty());
}

#[test]
fn chat_prefix_tells_dead_and_team() {
    assert_eq!(chat_prefix(true, true), "*DEAD*(TEAM) ");
    assert_eq!(chat_prefix(true, false), "*DEAD* ");
    assert_eq!(chat_prefix(false, true), "(TEAM) ");
    assert_eq!(chat_prefix(false, false), "");
}

#[test]
fn chat_row_names_the_speaker_in_its_colour() {
    let mut lobby = Lobby::new();
    lobby.players = roster();
    let line = LobbyChat {
        when: Timestamp::from_secs(3),
        steamid: SteamID(1002),
        message: "hello".to_string(),
        dead: true,
        team: false,
    };
    let row = chat_row(&lobby, &line, false).unwrap();
    assert_eq!(row.prefix, "*DEAD* ");
    assert_eq!(row.team, Team::Invaders);
    assert_eq!(row.name, "amy");
    assert_eq!(row.message, "hello");
    let row = chat_row(&lobby, &line, true).unwrap();
    assert_eq!(row.team, Team::Defendes);
    assert_eq!(row.name, "amy");
    let watcher = LobbyChat { steamid: SteamID(1004), team: true, dead: false, ..line.clone() };
    let row = chat_row(&lobby, &watcher, true).unwrap();
    assert_eq!(row.prefix, "(TEAM) ");
    assert_eq!(row.team, Team::Spec);
    assert_eq!(row.name, "cat");
}

#[test]
fn chat_row_of_a_player_who_left_is_not_shown() {
    let mut lobby = Lobby::new();
    lobby.players = roster();
    let line = LobbyChat {
        when: Timestamp::from_secs(3),
        steamid: SteamID(7),
        message: "ghost".to_string(),
        dead: false,
        team: false,
    };
    assert!(chat_row(&lobby, &line, false).is_none());
    assert!(chat_row(&Lobby::new(), &line, true).is_none());
}
