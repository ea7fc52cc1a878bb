//! The rows of the chat as the window shows them.

use crate::gui::scoreboard::swapped_team;
use crate::tf2::lobby::model::{LobbyChatView, LobbyView};
use crate::tf2::lobby::{Lobby, LobbyChat, Team};
use vstd::prelude::*;

verus! {

/// The words in front of a chat line that say whether the speaker was dead
/// and whether only its team could read the line.
pub open spec fn chat_prefix_text(dead: bool, team: bool) -> Seq<char> {
    if dead && team {
        "*DEAD*(TEAM) "@
    } else if dead {
        "*DEAD* "@
    } else if team {
        "(TEAM) "@
    } else {
        ""@
    }
}

/// The words in front of a chat line.
pub fn chat_prefix(dead: bool, team: bool) -> (r: &'static str)
    ensures
        r@ == chat_prefix_text(dead, team),
{
    if dead && team {
        "*DEAD*(TEAM) "
    } else if dead {
        "*DEAD* "
    } else if team {
        "(TEAM) "
    } else {
        ""
    }
}

/// One row of the chat: the words in front, the speaker's name, the team in
/// whose colour the name is shown, and what was said.
pub struct ChatRow {
    pub prefix: &'static str,
    pub team: Team,
    pub name: String,
    pub message: String,
}

/// A row of the chat, as a value.
pub struct ChatRowView {
    pub prefix: Seq<char>,
    pub team: Team,
    pub name: Seq<char>,
    pub message: Seq<char>,
}

impl View for ChatRow {
    type V = ChatRowView;

    open spec fn view(&self) -> ChatRowView {
        ChatRowView {
            prefix: self.prefix@,
            team: self.team,
            name: self.name@,
            message: self.message@,
        }
    }
}

/// The row for the chat line `chat`: `None` where its speaker is no longer
/// a player of the lobby; else the row under the speaker's name, in the
/// colour of its team, or of the other colour where `swap` holds.
pub open spec fn chat_row_of(lobby: LobbyView, chat: LobbyChatView, swap: bool) -> Option<
    ChatRowView,
> {
    match lobby.find(None, Some(chat.steamid)) {
        Some(i) => Some(
            ChatRowView {
                prefix: chat_prefix_text(chat.dead, chat.team),
                team: if swap {
                    swapped_team(lobby.players[i].team)
                } else {
                    lobby.players[i].team
                },
                name: lobby.players[i].name,
                message: chat.message,
            },
        ),
        None => None,
    }
}

/// Works out the row for one line of the chat. A line whose speaker has
/// left the lobby has no row.
pub fn chat_row(lobby: &Lobby, chat: &LobbyChat, swap: bool) -> (r: Option<ChatRow>)
    ensures
        match r {
            Some(row) => chat_row_of(lobby@, chat@, swap) == Some(row@),
            None => chat_row_of(lobby@, chat@, swap) is None,
        },
{
    match lobby.get_player(None, Some(chat.steamid)) {
        Some(player) => {
            let team = if swap {
                player.team.swapped()
            } else {
                player.team
            };
            Some(
                ChatRow {
                    prefix: chat_prefix(chat.dead, chat.team),
                    team,
                    name: player.name.clone(),
                    message: chat.message.clone(),
                },
            )
        },
        None => None,
    }
}

} // verus!
