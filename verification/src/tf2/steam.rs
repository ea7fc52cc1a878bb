//! What the profile service answers.

use crate::models::timestamp::Timestamp;
use crate::tf2::lobby::model::SteamPlayerView;
use vstd::prelude::*;

verus! {

/// One account as the profile service describes it.
#[derive(Debug)]
pub struct SteamPlayer {
    /// The identity in its 64-bit textual form.
    pub steamid: String,
    pub personaname: String,
    pub avatar: String,
    pub avatarmedium: String,
    pub avatarfull: String,
    /// The second, counted from the Unix epoch, in which the account was
    /// made, where the account shows it.
    pub timecreated: Option<u64>,
}

impl View for SteamPlayer {
    type V = SteamPlayerView;

    open spec fn view(&self) -> SteamPlayerView {
        SteamPlayerView {
            steamid: self.steamid@,
            personaname: self.personaname@,
            avatar: self.avatar@,
            avatarmedium: self.avatarmedium@,
            avatarfull: self.avatarfull@,
            timecreated: self.timecreated,
        }
    }
}

impl Clone for SteamPlayer {
    fn clone(&self) -> (r: SteamPlayer)
        ensures
            r@ == self@,
    {
        SteamPlayer {
            steamid: self.steamid.clone(),
            personaname: self.personaname.clone(),
            avatar: self.avatar.clone(),
            avatarmedium: self.avatarmedium.clone(),
            avatarfull: self.avatarfull.clone(),
            timecreated: self.timecreated,
        }
    }
}

impl SteamPlayer {
    /// The instant at which the account was made, where the service told
    /// it and it is a second that an instant can hold.
    pub fn get_account_age(&self) -> (r: Option<Timestamp>)
        ensures
            r == self@.account_age(),
    {
        match self.timecreated {
            Some(secs) => if secs <= i64::MAX as u64 {
                Some(Timestamp::from_secs(secs as i64))
            } else {
                None
            },
            None => None,
        }
    }
}

} // verus!
