pub mod mafia;

use vstd::prelude::*;

use crate::game::classic_game_status::{LifeStatus, Status};
use crate::game::time::Time;

use super::job::ChatFn;

verus! {

/// The mafia's own chat rule: a living mafia talks to the mafia at night.
pub open spec fn spec_chat_mafia(time: Time, my_status: Status) -> Option<ChatFn> {
    if my_status.life_status == LifeStatus::Alive && time == Time::Night {
        Some(ChatFn::Mafia)
    } else {
        None
    }
}

pub fn chat_mafia(time: Time, my_status: &Status) -> (res: Option<ChatFn>)
    ensures
        res == spec_chat_mafia(time, *my_status),
{
    if my_status.life_status == LifeStatus::Alive && time == Time::Night {
        return Some(ChatFn::Mafia);
    }
    None
}

} // verus!
