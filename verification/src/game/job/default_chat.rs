use vstd::prelude::*;

use crate::game::classic_game_status::{LifeStatus, Status};
use crate::game::time::Time;

use super::job::ChatFn;

verus! {

/// The chat rule every job shares: the dead talk among the dead, a player
/// sent to rest (seongbul) is not heard, and by day everyone hears everyone;
/// `None` where the job's own rule decides.
pub open spec fn spec_chat_default(time: Time, my_status: Status) -> Option<ChatFn> {
    if my_status.life_status == LifeStatus::Dead {
        Some(ChatFn::Dead)
    } else if my_status.life_status == LifeStatus::Seongbul {
        Some(ChatFn::Silent)
    } else if time == Time::Day {
        Some(ChatFn::Everyone)
    } else {
        None
    }
}

pub fn chat_default(time: Time, my_status: &Status) -> (res: Option<ChatFn>)
    ensures
        res == spec_chat_default(time, *my_status),
{
    if my_status.life_status == LifeStatus::Dead {
        Some(ChatFn::Dead)
    } else if my_status.life_status == LifeStatus::Seongbul {
        Some(ChatFn::Silent)
    } else if time == Time::Day {
        Some(ChatFn::Everyone)
    } else {
        None
    }
}

} // verus!
