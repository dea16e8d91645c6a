use vstd::prelude::*;

use crate::game::classic_game_status::{LifeStatus, Status};
use crate::game::event::Event;
use crate::game::job::default_chat::{chat_default, spec_chat_default};
use crate::game::job::job::{ChatFn, Job};
use crate::game::job::option::{HandType, JobOption};
use crate::game::job::{JobList, Team};
use crate::game::time::Time;

use super::{chat_mafia, spec_chat_mafia};

verus! {

#[derive(Debug, Clone, Copy, PartialEq, Eq, Structural)]
pub struct Mafia;

impl Mafia {
    pub fn new() -> (res: Self)
        ensures
            res == Mafia,
    {
        Self {}
    }

    pub open spec fn spec_option() -> JobOption {
        JobOption {
            job_id: JobList::Mafia,
            team: Team::MafiaTeam,
            hand_type: HandType::MovingHand,
            vote_right: 1,
            shared_hand: true,
        }
    }

    /// The mafia points at night, at a living player.
    pub open spec fn spec_is_valid_hand(time: Time, status: Status) -> bool {
        time == Time::Night && status.life_status == LifeStatus::Alive
    }

    pub open spec fn spec_chat(time: Time, my_status: Status) -> ChatFn {
        match spec_chat_default(time, my_status) {
            Some(f) => f,
            None => match spec_chat_mafia(time, my_status) {
                Some(f) => f,
                None => ChatFn::Silent,
            },
        }
    }
}

impl Job for Mafia {
    fn option(&self) -> (res: JobOption)
        ensures
            res == Mafia::spec_option(),
    {
        JobOption {
            job_id: JobList::Mafia,
            team: Team::MafiaTeam,
            hand_type: HandType::MovingHand,
            vote_right: 1,
            shared_hand: true,
        }
    }

    fn is_valid_hand(&self, time: Time, job: &JobOption, status: &Status, idx: usize) -> (res: bool)
        ensures
            res == Mafia::spec_is_valid_hand(time, *status),
    {
        if time != Time::Night {
            return false;
        }
        status.life_status == LifeStatus::Alive
    }

    /// The mafia's shot is carried out by the game loop, not here.
    fn hand(&self, time: Time, job: &JobOption, status: &Status, my_idx: usize, target_idx: usize) -> (res: Vec<Event>)
        ensures
            res@.len() == 0,
    {
        Vec::new()
    }

    fn chat(&self, time: Time, my_status: &Status) -> (res: ChatFn)
        ensures
            res == Mafia::spec_chat(time, *my_status),
    {
        if let Some(chat_fn) = chat_default(time, my_status) {
            return chat_fn;
        }
        if let Some(chat_fn) = chat_mafia(time, my_status) {
            return chat_fn;
        }
        ChatFn::Silent
    }
}

} // verus!
