use vstd::prelude::*;

use crate::game::classic_game_status::Status;
use crate::game::event::Event;
use crate::game::job::default_chat::{chat_default, spec_chat_default};
use crate::game::job::job::{ChatFn, Job};
use crate::game::job::option::{HandType, JobOption};
use crate::game::job::{JobList, Team};
use crate::game::time::Time;

verus! {

#[derive(Debug, Clone, Copy, PartialEq, Eq, Structural)]
pub struct Citizen;

impl Citizen {
    pub fn new() -> (res: Self)
        ensures
            res == Citizen,
    {
        Self {}
    }

    pub open spec fn spec_option() -> JobOption {
        JobOption {
            job_id: JobList::Citizen,
            team: Team::CitizenTeam,
            hand_type: HandType::NoHand,
            vote_right: 1,
            shared_hand: false,
        }
    }

    pub open spec fn spec_chat(time: Time, my_status: Status) -> ChatFn {
        match spec_chat_default(time, my_status) {
            Some(f) => f,
            None => ChatFn::Silent,
        }
    }
}

impl Job for Citizen {
    fn option(&self) -> (res: JobOption)
        ensures
            res == Citizen::spec_option(),
    {
        JobOption {
            job_id: JobList::Citizen,
            team: Team::CitizenTeam,
            hand_type: HandType::NoHand,
            vote_right: 1,
            shared_hand: false,
        }
    }

    /// A citizen never points.
    fn is_valid_hand(&self, time: Time, job: &JobOption, status: &Status, idx: usize) -> (res: bool)
        ensures
            !res,
    {
        false
    }

    fn hand(&self, time: Time, job: &JobOption, status: &Status, my_idx: usize, target_idx: usize) -> (res: Vec<Event>)
        ensures
            res@.len() == 0,
    {
        Vec::new()
    }

    fn chat(&self, time: Time, my_status: &Status) -> (res: ChatFn)
        ensures
            res == Citizen::spec_chat(time, *my_status),
    {
        if let Some(chat_fn) = chat_default(time, my_status) {
            return chat_fn;
        }
        ChatFn::Silent
    }
}

} // verus!
