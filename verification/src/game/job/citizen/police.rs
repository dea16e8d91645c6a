use vstd::prelude::*;

use crate::game::classic_game_status::{LifeStatus, Status};
use crate::game::event::{is_skill, Event};
use crate::game::job::default_chat::{chat_default, spec_chat_default};
use crate::game::job::job::{ChatFn, Job};
use crate::game::job::option::{HandType, JobOption};
use crate::game::job::{JobList, Team};
use crate::game::time::Time;
use crate::game::GameString;
use crate::method::skill;

verus! {

#[derive(Debug, Clone, Copy, PartialEq, Eq, Structural)]
pub struct Police;

impl Police {
    pub fn new() -> (res: Self)
        ensures
            res == Police,
    {
        Self {}
    }

    pub open spec fn spec_option() -> JobOption {
        JobOption {
            job_id: JobList::Police,
            team: Team::CitizenTeam,
            hand_type: HandType::FixedHand,
            vote_right: 1,
            shared_hand: false,
        }
    }

    /// The police points at night, at a living player.
    pub open spec fn spec_is_valid_hand(time: Time, status: Status) -> bool {
        time == Time::Night && status.life_status == LifeStatus::Alive
    }

    /// By night the police learns whether the target is the mafia (and a
    /// caught mafia is noted); otherwise nothing happens.
    pub open spec fn spec_hand_ok(time: Time, job: JobOption, my_idx: usize, target_idx: usize, res: Seq<Event>) -> bool {
        if time != Time::Night {
            res.len() == 0
        } else if job.job_id == JobList::Mafia {
            &&& res.len() == 2
            &&& is_skill(res[0], skill::CAUGHT_MAFIA, seq![GameString::Nickname(target_idx)], my_idx)
            &&& res[1] == Event::Memo(my_idx, target_idx)
        } else {
            &&& res.len() == 1
            &&& is_skill(res[0], skill::NO_MAFIA, seq![GameString::Nickname(target_idx)], my_idx)
        }
    }

    pub open spec fn spec_chat(time: Time, my_status: Status) -> ChatFn {
        match spec_chat_default(time, my_status) {
            Some(f) => f,
            None => ChatFn::Silent,
        }
    }
}

impl Job for Police {
    fn option(&self) -> (res: JobOption)
        ensures
            res == Police::spec_option(),
    {
        JobOption {
            job_id: JobList::Police,
            team: Team::CitizenTeam,
            hand_type: HandType::FixedHand,
            vote_right: 1,
            shared_hand: false,
        }
    }

    fn is_valid_hand(&self, time: Time, job: &JobOption, status: &Status, idx: usize) -> (res: bool)
        ensures
            res == Police::spec_is_valid_hand(time, *status),
    {
        if time != Time::Night {
            return false;
        }
        if status.life_status != LifeStatus::Alive {
            return false;
        } else {
            return true;
        }
    }

    fn hand(&self, time: Time, job: &JobOption, status: &Status, my_idx: usize, target_idx: usize) -> (res: Vec<Event>)
        ensures
            Police::spec_hand_ok(time, *job, my_idx, target_idx, res@),
    {
        if time != Time::Night {
            return Vec::new();
        }
        let mut res: Vec<Event> = Vec::new();
        let mut words: Vec<GameString> = Vec::new();
        words.push(GameString::Nickname(target_idx));
        assert(words@ =~= seq![GameString::Nickname(target_idx)]);
        if job.job_id == JobList::Mafia {
            res.push(Event::Skill(skill::CAUGHT_MAFIA, words, my_idx));
            res.push(Event::Memo(my_idx, target_idx));
        } else {
            res.push(Event::Skill(skill::NO_MAFIA, words, my_idx));
        }
        res
    }

    fn chat(&self, time: Time, my_status: &Status) -> (res: ChatFn)
        ensures
            res == Police::spec_chat(time, *my_status),
    {
        if let Some(chat_fn) = chat_default(time, my_status) {
            return chat_fn;
        }
        ChatFn::Silent
    }
}

} // verus!
