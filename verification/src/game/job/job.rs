use vstd::prelude::*;

use crate::game::classic_game_status::{LifeStatus, Status};
use crate::game::event::Event;
use crate::game::time::Time;
use crate::room::room::ChatType;

use super::citizen::citizen::Citizen;
use super::citizen::police::Police;
use super::mafia::mafia::Mafia;
use super::option::JobOption;
use super::{JobList, Team};

verus! {

/// Who hears a chat message, and as what: a rule over each listener's job
/// and status.
#[derive(Debug, Clone, Copy, PartialEq, Eq, Structural)]
pub enum ChatFn {
    /// A dead player's message: heard as `Dead` by those who are not alive
    /// and by the shaman.
    Dead,
    /// Heard by nobody.
    Silent,
    /// Heard as `Normal` by everyone.
    Everyone,
    /// The mafia's night chat: heard as `Mafia` by those who are not alive,
    /// by the mafia, and by mafia-team players who met the mafia.
    Mafia,
}

impl ChatFn {
    pub open spec fn spec_apply(self, listener: JobOption, status: Status) -> ChatType {
        match self {
            ChatFn::Dead => if status.life_status != LifeStatus::Alive || listener.job_id == JobList::Shaman {
                ChatType::Dead
            } else {
                ChatType::Null
            },
            ChatFn::Silent => ChatType::Null,
            ChatFn::Everyone => ChatType::Normal,
            ChatFn::Mafia => if status.life_status != LifeStatus::Alive || listener.job_id == JobList::Mafia
                || (listener.team == Team::MafiaTeam && status.connected) {
                ChatType::Mafia
            } else {
                ChatType::Null
            },
        }
    }

    /// How a listener with job `listener` and status `status` hears the message.
    pub fn apply(&self, listener: &JobOption, status: &Status) -> (res: ChatType)
        ensures
            res == self.spec_apply(*listener, *status),
    {
        match self {
            ChatFn::Dead => if status.life_status != LifeStatus::Alive || listener.job_id == JobList::Shaman {
                ChatType::Dead
            } else {
                ChatType::Null
            },
            ChatFn::Silent => ChatType::Null,
            ChatFn::Everyone => ChatType::Normal,
            ChatFn::Mafia => if status.life_status != LifeStatus::Alive || listener.job_id == JobList::Mafia
                || (listener.team == Team::MafiaTeam && status.connected) {
                ChatType::Mafia
            } else {
                ChatType::Null
            },
        }
    }
}

/// Whatever their job, a dead player speaks only to the dead (and the
/// shaman), a player sent to rest (seongbul) to nobody, and by day a
/// living player to everyone.
pub proof fn lemma_shared_chat_rules(j: PlayerJob, time: Time, st: Status)
    ensures
        st.life_status == LifeStatus::Dead ==> j.spec_chat(time, st) == ChatFn::Dead,
        st.life_status == LifeStatus::Seongbul ==> j.spec_chat(time, st) == ChatFn::Silent,
        st.life_status == LifeStatus::Alive && time == Time::Day ==> j.spec_chat(time, st) == ChatFn::Everyone,
{
}

/// What the dead say is never heard by a living player who is not the shaman.
pub proof fn lemma_dead_unheard_by_living(listener: JobOption, st: Status)
    requires
        st.life_status == LifeStatus::Alive,
        listener.job_id != JobList::Shaman,
    ensures
        ChatFn::Dead.spec_apply(listener, st) == ChatType::Null,
{
}

/// The mafia's night chat is never heard by a living player of another team.
pub proof fn lemma_mafia_chat_private(listener: JobOption, st: Status)
    requires
        st.life_status == LifeStatus::Alive,
        listener.team != Team::MafiaTeam,
        listener.job_id != JobList::Mafia,
    ensures
        ChatFn::Mafia.spec_apply(listener, st) == ChatType::Null,
{
}

/// Nobody points at anyone except by night, and then only at a living
/// player: whatever the job, a valid hand means night and a living target.
pub proof fn lemma_hands_only_at_night(j: PlayerJob, t: Time, target: Status)
    ensures
        j.spec_is_valid_hand(t, target) ==> t == Time::Night && target.life_status == LifeStatus::Alive,
{
}

/// By day a living player is heard by every listener, whatever the
/// listener's job and whether the listener is alive, as a normal message;
/// a player sent to rest is heard by nobody.
pub proof fn lemma_day_chat_heard_by_all(j: PlayerJob, speaker: Status, listener: JobOption, heard: Status)
    ensures
        speaker.life_status == LifeStatus::Alive ==> j.spec_chat(Time::Day, speaker).spec_apply(listener, heard) == ChatType::Normal,
        ChatFn::Everyone.spec_apply(listener, heard) == ChatType::Normal,
        speaker.life_status == LifeStatus::Seongbul ==> j.spec_chat(Time::Day, speaker).spec_apply(listener, heard) == ChatType::Null,
{
}

/// A job in the game. Input from a player goes to the job, which answers
/// with events for the game loop; a chat gives a rule for who hears it.
pub trait Job {
    /// The job's fixed description.
    fn option(&self) -> JobOption;

    /// Whether pointing at the player at seat `idx` (with job `job` and
    /// status `status`) is allowed now.
    fn is_valid_hand(&self, time: Time, job: &JobOption, status: &Status, idx: usize) -> bool;

    /// The events that pointing from seat `my_idx` at seat `target_idx` causes.
    fn hand(&self, time: Time, job: &JobOption, status: &Status, my_idx: usize, target_idx: usize) -> Vec<Event>;

    /// Who hears what this player says now.
    fn chat(&self, time: Time, my_status: &Status) -> ChatFn;
}

/// The job a seat plays.
#[derive(Debug, Clone, Copy, PartialEq, Eq, Structural)]
pub enum PlayerJob {
    Citizen(Citizen),
    Police(Police),
    Mafia(Mafia),
}

impl PlayerJob {
    pub open spec fn spec_option(self) -> JobOption {
        match self {
            PlayerJob::Citizen(_) => Citizen::spec_option(),
            PlayerJob::Police(_) => Police::spec_option(),
            PlayerJob::Mafia(_) => Mafia::spec_option(),
        }
    }

    pub open spec fn spec_is_valid_hand(self, time: Time, status: Status) -> bool {
        match self {
            PlayerJob::Citizen(_) => false,
            PlayerJob::Police(_) => Police::spec_is_valid_hand(time, status),
            PlayerJob::Mafia(_) => Mafia::spec_is_valid_hand(time, status),
        }
    }

    pub open spec fn spec_chat(self, time: Time, my_status: Status) -> ChatFn {
        match self {
            PlayerJob::Citizen(_) => Citizen::spec_chat(time, my_status),
            PlayerJob::Police(_) => Police::spec_chat(time, my_status),
            PlayerJob::Mafia(_) => Mafia::spec_chat(time, my_status),
        }
    }

    /// The events of `hand`: only the police has any (see `Police::hand`).
    pub open spec fn spec_hand_ok(self, time: Time, job: JobOption, my_idx: usize, target_idx: usize, res: Seq<Event>) -> bool {
        match self {
            PlayerJob::Police(_) => Police::spec_hand_ok(time, job, my_idx, target_idx, res),
            _ => res.len() == 0,
        }
    }
}

impl Job for PlayerJob {
    fn option(&self) -> (res: JobOption)
        ensures
            res == self.spec_option(),
    {
        match self {
            PlayerJob::Citizen(j) => j.option(),
            PlayerJob::Police(j) => j.option(),
            PlayerJob::Mafia(j) => j.option(),
        }
    }

    fn is_valid_hand(&self, time: Time, job: &JobOption, status: &Status, idx: usize) -> (res: bool)
        ensures
            res == self.spec_is_valid_hand(time, *status),
    {
        match self {
            PlayerJob::Citizen(j) => j.is_valid_hand(time, job, status, idx),
            PlayerJob::Police(j) => j.is_valid_hand(time, job, status, idx),
            PlayerJob::Mafia(j) => j.is_valid_hand(time, job, status, idx),
        }
    }

    fn hand(&self, time: Time, job: &JobOption, status: &Status, my_idx: usize, target_idx: usize) -> (res: Vec<Event>)
        ensures
            self.spec_hand_ok(time, *job, my_idx, target_idx, res@),
    {
        match self {
            PlayerJob::Citizen(j) => j.hand(time, job, status, my_idx, target_idx),
            PlayerJob::Police(j) => j.hand(time, job, status, my_idx, target_idx),
            PlayerJob::Mafia(j) => j.hand(time, job, status, my_idx, target_idx),
        }
    }

    fn chat(&self, time: Time, my_status: &Status) -> (res: ChatFn)
        ensures
            res == self.spec_chat(time, *my_status),
    {
        match self {
            PlayerJob::Citizen(j) => j.chat(time, my_status),
            PlayerJob::Police(j) => j.chat(time, my_status),
            PlayerJob::Mafia(j) => j.chat(time, my_status),
        }
    }
}

} // verus!
