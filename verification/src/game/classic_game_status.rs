use vstd::prelude::*;

use super::time::Time;

verus! {

/// Whether a player is in the game.
#[derive(Debug, Clone, Copy, PartialEq, Eq, Structural)]
pub enum LifeStatus {
    Alive,
    Dead,
    Seongbul,
}

/// What the game keeps of one player between events.
#[derive(Debug, Clone, Copy, PartialEq, Eq, Structural)]
pub struct Status {
    /// Whether the player has changed the day's length today.
    pub modified_time: bool,
    pub life_status: LifeStatus,
    /// For an assistant, whether it met the mafia; for a nurse, the doctor.
    pub connected: bool,
    pub lynched: bool,
    /// The seat the player has pointed at this phase (`usize::MAX` for none).
    pub hand: usize,
}

impl Status {
    /// A living player who has done nothing yet.
    pub open spec fn initial() -> Status {
        Status {
            modified_time: false,
            life_status: LifeStatus::Alive,
            connected: false,
            lynched: false,
            hand: usize::MAX,
        }
    }

    /// The status after the phase changes to `time`: the hand is cleared,
    /// `lynched` at nightfall and `modified_time` at daybreak.
    pub open spec fn after_reset(self, time: Time) -> Status {
        Status {
            hand: usize::MAX,
            lynched: if time == Time::Night { false } else { self.lynched },
            modified_time: if time == Time::Day { false } else { self.modified_time },
            ..self
        }
    }

    pub fn new() -> (res: Self)
        ensures
            res == Status::initial(),
    {
        Self {
            modified_time: false,
            life_status: LifeStatus::Alive,
            connected: false,
            lynched: false,
            hand: usize::MAX,
        }
    }

    pub fn reset(&mut self, time: Time)
        ensures
            *final(self) == old(self).after_reset(time),
    {
        self.hand = usize::MAX;
        match time {
            Time::Null => (),
            Time::Night => {
                self.lynched = false;
            },
            Time::Day => {
                self.modified_time = false;
            },
            Time::Vote => {},
            Time::FinalObjection => (),
            Time::YesnoVote => (),
            Time::End => (),
        }
    }
}

impl Default for Status {
    fn default() -> (res: Self)
        ensures
            res == Status::initial(),
    {
        Self::new()
    }
}

} // verus!
