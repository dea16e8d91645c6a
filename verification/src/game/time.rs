use vstd::prelude::*;

verus! {

/// The phases of a day in the game.
#[derive(Debug, Clone, Copy, PartialEq, Eq, Structural)]
pub enum Time {
    Null,
    Night,
    Day,
    Vote,
    FinalObjection,
    YesnoVote,
    End,
}

impl Time {
    /// The number that stands for the phase on the wire (its position in the list).
    pub open spec fn spec_code(self) -> i32 {
        match self {
            Time::Null => 0,
            Time::Night => 1,
            Time::Day => 2,
            Time::Vote => 3,
            Time::FinalObjection => 4,
            Time::YesnoVote => 5,
            Time::End => 6,
        }
    }

    /// How many seconds the phase lasts (`-1` for the end of the game).
    pub open spec fn spec_length(self) -> i32 {
        match self {
            Time::Null => 0,
            Time::Night => 25,
            Time::Day => 60,
            Time::Vote => 15,
            Time::FinalObjection => 15,
            Time::YesnoVote => 10,
            Time::End => -1i32,
        }
    }

    /// The phase that follows this one when its time runs out.
    pub open spec fn spec_next(self) -> Time {
        match self {
            Time::Night => Time::Day,
            Time::Day => Time::Vote,
            Time::Vote => Time::FinalObjection,
            Time::FinalObjection => Time::YesnoVote,
            Time::YesnoVote => Time::Night,
            _ => Time::Null,
        }
    }

    #[verifier::when_used_as_spec(spec_code)]
    pub fn code(self) -> (res: i32)
        ensures
            res == self.spec_code(),
    {
        match self {
            Time::Null => 0,
            Time::Night => 1,
            Time::Day => 2,
            Time::Vote => 3,
            Time::FinalObjection => 4,
            Time::YesnoVote => 5,
            Time::End => 6,
        }
    }

    #[verifier::when_used_as_spec(spec_length)]
    pub fn length(self) -> (res: i32)
        ensures
            res == self.spec_length(),
    {
        match self {
            Time::Null => 0,
            Time::Night => 25,
            Time::Day => 60,
            Time::Vote => 15,
            Time::FinalObjection => 15,
            Time::YesnoVote => 10,
            Time::End => -1,
        }
    }

    #[verifier::when_used_as_spec(spec_next)]
    pub fn next(self) -> (res: Time)
        ensures
            res == self.spec_next(),
    {
        match self {
            Time::Night => Time::Day,
            Time::Day => Time::Vote,
            Time::Vote => Time::FinalObjection,
            Time::FinalObjection => Time::YesnoVote,
            Time::YesnoVote => Time::Night,
            _ => Time::Null,
        }
    }
}

/// The phases of a game day follow one another in a cycle: night, day,
/// vote, final objection, yes-or-no vote, and night again.
pub proof fn lemma_day_cycle(t: Time)
    requires
        t != Time::Null && t != Time::End,
    ensures
        t.spec_next() != t,
        t.spec_next().spec_next().spec_next().spec_next().spec_next() == t,
        t.spec_next() != Time::Null && t.spec_next() != Time::End,
{
}

} // verus!
