use vstd::prelude::*;

use mt19937::MT19937;
use rand::SeedableRng;
use shuffle::irs::Irs;
use shuffle::shuffler::Shuffler;

use super::job::JobList;

verus! {

#[verifier::external_type_specification]
#[verifier::external_body]
pub struct ExMT19937(MT19937);

#[verifier::external_type_specification]
#[verifier::external_body]
#[verifier::reject_recursive_types(T)]
pub struct ExIrs<T>(Irs<T>);

/// `MT19937::from_rng(rand::rngs::OsRng)`: a Mersenne twister seeded with
/// bytes from the operating system. `from_rng` asks `OsRng::try_fill_bytes`
/// for the seed, which reports the system's failure as an error instead of
/// panicking; that error comes back here as `None`. The outcome is random, so
/// nothing is stated of it.
#[verifier::external_body]
pub(crate) fn seeded_rng() -> (res: Option<MT19937>) {
    match MT19937::from_rng(rand::rngs::OsRng) {
        Ok(rng) => Some(rng),
        Err(_) => None,
    }
}

/// `Irs::default()`: an inverse riffle shuffler with no saved context.
#[verifier::external_body]
pub(crate) fn new_shuffler() -> (res: Irs<JobList>) {
    Irs::default()
}

/// `Irs::shuffle`: each round of the inverse riffle shuffle moves every item
/// of `data` to its own new slot (a stable split by one random bit), so
/// whether it returns `Ok` or gives up after 128 rounds with `Err`, `data`
/// holds the same items as before, in an order that is random. The result is
/// `true` for `Ok`. Which order comes out is not stated.
#[verifier::external_body]
pub(crate) fn shuffle_jobs(irs: &mut Irs<JobList>, data: &mut Vec<JobList>, rng: &mut MT19937) -> (ok: bool)
    ensures
        final(data)@.to_multiset() == old(data)@.to_multiset(),
{
    match irs.shuffle(data, rng) {
        Ok(()) => true,
        Err(_) => false,
    }
}

} // verus!
