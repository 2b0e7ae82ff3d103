//! From a decoded request and the outcome of the lookup to the instruction: the tweet must
//! have been found, must be eligible and must have points that fit. Each step either passes
//! its result on or ends the run with its error.

use vstd::prelude::*;
use crate::eligibility::{assert_tweet_eligibility_at, eligibility, unix_timestamp_now};
use crate::error::Error;
use crate::instruction::{
    settle_instruction,
    settle_instruction_for,
    Instruction,
    InstructionView,
    RunnerAccounts,
    MAX_SERIALIZED_LEN,
};
use crate::params::{ContainerParams, ContainerParamsView};
use crate::points::{calculate_tweet_points, points, ScoreWeights};
use crate::tweet::{fetched_tweet, Tweet};

verus! {

/// What a run ends in at the time `now`: the lookup's failure, the first rule that the tweet
/// breaks, the failure to compute its points, or the instruction that settles them.
pub open spec fn settlement(
    params: ContainerParamsView,
    found: Option<Tweet>,
    now: i64,
    runner: RunnerAccounts,
) -> Result<InstructionView, Error> {
    match found {
        None => Err(Error::AttestationUnavailable),
        Some(tweet) => match eligibility(tweet, now) {
            Err(e) => Err(e),
            Ok(_) => match points(ScoreWeights::standard_weights(), tweet.public_metrics) {
                Err(e) => Err(e),
                Ok(earned) => Ok(settle_instruction_for(params, earned, runner)),
            },
        },
    }
}

/// `outcome` is `expected`, the instruction taken by its view.
pub open spec fn is_outcome(
    outcome: Result<Instruction, Error>,
    expected: Result<InstructionView, Error>,
) -> bool {
    match outcome {
        Ok(instruction) => expected == Ok::<InstructionView, Error>(instruction@),
        Err(e) => expected == Err::<InstructionView, Error>(e),
    }
}

/// Runs the steps that follow the lookup, as of `now`.
pub fn settle_tweet_at(
    params: &ContainerParams,
    found: Option<Tweet>,
    now: i64,
    runner: &RunnerAccounts,
) -> (r: Result<Instruction, Error>)
    requires
        found matches Some(tweet) ==> tweet.created_at is Some,
    ensures
        is_outcome(r, settlement(params@, found, now, *runner)),
        r matches Ok(instruction) ==> instruction@.serialized_len() < MAX_SERIALIZED_LEN,
{
    let tweet = match fetched_tweet(found) {
        Ok(tweet) => tweet,
        Err(e) => return Err(e),
    };
    match assert_tweet_eligibility_at(&tweet, now) {
        Ok(_) => {},
        Err(e) => return Err(e),
    }
    let earned = match calculate_tweet_points(&tweet) {
        Ok(earned) => earned,
        Err(e) => return Err(e),
    };
    Ok(settle_instruction(params, earned, runner))
}

/// Runs the steps that follow the lookup, as of the system clock. Whatever the clock says,
/// the result is what the run ends in at some time.
pub fn settle_tweet(params: &ContainerParams, found: Option<Tweet>, runner: &RunnerAccounts) -> (r:
    Result<Instruction, Error>)
    requires
        found matches Some(tweet) ==> tweet.created_at is Some,
    ensures
        exists|now: i64| is_outcome(r, #[trigger] settlement(params@, found, now, *runner)),
        r matches Ok(instruction) ==> instruction@.serialized_len() < MAX_SERIALIZED_LEN,
{
    let now = unix_timestamp_now();
    let r = settle_tweet_at(params, found, now, runner);
    assert(is_outcome(r, settlement(params@, found, now, *runner)));
    r
}

} // verus!
