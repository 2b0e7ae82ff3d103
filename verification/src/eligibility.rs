//! The rules that a tweet must meet before it earns points. They are checked in a fixed
//! order and the first one that fails gives the reason.

use vstd::prelude::*;
use crate::error::Error;
use crate::text::{contains, str_contains};
use crate::tweet::Tweet;

verus! {

/// A tweet must be older than this many seconds: four hours. A tweet of exactly this age is
/// still too recent.
pub const MINIMUM_AGE_SECONDS: i64 = 14_400;

/// The campaign tag that the text must contain.
pub const REQUIRED_TAG: &'static str = "$VTX";

/// The beneficiary's handle that the text must contain.
pub const REQUIRED_MENTION: &'static str = "@Vortexcoin";

/// At `now`, a tweet created at `created_at` is not yet older than the minimum age.
pub open spec fn too_recent(created_at: i64, now: i64) -> bool {
    created_at >= now - MINIMUM_AGE_SECONDS
}

/// The verdict on a tweet at the time `now`, both in seconds since the Unix epoch.
pub open spec fn eligibility(tweet: Tweet, now: i64) -> Result<(), Error>
    recommends
        tweet.created_at is Some,
{
    if too_recent(tweet.created_at->0, now) {
        Err(Error::TooRecent)
    } else if !contains(tweet.text@, REQUIRED_TAG@) {
        Err(Error::MissingRequiredTag)
    } else if !contains(tweet.text@, REQUIRED_MENTION@) {
        Err(Error::MissingRequiredMention)
    } else if tweet.withheld is Some {
        Err(Error::Withheld)
    } else {
        Ok(())
    }
}

/// Calls `chrono::Utc::now` and takes its `timestamp`: the system clock's seconds since the
/// Unix epoch. Nothing is claimed of the value. chrono stops the program where the clock
/// stands before the epoch.
#[verifier::external_body]
pub(crate) fn unix_timestamp_now() -> (now: i64) {
    chrono::Utc::now().timestamp()
}

/// Checks the tweet against the rules as of `now`.
pub fn assert_tweet_eligibility_at(tweet: &Tweet, now: i64) -> (r: Result<(), Error>)
    requires
        tweet.created_at is Some,
    ensures
        r == eligibility(*tweet, now),
{
    let created_at = tweet.created_at.unwrap();
    let recent = match now.checked_sub(MINIMUM_AGE_SECONDS) {
        Some(threshold) => created_at >= threshold,
        None => true,
    };
    if recent {
        return Err(Error::TooRecent);
    }
    if !str_contains(tweet.text.as_str(), REQUIRED_TAG) {
        return Err(Error::MissingRequiredTag);
    }
    if !str_contains(tweet.text.as_str(), REQUIRED_MENTION) {
        return Err(Error::MissingRequiredMention);
    }
    if tweet.withheld.is_some() {
        return Err(Error::Withheld);
    }
    Ok(())
}

/// Checks the tweet against the rules as of the system clock. Whatever the clock says, the
/// result is the verdict at some time.
pub fn assert_tweet_eligibility(tweet: &Tweet) -> (r: Result<(), Error>)
    requires
        tweet.created_at is Some,
    ensures
        exists|now: i64| r == #[trigger] eligibility(*tweet, now),
{
    let now = unix_timestamp_now();
    let r = assert_tweet_eligibility_at(tweet, now);
    assert(r == eligibility(*tweet, now));
    r
}

/// A tweet whose age is exactly the minimum is rejected as too recent, whatever else holds
/// of it.
pub proof fn lemma_boundary_is_too_recent(tweet: Tweet, now: i64)
    requires
        tweet.created_at is Some,
        tweet.created_at->0 == now - MINIMUM_AGE_SECONDS,
    ensures
        eligibility(tweet, now) == Err::<(), Error>(Error::TooRecent),
{
}

/// A tweet that is old enough and lacks the tag is rejected for the tag, withheld or not.
pub proof fn lemma_untagged_reports_tag(tweet: Tweet, now: i64)
    requires
        tweet.created_at is Some,
        !too_recent(tweet.created_at->0, now),
        !contains(tweet.text@, REQUIRED_TAG@),
    ensures
        eligibility(tweet, now) == Err::<(), Error>(Error::MissingRequiredTag),
        eligibility(tweet, now) != Err::<(), Error>(Error::Withheld),
{
}

/// A tweet that is old enough, has the tag and lacks the handle is rejected for the handle,
/// withheld or not.
pub proof fn lemma_unmentioned_reports_mention(tweet: Tweet, now: i64)
    requires
        tweet.created_at is Some,
        !too_recent(tweet.created_at->0, now),
        contains(tweet.text@, REQUIRED_TAG@),
        !contains(tweet.text@, REQUIRED_MENTION@),
    ensures
        eligibility(tweet, now) == Err::<(), Error>(Error::MissingRequiredMention),
        eligibility(tweet, now) != Err::<(), Error>(Error::Withheld),
{
}

} // verus!
