//! The points that a tweet earns: its four engagement counters, each times its weight, added
//! up in 64 bits.

use vstd::prelude::*;
use crate::error::Error;
use crate::tweet::{PublicMetrics, Tweet};

verus! {

/// How much a like counts for.
pub const LIKE_MULTIPLIER: u64 = 1;

/// How much a reply counts for.
pub const REPLY_MULTIPLIER: u64 = 1;

/// How much a quote counts for.
pub const QUOTE_MULTIPLIER: u64 = 1;

/// How much a retweet counts for.
pub const RETWEET_MULTIPLIER: u64 = 1;

/// How much one like, reply, quote and retweet counts for.
#[derive(Clone, Copy, Debug, PartialEq, Eq, Structural)]
pub struct ScoreWeights {
    pub like: u64,
    pub reply: u64,
    pub quote: u64,
    pub retweet: u64,
}

impl ScoreWeights {
    /// The weights in force.
    pub open spec fn standard_weights() -> ScoreWeights {
        ScoreWeights {
            like: LIKE_MULTIPLIER,
            reply: REPLY_MULTIPLIER,
            quote: QUOTE_MULTIPLIER,
            retweet: RETWEET_MULTIPLIER,
        }
    }

    /// The weights in force.
    pub fn standard() -> (r: ScoreWeights)
        ensures
            r == ScoreWeights::standard_weights(),
    {
        ScoreWeights {
            like: LIKE_MULTIPLIER,
            reply: REPLY_MULTIPLIER,
            quote: QUOTE_MULTIPLIER,
            retweet: RETWEET_MULTIPLIER,
        }
    }
}

/// The weighted sum of the four counters, as a number without bound.
pub open spec fn weighted_sum(
    weights: ScoreWeights,
    likes: nat,
    replies: nat,
    quotes: nat,
    retweets: nat,
) -> int {
    likes * weights.like + replies * weights.reply + quotes * weights.quote + retweets
        * weights.retweet
}

/// The points for a tweet's metrics: none without a quote count, none where the weighted sum
/// leaves 64 bits, else that sum.
pub open spec fn points(weights: ScoreWeights, metrics: Option<PublicMetrics>) -> Result<
    u64,
    Error,
> {
    match metrics {
        Some(PublicMetrics { retweet_count, reply_count, like_count, quote_count: Some(quotes) }) => {
            let total = weighted_sum(
                weights,
                like_count as nat,
                reply_count as nat,
                quotes as nat,
                retweet_count as nat,
            );
            if total > u64::MAX {
                Err(Error::ArithmeticOverflow)
            } else {
                Ok(total as u64)
            }
        },
        _ => Err(Error::MissingMetric),
    }
}

/// Computes the points under the given weights. No step wraps: an overflow anywhere is
/// reported.
pub fn score(weights: &ScoreWeights, metrics: &PublicMetrics) -> (r: Result<u64, Error>)
    ensures
        r == points(*weights, Some(*metrics)),
{
    let quote_count = match metrics.quote_count {
        Some(count) => count,
        None => return Err(Error::MissingMetric),
    };
    let likes = match metrics.like_count.checked_mul(weights.like) {
        Some(term) => term,
        None => return Err(Error::ArithmeticOverflow),
    };
    let replies = match metrics.reply_count.checked_mul(weights.reply) {
        Some(term) => term,
        None => return Err(Error::ArithmeticOverflow),
    };
    let quotes = match quote_count.checked_mul(weights.quote) {
        Some(term) => term,
        None => return Err(Error::ArithmeticOverflow),
    };
    let retweets = match metrics.retweet_count.checked_mul(weights.retweet) {
        Some(term) => term,
        None => return Err(Error::ArithmeticOverflow),
    };
    let first = match likes.checked_add(replies) {
        Some(sum) => sum,
        None => return Err(Error::ArithmeticOverflow),
    };
    let second = match first.checked_add(quotes) {
        Some(sum) => sum,
        None => return Err(Error::ArithmeticOverflow),
    };
    match second.checked_add(retweets) {
        Some(sum) => Ok(sum),
        None => Err(Error::ArithmeticOverflow),
    }
}

/// Computes the points of a tweet under the weights in force.
pub fn calculate_tweet_points(tweet: &Tweet) -> (r: Result<u64, Error>)
    ensures
        r == points(ScoreWeights::standard_weights(), tweet.public_metrics),
{
    match &tweet.public_metrics {
        Some(metrics) => score(&ScoreWeights::standard(), metrics),
        None => Err(Error::MissingMetric),
    }
}

/// The weighted sum does not depend on the order of its four terms: each pair of neighbouring
/// counters may change places together with their weights, and the terms may be grouped
/// either way.
pub proof fn lemma_weighted_sum_order_free(
    weights: ScoreWeights,
    likes: nat,
    replies: nat,
    quotes: nat,
    retweets: nat,
)
    ensures
        weighted_sum(weights, likes, replies, quotes, retweets) == weighted_sum(
            ScoreWeights { like: weights.reply, reply: weights.like, ..weights },
            replies,
            likes,
            quotes,
            retweets,
        ),
        weighted_sum(weights, likes, replies, quotes, retweets) == weighted_sum(
            ScoreWeights { reply: weights.quote, quote: weights.reply, ..weights },
            likes,
            quotes,
            replies,
            retweets,
        ),
        weighted_sum(weights, likes, replies, quotes, retweets) == weighted_sum(
            ScoreWeights { quote: weights.retweet, retweet: weights.quote, ..weights },
            likes,
            replies,
            retweets,
            quotes,
        ),
        weighted_sum(weights, likes, replies, quotes, retweets) == likes * weights.like + (replies
            * weights.reply + (quotes * weights.quote + retweets * weights.retweet)),
{
}

/// Under the weights in force the points are the plain sum of the four counters.
pub proof fn lemma_standard_weights_sum(likes: nat, replies: nat, quotes: nat, retweets: nat)
    ensures
        weighted_sum(ScoreWeights::standard_weights(), likes, replies, quotes, retweets) == likes
            + replies + quotes + retweets,
{
    let weights = ScoreWeights::standard_weights();
    assert(weights.like == 1 && weights.reply == 1 && weights.quote == 1 && weights.retweet == 1);
    assert(likes * weights.like == likes) by (nonlinear_arith)
        requires
            weights.like == 1,
    ;
    assert(replies * weights.reply == replies) by (nonlinear_arith)
        requires
            weights.reply == 1,
    ;
    assert(quotes * weights.quote == quotes) by (nonlinear_arith)
        requires
            weights.quote == 1,
    ;
    assert(retweets * weights.retweet == retweets) by (nonlinear_arith)
        requires
            weights.retweet == 1,
    ;
}

} // verus!
