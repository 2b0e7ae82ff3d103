//! The fetched tweet, as far as the rules read it, and the numeric identifier that names it.

use vstd::prelude::*;
use std::str::FromStr;
use crate::error::Error;

verus! {

/// One of the ten ASCII digits.
pub open spec fn is_decimal_digit(c: char) -> bool {
    '0' <= c && c <= '9'
}

/// The number that a run of decimal digits writes, most significant digit first.
pub open spec fn decimal_value(digits: Seq<char>) -> nat
    decreases digits.len(),
{
    if digits.len() == 0 {
        0
    } else {
        decimal_value(digits.drop_last()) * 10 + (digits.last() as u32 - '0' as u32) as nat
    }
}

/// The identifier that `text` writes: an optional `+`, then one or more decimal digits whose
/// value fits into 64 bits. Anything else writes none.
pub open spec fn parse_u64(text: Seq<char>) -> Option<u64> {
    let digits = if text.len() > 0 && text[0] == '+' {
        text.skip(1)
    } else {
        text
    };
    if digits.len() > 0 && (forall|i: int| 0 <= i < digits.len() ==> is_decimal_digit(digits[i]))
        && decimal_value(digits) <= u64::MAX {
        Some(decimal_value(digits) as u64)
    } else {
        None
    }
}

/// Calls `twitter_v2::id::NumericId::from_str`, which hands the text to Rust's `u64` parser
/// and wraps the number. The contract restates what Rust documents of that parser: an
/// optional `+` sign followed by only decimal digits, an error on an empty text, on any
/// other character and on a value beyond 64 bits.
#[verifier::external_body]
pub(crate) fn parse_numeric_id(text: &str) -> (r: Option<u64>)
    ensures
        r == parse_u64(text@),
{
    match twitter_v2::id::NumericId::from_str(text) {
        Ok(id) => Some(id.as_u64()),
        Err(_) => None,
    }
}

/// Where and why a tweet is withheld. The rules only ask whether this is present.
#[derive(Clone, Debug, PartialEq, Eq)]
pub struct Withheld {
    pub copyright: Option<bool>,
    pub country_codes: Vec<String>,
}

/// The public engagement counters of a tweet. The platform may leave the quote count out.
#[derive(Clone, Copy, Debug, PartialEq, Eq, Structural)]
pub struct PublicMetrics {
    pub retweet_count: u64,
    pub reply_count: u64,
    pub like_count: u64,
    pub quote_count: Option<u64>,
}

/// A tweet as it was fetched. `created_at` is in seconds since the Unix epoch.
#[derive(Clone, Debug, PartialEq, Eq)]
pub struct Tweet {
    pub id: u64,
    pub text: String,
    pub author_id: Option<u64>,
    pub created_at: Option<i64>,
    pub public_metrics: Option<PublicMetrics>,
    pub withheld: Option<Withheld>,
}

/// What a lookup of a tweet amounts to: the tweet where one came back, and otherwise the one
/// error that stands for every way in which a lookup can fail.
pub fn fetched_tweet(found: Option<Tweet>) -> (r: Result<Tweet, Error>)
    ensures
        r == match found {
            Some(tweet) => Ok::<Tweet, Error>(tweet),
            None => Err(Error::AttestationUnavailable),
        },
{
    match found {
        Some(tweet) => Ok(tweet),
        None => Err(Error::AttestationUnavailable),
    }
}

} // verus!
