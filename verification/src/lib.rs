//! The off-chain step of a tweet-reward oracle: decode the request, judge the tweet that was
//! fetched for it, compute its points and build the instruction that settles them on chain.
//!
//! Fetching the tweet and publishing the instruction are the caller's part. Everything in
//! between is here, and verified.

pub mod address;
pub mod eligibility;
pub mod error;
pub mod instruction;
pub mod params;
pub mod pipeline;
pub mod points;
pub mod text;
pub mod tweet;

pub use crate::address::Pubkey;
pub use crate::eligibility::{assert_tweet_eligibility, assert_tweet_eligibility_at};
pub use crate::error::{Error, ParamKey};
pub use crate::instruction::{AccountMeta, Instruction, RunnerAccounts};
pub use crate::params::ContainerParams;
pub use crate::pipeline::{settle_tweet, settle_tweet_at};
pub use crate::points::calculate_tweet_points;
pub use crate::tweet::{fetched_tweet, PublicMetrics, Tweet, Withheld};
