//! The keys of the request parameters and the reasons for which a run ends without an
//! instruction.

use vstd::prelude::*;
use vstd::string::StringExecFns;

verus! {

/// One of the six keys that the parameter text recognises, in the order in which the decoded
/// fields are checked.
#[derive(Clone, Copy, Debug, PartialEq, Eq, Structural)]
pub enum ParamKey {
    Pid,
    RealmPda,
    User,
    UserAccountPda,
    TwitterUsername,
    TweetId,
}

impl ParamKey {
    /// The key as it is written in the parameter text.
    pub open spec fn name(self) -> Seq<char> {
        match self {
            ParamKey::Pid => "PID"@,
            ParamKey::RealmPda => "REALM_PDA"@,
            ParamKey::User => "USER"@,
            ParamKey::UserAccountPda => "USER_ACCOUNT_PDA"@,
            ParamKey::TwitterUsername => "TWITTER_USERNAME"@,
            ParamKey::TweetId => "TWEET_ID"@,
        }
    }

    /// The key that `name` spells, if it spells one. Names are compared exactly.
    pub open spec fn named(name: Seq<char>) -> Option<ParamKey> {
        if name == ParamKey::Pid.name() {
            Some(ParamKey::Pid)
        } else if name == ParamKey::RealmPda.name() {
            Some(ParamKey::RealmPda)
        } else if name == ParamKey::User.name() {
            Some(ParamKey::User)
        } else if name == ParamKey::UserAccountPda.name() {
            Some(ParamKey::UserAccountPda)
        } else if name == ParamKey::TwitterUsername.name() {
            Some(ParamKey::TwitterUsername)
        } else if name == ParamKey::TweetId.name() {
            Some(ParamKey::TweetId)
        } else {
            None
        }
    }

    /// The key as it is written in the parameter text.
    pub fn as_str(self) -> (r: &'static str)
        ensures
            r@ == self.name(),
    {
        match self {
            ParamKey::Pid => "PID",
            ParamKey::RealmPda => "REALM_PDA",
            ParamKey::User => "USER",
            ParamKey::UserAccountPda => "USER_ACCOUNT_PDA",
            ParamKey::TwitterUsername => "TWITTER_USERNAME",
            ParamKey::TweetId => "TWEET_ID",
        }
    }

    /// The key that `name` spells, if it spells one.
    pub fn from_name(name: &str) -> (r: Option<ParamKey>)
        ensures
            r == ParamKey::named(name@),
    {
        let name = name.to_owned();
        if name == ParamKey::Pid.as_str().to_owned() {
            Some(ParamKey::Pid)
        } else if name == ParamKey::RealmPda.as_str().to_owned() {
            Some(ParamKey::RealmPda)
        } else if name == ParamKey::User.as_str().to_owned() {
            Some(ParamKey::User)
        } else if name == ParamKey::UserAccountPda.as_str().to_owned() {
            Some(ParamKey::UserAccountPda)
        } else if name == ParamKey::TwitterUsername.as_str().to_owned() {
            Some(ParamKey::TwitterUsername)
        } else if name == ParamKey::TweetId.as_str().to_owned() {
            Some(ParamKey::TweetId)
        } else {
            None
        }
    }
}

/// Why a run produced no instruction. Every stage fails fast with exactly one of these.
#[derive(Clone, Copy, Debug, PartialEq, Eq, Structural)]
pub enum Error {
    /// The parameter bytes are not UTF-8 text, or a recognised key carries a value that its
    /// type cannot hold.
    MalformedInput,
    /// The named field was never set, or was set to the default of its type.
    MissingField(ParamKey),
    /// The tweet could not be fetched.
    AttestationUnavailable,
    /// The tweet is not yet older than the minimum age.
    TooRecent,
    /// The tweet's text lacks the campaign tag.
    MissingRequiredTag,
    /// The tweet's text lacks the beneficiary's handle.
    MissingRequiredMention,
    /// The tweet is withheld somewhere.
    Withheld,
    /// The tweet's metrics carry no quote count.
    MissingMetric,
    /// The points do not fit into 64 bits.
    ArithmeticOverflow,
}

impl Error {
    /// The text that is reported for this error.
    pub open spec fn message_text(self) -> Seq<char> {
        match self {
            Error::MalformedInput => "container params are malformed"@,
            Error::MissingField(key) => key.name() + " cannot be undefined"@,
            Error::AttestationUnavailable => "tweet not found"@,
            Error::TooRecent => "tweet must be at least 4h old"@,
            Error::MissingRequiredTag => "tweet must contain $VTX"@,
            Error::MissingRequiredMention => "tweet must contain @Vortexcoin"@,
            Error::Withheld => "tweet is withheld"@,
            Error::MissingMetric => "tweet has no quote count"@,
            Error::ArithmeticOverflow => "tweet points overflow"@,
        }
    }

    /// The text that is reported for this error.
    pub fn message(&self) -> (r: String)
        ensures
            r@ == self.message_text(),
    {
        match self {
            Error::MalformedInput => "container params are malformed".to_owned(),
            Error::MissingField(key) => key.as_str().to_owned().concat(" cannot be undefined"),
            Error::AttestationUnavailable => "tweet not found".to_owned(),
            Error::TooRecent => "tweet must be at least 4h old".to_owned(),
            Error::MissingRequiredTag => "tweet must contain $VTX".to_owned(),
            Error::MissingRequiredMention => "tweet must contain @Vortexcoin".to_owned(),
            Error::Withheld => "tweet is withheld".to_owned(),
            Error::MissingMetric => "tweet has no quote count".to_owned(),
            Error::ArithmeticOverflow => "tweet points overflow".to_owned(),
        }
    }
}

} // verus!
