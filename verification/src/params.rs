//! The request parameters: a comma-separated list of `KEY=VALUE` entries, decoded into a
//! record in which every field is present and differs from the default of its type.

use vstd::prelude::*;
use vstd::string::StrSliceExecFns;
use vstd::utf8::{decode_utf8, valid_utf8};
use crate::address::Pubkey;
use crate::error::{Error, ParamKey};
use crate::text::{find_char, lemma_split_joined, split, str_from_utf8, to_chars};
use crate::tweet::{parse_numeric_id, parse_u64};

verus! {

/// The decoded request.
#[derive(Clone, Debug, PartialEq, Eq)]
pub struct ContainerParams {
    pub program_id: Pubkey,
    pub realm_pda: Pubkey,
    pub user: Pubkey,
    pub user_account_pda: Pubkey,
    pub twitter_username: String,
    pub tweet_id: u64,
}

/// The decoded request as a value of the model: the name is a sequence of characters.
pub struct ContainerParamsView {
    pub program_id: Pubkey,
    pub realm_pda: Pubkey,
    pub user: Pubkey,
    pub user_account_pda: Pubkey,
    pub twitter_username: Seq<char>,
    pub tweet_id: u64,
}

impl View for ContainerParams {
    type V = ContainerParamsView;

    open spec fn view(&self) -> ContainerParamsView {
        ContainerParamsView {
            program_id: self.program_id,
            realm_pda: self.realm_pda,
            user: self.user,
            user_account_pda: self.user_account_pda,
            twitter_username: self.twitter_username@,
            tweet_id: self.tweet_id,
        }
    }
}

impl ContainerParamsView {
    /// No field holds the default of its type.
    pub open spec fn complete(self) -> bool {
        &&& !self.program_id.is_zero()
        &&& !self.realm_pda.is_zero()
        &&& !self.user.is_zero()
        &&& !self.user_account_pda.is_zero()
        &&& self.twitter_username.len() > 0
        &&& self.tweet_id != 0
    }
}

/// The key of an entry: what stands before its first `=`, where that spells one of the six
/// keys. An entry without `=`, or with another name, has none and is passed over.
pub open spec fn entry_key(entry: Seq<char>) -> Option<ParamKey> {
    match entry.index_of_first('=') {
        Some(i) => ParamKey::named(entry.take(i)),
        None => None,
    }
}

/// The value of an entry: all that follows its first `=`, further `=` included.
pub open spec fn entry_value(entry: Seq<char>) -> Seq<char> {
    match entry.index_of_first('=') {
        Some(i) => entry.skip(i + 1),
        None => Seq::empty(),
    }
}

/// `value` can be read as what the field of `key` holds.
pub open spec fn value_ok(key: ParamKey, value: Seq<char>) -> bool {
    match key {
        ParamKey::Pid | ParamKey::RealmPda | ParamKey::User | ParamKey::UserAccountPda => {
            Pubkey::parsed(value) is Some
        },
        ParamKey::TwitterUsername => true,
        ParamKey::TweetId => parse_u64(value) is Some,
    }
}

/// The entry either has no key of ours or a value that its key's field can hold.
pub open spec fn entry_ok(entry: Seq<char>) -> bool {
    match entry_key(entry) {
        Some(key) => value_ok(key, entry_value(entry)),
        None => true,
    }
}

/// Every entry that carries one of the six keys has a value that the key's field can hold.
pub open spec fn well_formed(entries: Seq<Seq<char>>) -> bool {
    forall|i: int| 0 <= i < entries.len() ==> entry_ok(#[trigger] entries[i])
}

/// The value of the last entry that carries `key`: a later entry overwrites an earlier one.
pub open spec fn last_value(entries: Seq<Seq<char>>, key: ParamKey) -> Option<Seq<char>>
    decreases entries.len(),
{
    if entries.len() == 0 {
        None
    } else if entry_key(entries.last()) == Some(key) {
        Some(entry_value(entries.last()))
    } else {
        last_value(entries.drop_last(), key)
    }
}

/// What has been assigned to each field, before any default is judged. `None` stands for a
/// field that no entry has set.
pub struct Assigned {
    pub program_id: Option<Pubkey>,
    pub realm_pda: Option<Pubkey>,
    pub user: Option<Pubkey>,
    pub user_account_pda: Option<Pubkey>,
    pub twitter_username: Option<Seq<char>>,
    pub tweet_id: Option<u64>,
}

/// The address that the last entry with `key` writes.
pub open spec fn assigned_address(entries: Seq<Seq<char>>, key: ParamKey) -> Option<Pubkey> {
    match last_value(entries, key) {
        Some(value) => Pubkey::parsed(value),
        None => None,
    }
}

/// The identifier that the last entry for the tweet writes.
pub open spec fn assigned_tweet_id(entries: Seq<Seq<char>>) -> Option<u64> {
    match last_value(entries, ParamKey::TweetId) {
        Some(value) => parse_u64(value),
        None => None,
    }
}

impl Assigned {
    /// What the entries assign: each field is read from the last entry with its key.
    pub open spec fn of(entries: Seq<Seq<char>>) -> Assigned {
        Assigned {
            program_id: assigned_address(entries, ParamKey::Pid),
            realm_pda: assigned_address(entries, ParamKey::RealmPda),
            user: assigned_address(entries, ParamKey::User),
            user_account_pda: assigned_address(entries, ParamKey::UserAccountPda),
            twitter_username: last_value(entries, ParamKey::TwitterUsername),
            tweet_id: assigned_tweet_id(entries),
        }
    }

    /// These assignments, overwritten by one more entry `key=value`.
    pub open spec fn with(self, key: ParamKey, value: Seq<char>) -> Assigned {
        match key {
            ParamKey::Pid => Assigned { program_id: Pubkey::parsed(value), ..self },
            ParamKey::RealmPda => Assigned { realm_pda: Pubkey::parsed(value), ..self },
            ParamKey::User => Assigned { user: Pubkey::parsed(value), ..self },
            ParamKey::UserAccountPda => Assigned {
                user_account_pda: Pubkey::parsed(value),
                ..self
            },
            ParamKey::TwitterUsername => Assigned { twitter_username: Some(value), ..self },
            ParamKey::TweetId => Assigned { tweet_id: parse_u64(value), ..self },
        }
    }

    /// The field of `key` was never set, or holds the default of its type.
    pub open spec fn lacks(self, key: ParamKey) -> bool {
        match key {
            ParamKey::Pid => !(self.program_id matches Some(a) && !a.is_zero()),
            ParamKey::RealmPda => !(self.realm_pda matches Some(a) && !a.is_zero()),
            ParamKey::User => !(self.user matches Some(a) && !a.is_zero()),
            ParamKey::UserAccountPda => !(self.user_account_pda matches Some(a) && !a.is_zero()),
            ParamKey::TwitterUsername => !(self.twitter_username matches Some(name) && name.len()
                > 0),
            ParamKey::TweetId => !(self.tweet_id matches Some(id) && id != 0),
        }
    }

    /// The first field that is lacking, in the fixed order of the checks.
    pub open spec fn first_lacking(self) -> Option<ParamKey> {
        if self.lacks(ParamKey::Pid) {
            Some(ParamKey::Pid)
        } else if self.lacks(ParamKey::RealmPda) {
            Some(ParamKey::RealmPda)
        } else if self.lacks(ParamKey::User) {
            Some(ParamKey::User)
        } else if self.lacks(ParamKey::UserAccountPda) {
            Some(ParamKey::UserAccountPda)
        } else if self.lacks(ParamKey::TwitterUsername) {
            Some(ParamKey::TwitterUsername)
        } else if self.lacks(ParamKey::TweetId) {
            Some(ParamKey::TweetId)
        } else {
            None
        }
    }

    /// The request that these assignments make, or the first field that they leave lacking.
    pub open spec fn resolve(self) -> Result<ContainerParamsView, Error> {
        match self.first_lacking() {
            Some(key) => Err(Error::MissingField(key)),
            None => Ok(
                ContainerParamsView {
                    program_id: self.program_id->0,
                    realm_pda: self.realm_pda->0,
                    user: self.user->0,
                    user_account_pda: self.user_account_pda->0,
                    twitter_username: self.twitter_username->0,
                    tweet_id: self.tweet_id->0,
                },
            ),
        }
    }
}

/// What a list of entries decodes to.
pub open spec fn decode_entries(entries: Seq<Seq<char>>) -> Result<ContainerParamsView, Error> {
    if !well_formed(entries) {
        Err(Error::MalformedInput)
    } else {
        Assigned::of(entries).resolve()
    }
}

/// What a parameter text decodes to.
pub open spec fn decode_text(text: Seq<char>) -> Result<ContainerParamsView, Error> {
    decode_entries(split(text, ','))
}

/// What the parameter bytes decode to.
pub open spec fn decode_bytes(bytes: Seq<u8>) -> Result<ContainerParamsView, Error> {
    if !valid_utf8(bytes) {
        Err(Error::MalformedInput)
    } else {
        decode_text(decode_utf8(bytes))
    }
}

/// One more entry changes the assignments only through its own key.
pub proof fn lemma_assigned_push(entries: Seq<Seq<char>>, entry: Seq<char>)
    ensures
        Assigned::of(entries.push(entry)) == match entry_key(entry) {
            Some(key) => Assigned::of(entries).with(key, entry_value(entry)),
            None => Assigned::of(entries),
        },
{
    let longer = entries.push(entry);
    assert(longer.drop_last() =~= entries);
    assert(longer.last() == entry);
}

/// Where `last_value` finds a value, an entry with that key and value exists.
pub proof fn lemma_last_value_is_an_entry(entries: Seq<Seq<char>>, key: ParamKey)
    requires
        last_value(entries, key) is Some,
    ensures
        exists|i: int|
            0 <= i < entries.len() && entry_key(#[trigger] entries[i]) == Some(key) && entry_value(
                entries[i],
            ) == last_value(entries, key)->0,
    decreases entries.len(),
{
    if entry_key(entries.last()) == Some(key) {
        assert(entries[entries.len() - 1] == entries.last());
    } else {
        lemma_last_value_is_an_entry(entries.drop_last(), key);
        let i = choose|i: int|
            0 <= i < entries.drop_last().len() && entry_key(#[trigger] entries.drop_last()[i])
                == Some(key) && entry_value(entries.drop_last()[i]) == last_value(
                entries.drop_last(),
                key,
            )->0;
        assert(entries[i] == entries.drop_last()[i]);
    }
}

/// Last write wins: the entry at `i` carries `key` and no later entry does, so the field of
/// `key` is read from the entry at `i`, whatever stands before it.
pub proof fn lemma_last_write_wins(entries: Seq<Seq<char>>, key: ParamKey, i: int)
    requires
        0 <= i < entries.len(),
        entry_key(entries[i]) == Some(key),
        forall|j: int| i < j < entries.len() ==> entry_key(entries[j]) != Some(key),
    ensures
        last_value(entries, key) == Some(entry_value(entries[i])),
    decreases entries.len(),
{
    if i < entries.len() - 1 {
        assert(entries.last() == entries[entries.len() - 1]);
        assert(entries.drop_last()[i] == entries[i]);
        assert forall|j: int| i < j < entries.drop_last().len() implies entry_key(
            entries.drop_last()[j],
        ) != Some(key) by {
            assert(entries.drop_last()[j] == entries[j]);
        }
        lemma_last_write_wins(entries.drop_last(), key, i);
    }
}

/// No key is given two different values.
pub open spec fn single_valued(entries: Seq<Seq<char>>) -> bool {
    forall|i: int, j: int|
        0 <= i < entries.len() && 0 <= j < entries.len() && entry_key(#[trigger] entries[i])
            is Some && entry_key(entries[i]) == entry_key(#[trigger] entries[j]) ==> entry_value(
            entries[i],
        ) == entry_value(entries[j])
}

/// Every entry of `a` is an entry of `b`.
pub open spec fn entries_within(a: Seq<Seq<char>>, b: Seq<Seq<char>>) -> bool {
    forall|i: int| 0 <= i < a.len() ==> b.contains(#[trigger] a[i])
}

/// Two lists with the same entries, the first of them single-valued, read every field from
/// the same value.
proof fn lemma_last_value_same(a: Seq<Seq<char>>, b: Seq<Seq<char>>, key: ParamKey)
    requires
        entries_within(a, b),
        entries_within(b, a),
        single_valued(a),
    ensures
        last_value(a, key) == last_value(b, key),
{
    if last_value(a, key) is Some {
        lemma_last_value_is_an_entry(a, key);
        let i = choose|i: int|
            0 <= i < a.len() && entry_key(#[trigger] a[i]) == Some(key) && entry_value(a[i])
                == last_value(a, key)->0;
        assert(b.contains(a[i]));
        let j = choose|j: int| 0 <= j < b.len() && b[j] == a[i];
        lemma_last_value_finds(b, key, j);
        lemma_last_value_is_an_entry(b, key);
        let j2 = choose|j2: int|
            0 <= j2 < b.len() && entry_key(#[trigger] b[j2]) == Some(key) && entry_value(b[j2])
                == last_value(b, key)->0;
        assert(a.contains(b[j2]));
        let i2 = choose|i2: int| 0 <= i2 < a.len() && a[i2] == b[j2];
        assert(entry_value(a[i]) == entry_value(a[i2]));
    } else if last_value(b, key) is Some {
        lemma_last_value_is_an_entry(b, key);
        let j = choose|j: int|
            0 <= j < b.len() && entry_key(#[trigger] b[j]) == Some(key) && entry_value(b[j])
                == last_value(b, key)->0;
        assert(a.contains(b[j]));
        let i = choose|i: int| 0 <= i < a.len() && a[i] == b[j];
        lemma_last_value_finds(a, key, i);
    }
}

/// Where some entry carries `key`, `last_value` finds a value.
proof fn lemma_last_value_finds(entries: Seq<Seq<char>>, key: ParamKey, i: int)
    requires
        0 <= i < entries.len(),
        entry_key(entries[i]) == Some(key),
    ensures
        last_value(entries, key) is Some,
    decreases entries.len(),
{
    if entry_key(entries.last()) != Some(key) {
        assert(entries.last() == entries[entries.len() - 1]);
        assert(entries.drop_last()[i] == entries[i]);
        lemma_last_value_finds(entries.drop_last(), key, i);
    }
}

/// Decoding does not depend on the order of the entries: two lists that hold the same
/// entries, in which no key is given two different values, decode alike.
pub proof fn lemma_decode_order_independent(a: Seq<Seq<char>>, b: Seq<Seq<char>>)
    requires
        entries_within(a, b),
        entries_within(b, a),
        single_valued(a),
    ensures
        decode_entries(a) == decode_entries(b),
{
    assert(well_formed(a) ==> well_formed(b)) by {
        if well_formed(a) {
            assert forall|j: int| 0 <= j < b.len() implies entry_ok(#[trigger] b[j]) by {
                assert(a.contains(b[j]));
                let i = choose|i: int| 0 <= i < a.len() && a[i] == b[j];
                assert(entry_ok(a[i]));
            }
        }
    }
    assert(well_formed(b) ==> well_formed(a)) by {
        if well_formed(b) {
            assert forall|i: int| 0 <= i < a.len() implies entry_ok(#[trigger] a[i]) by {
                assert(b.contains(a[i]));
                let j = choose|j: int| 0 <= j < b.len() && b[j] == a[i];
                assert(entry_ok(b[j]));
            }
        }
    }
    lemma_last_value_same(a, b, ParamKey::Pid);
    lemma_last_value_same(a, b, ParamKey::RealmPda);
    lemma_last_value_same(a, b, ParamKey::User);
    lemma_last_value_same(a, b, ParamKey::UserAccountPda);
    lemma_last_value_same(a, b, ParamKey::TwitterUsername);
    lemma_last_value_same(a, b, ParamKey::TweetId);
}

/// The same holds of the text: two parameter texts joined by a comma decode alike in either
/// order, provided that together they give no key two different values.
pub proof fn lemma_decode_text_commutes(a: Seq<char>, b: Seq<char>)
    requires
        single_valued(split(a, ',') + split(b, ',')),
    ensures
        decode_text(a + seq![','] + b) == decode_text(b + seq![','] + a),
{
    let first = split(a, ',');
    let second = split(b, ',');
    lemma_split_joined(a, b, ',');
    lemma_split_joined(b, a, ',');
    assert forall|i: int| 0 <= i < (first + second).len() implies (second + first).contains(
        #[trigger] (first + second)[i],
    ) by {
        if i < first.len() {
            assert((second + first)[second.len() + i] == first[i]);
        } else {
            assert((second + first)[i - first.len()] == second[i - first.len()]);
        }
    }
    assert forall|i: int| 0 <= i < (second + first).len() implies (first + second).contains(
        #[trigger] (second + first)[i],
    ) by {
        if i < second.len() {
            assert((first + second)[first.len() + i] == second[i]);
        } else {
            assert((first + second)[i - second.len()] == first[i - second.len()]);
        }
    }
    lemma_decode_order_independent(first + second, second + first);
}

/// No entry carries `key`.
pub open spec fn absent(entries: Seq<Seq<char>>, key: ParamKey) -> bool {
    forall|i: int| 0 <= i < entries.len() ==> entry_key(#[trigger] entries[i]) != Some(key)
}

/// Without an entry for the tweet identifier that field is lacking and decoding fails,
/// whatever else the entries hold.
pub proof fn lemma_tweet_id_absent_fails(entries: Seq<Seq<char>>)
    requires
        absent(entries, ParamKey::TweetId),
    ensures
        Assigned::of(entries).lacks(ParamKey::TweetId),
        decode_entries(entries) is Err,
{
    if last_value(entries, ParamKey::TweetId) is Some {
        lemma_last_value_is_an_entry(entries, ParamKey::TweetId);
    }
}

/// Without an entry for the tweet identifier decoding fails with that field's name, wherever
/// the entries are well-formed and set the five fields that are checked before it.
pub proof fn lemma_tweet_id_absent_is_reported(entries: Seq<Seq<char>>)
    requires
        absent(entries, ParamKey::TweetId),
        well_formed(entries),
        !Assigned::of(entries).lacks(ParamKey::Pid),
        !Assigned::of(entries).lacks(ParamKey::RealmPda),
        !Assigned::of(entries).lacks(ParamKey::User),
        !Assigned::of(entries).lacks(ParamKey::UserAccountPda),
        !Assigned::of(entries).lacks(ParamKey::TwitterUsername),
    ensures
        decode_entries(entries) == Err::<ContainerParamsView, Error>(
            Error::MissingField(ParamKey::TweetId),
        ),
{
    lemma_tweet_id_absent_fails(entries);
}

/// The fields while the entries are read.
struct Fields {
    program_id: Option<Pubkey>,
    realm_pda: Option<Pubkey>,
    user: Option<Pubkey>,
    user_account_pda: Option<Pubkey>,
    twitter_username: Option<String>,
    tweet_id: Option<u64>,
}

impl View for Fields {
    type V = Assigned;

    closed spec fn view(&self) -> Assigned {
        Assigned {
            program_id: self.program_id,
            realm_pda: self.realm_pda,
            user: self.user,
            user_account_pda: self.user_account_pda,
            twitter_username: match self.twitter_username {
                Some(name) => Some(name@),
                None => None,
            },
            tweet_id: self.tweet_id,
        }
    }
}

impl Fields {
    fn new() -> (r: Fields)
        ensures
            r@ == Assigned::of(Seq::empty()),
    {
        Fields {
            program_id: None,
            realm_pda: None,
            user: None,
            user_account_pda: None,
            twitter_username: None,
            tweet_id: None,
        }
    }

    /// Reads `value` into the field of `key`. Returns false, and changes nothing, where the
    /// field cannot hold the value.
    fn set(&mut self, key: ParamKey, value: &str) -> (ok: bool)
        ensures
            ok == value_ok(key, value@),
            ok ==> final(self)@ == old(self)@.with(key, value@),
            !ok ==> final(self)@ == old(self)@,
    {
        match key {
            ParamKey::Pid => match Pubkey::from_str(value) {
                Some(address) => {
                    self.program_id = Some(address);
                    true
                },
                None => false,
            },
            ParamKey::RealmPda => match Pubkey::from_str(value) {
                Some(address) => {
                    self.realm_pda = Some(address);
                    true
                },
                None => false,
            },
            ParamKey::User => match Pubkey::from_str(value) {
                Some(address) => {
                    self.user = Some(address);
                    true
                },
                None => false,
            },
            ParamKey::UserAccountPda => match Pubkey::from_str(value) {
                Some(address) => {
                    self.user_account_pda = Some(address);
                    true
                },
                None => false,
            },
            ParamKey::TwitterUsername => {
                self.twitter_username = Some(value.to_owned());
                true
            },
            ParamKey::TweetId => match parse_numeric_id(value) {
                Some(id) => {
                    self.tweet_id = Some(id);
                    true
                },
                None => false,
            },
        }
    }

    /// Judges the fields against their defaults, in the fixed order.
    fn finish(self) -> (r: Result<ContainerParams, Error>)
        ensures
            match r {
                Ok(params) => self@.resolve() == Ok::<ContainerParamsView, Error>(params@),
                Err(e) => self@.resolve() == Err::<ContainerParamsView, Error>(e),
            },
    {
        let program_id = match self.program_id {
            Some(address) => address,
            None => return Err(Error::MissingField(ParamKey::Pid)),
        };
        if program_id.is_default() {
            return Err(Error::MissingField(ParamKey::Pid));
        }
        let realm_pda = match self.realm_pda {
            Some(address) => address,
            None => return Err(Error::MissingField(ParamKey::RealmPda)),
        };
        if realm_pda.is_default() {
            return Err(Error::MissingField(ParamKey::RealmPda));
        }
        let user = match self.user {
            Some(address) => address,
            None => return Err(Error::MissingField(ParamKey::User)),
        };
        if user.is_default() {
            return Err(Error::MissingField(ParamKey::User));
        }
        let user_account_pda = match self.user_account_pda {
            Some(address) => address,
            None => return Err(Error::MissingField(ParamKey::UserAccountPda)),
        };
        if user_account_pda.is_default() {
            return Err(Error::MissingField(ParamKey::UserAccountPda));
        }
        let twitter_username = match self.twitter_username {
            Some(name) => name,
            None => return Err(Error::MissingField(ParamKey::TwitterUsername)),
        };
        if twitter_username.as_str().is_empty() {
            return Err(Error::MissingField(ParamKey::TwitterUsername));
        }
        let tweet_id = match self.tweet_id {
            Some(id) => id,
            None => return Err(Error::MissingField(ParamKey::TweetId)),
        };
        if tweet_id == 0 {
            return Err(Error::MissingField(ParamKey::TweetId));
        }
        Ok(ContainerParams { program_id, realm_pda, user, user_account_pda, twitter_username, tweet_id })
    }
}

impl ContainerParams {
    /// Decodes the parameter bytes.
    ///
    /// The bytes must be UTF-8 text. The text is cut at every `,`, and each piece at its first
    /// `=`. A piece whose name is one of the six keys sets that field, a later one overwriting
    /// an earlier one; every other piece is passed over. The result is `MalformedInput` where
    /// the bytes are no text or one of those values cannot be read, else `MissingField` with
    /// the first field, in the fixed order, that was never set or holds its default, else the
    /// request.
    pub fn decode(container_params: &Vec<u8>) -> (r: Result<ContainerParams, Error>)
        ensures
            match r {
                Ok(params) => decode_bytes(container_params@) == Ok::<ContainerParamsView, Error>(
                    params@,
                ) && params@.complete(),
                Err(e) => decode_bytes(container_params@) == Err::<ContainerParamsView, Error>(e),
            },
    {
        let text = match str_from_utf8(container_params.as_slice()) {
            Some(text) => text,
            None => return Err(Error::MalformedInput),
        };
        let chars = to_chars(text);
        let n = chars.len();
        let mut fields = Fields::new();
        let ghost mut done: Seq<Seq<char>> = Seq::empty();
        let mut start: usize = 0;
        assert(text@.skip(0) =~= text@);
        // `done` holds the entries that lie before `start`; `fields` holds what they assign
        loop
            invariant
                valid_utf8(container_params@),
                text@ == decode_utf8(container_params@),
                chars@ == text@,
                n == chars.len(),
                start <= n,
                split(text@, ',') == done + split(text@.skip(start as int), ','),
                well_formed(done),
                fields@ == Assigned::of(done),
            decreases n - start,
        {
            let end = find_char(&chars, start, n, ',');
            let eq = find_char(&chars, start, end, '=');
            let ghost rest = text@.skip(start as int);
            let ghost entry = chars@.subrange(start as int, end as int);
            proof {
                // `entry` is the first piece of what is left, and so the next piece of the text
                assert(rest =~= chars@.subrange(start as int, n as int));
                if end < n {
                    assert(rest.skip(end - start + 1) =~= text@.skip(end + 1));
                    assert(done + (seq![entry] + split(text@.skip(end + 1), ',')) =~= done.push(
                        entry,
                    ) + split(text@.skip(end + 1), ','));
                } else {
                    assert(done + seq![entry] =~= done.push(entry));
                }
                assert(split(text@, ',')[done.len() as int] == entry);
                lemma_assigned_push(done, entry);
            }
            if eq < end {
                let name = text.substring_char(start, eq);
                let value = text.substring_char(eq + 1, end);
                assert(name@ =~= entry.take(eq - start));
                assert(value@ =~= entry.skip(eq - start + 1));
                match ParamKey::from_name(name) {
                    Some(key) => {
                        if !fields.set(key, value) {
                            return Err(Error::MalformedInput);
                        }
                    },
                    None => {},
                }
            }
            proof {
                done = done.push(entry);
            }
            if end == n {
                return fields.finish();
            }
            start = end + 1;
        }
    }
}

} // verus!
