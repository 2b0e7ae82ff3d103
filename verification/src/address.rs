//! Account addresses: 32 bytes, written in text as base58.

use vstd::prelude::*;
use std::str::FromStr;

verus! {

/// The 32 bytes that `text` stands for as a base58 account address, `None` where it stands
/// for none.
pub uninterp spec fn pubkey_from_str(text: Seq<char>) -> Option<[u8; 32]>;

/// Calls `solana_program::pubkey::Pubkey::from_str`, which decodes base58 and accepts exactly
/// the texts that decode to 32 bytes. The contract only gives that result its name; the
/// decoding itself is not restated here.
#[verifier::external_body]
pub(crate) fn parse_pubkey(text: &str) -> (r: Option<[u8; 32]>)
    ensures
        r == pubkey_from_str(text@),
{
    match solana_program::pubkey::Pubkey::from_str(text) {
        Ok(key) => Some(key.to_bytes()),
        Err(_) => None,
    }
}

/// The address of an account or of a program.
#[derive(Clone, Copy, Debug, Eq)]
pub struct Pubkey {
    pub bytes: [u8; 32],
}

impl Pubkey {
    /// All 32 bytes are zero: the value that stands for "no address".
    pub open spec fn is_zero(self) -> bool {
        forall|i: int| 0 <= i < 32 ==> self.bytes[i] == 0
    }

    /// The address that `text` is the base58 form of.
    pub open spec fn parsed(text: Seq<char>) -> Option<Pubkey> {
        match pubkey_from_str(text) {
            Some(bytes) => Some(Pubkey { bytes }),
            None => None,
        }
    }

    /// The address with the given bytes.
    pub fn new_from_array(bytes: [u8; 32]) -> (r: Pubkey)
        ensures
            r.bytes == bytes,
    {
        Pubkey { bytes }
    }

    /// The bytes of the address.
    pub fn to_bytes(&self) -> (r: [u8; 32])
        ensures
            r == self.bytes,
    {
        self.bytes
    }

    /// Whether this is the all-zero address that `default` gives.
    pub fn is_default(&self) -> (r: bool)
        ensures
            r == self.is_zero(),
    {
        let mut i: usize = 0;
        while i < 32
            invariant
                i <= 32,
                forall|j: int| 0 <= j < i ==> self.bytes[j] == 0,
            decreases 32 - i,
        {
            if self.bytes[i] != 0 {
                return false;
            }
            i += 1;
        }
        true
    }

    /// Reads an address from its base58 form.
    pub fn from_str(text: &str) -> (r: Option<Pubkey>)
        ensures
            r == Pubkey::parsed(text@),
    {
        match parse_pubkey(text) {
            Some(bytes) => Some(Pubkey { bytes }),
            None => None,
        }
    }
}

impl Default for Pubkey {
    fn default() -> (r: Pubkey)
        ensures
            r.is_zero(),
    {
        Pubkey { bytes: [0u8; 32] }
    }
}

impl PartialEq for Pubkey {
    fn eq(&self, other: &Pubkey) -> (r: bool) {
        let mut i: usize = 0;
        while i < 32
            invariant
                i <= 32,
                forall|j: int| 0 <= j < i ==> self.bytes[j] == other.bytes[j],
            decreases 32 - i,
        {
            if self.bytes[i] != other.bytes[i] {
                return false;
            }
            i += 1;
        }
        assert(self.bytes =~= other.bytes);
        true
    }
}

impl vstd::std_specs::cmp::PartialEqSpecImpl for Pubkey {
    open spec fn obeys_eq_spec() -> bool {
        true
    }

    open spec fn eq_spec(&self, other: &Pubkey) -> bool {
        *self == *other
    }
}

} // verus!
