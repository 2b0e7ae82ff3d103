//! The instruction that settles a tweet's points on chain: a program address, an ordered list
//! of accounts, and a payload of sixteen bytes.

use vstd::prelude::*;
use vstd::bytes::{
    lemma_auto_spec_u64_to_from_le_bytes,
    spec_u64_from_le_bytes,
    spec_u64_to_le_bytes,
    u64_from_le_bytes,
    u64_to_le_bytes,
};
use vstd::slice::slice_subrange;
use crate::address::Pubkey;
use crate::params::{ContainerParams, ContainerParamsView};

verus! {

/// The length of the payload: the discriminator and the points, eight bytes each.
pub const PAYLOAD_LEN: usize = 16;

/// The size that a serialized instruction must stay under.
pub const MAX_SERIALIZED_LEN: usize = 700;

/// The name of the on-chain method that settles the points.
pub const SETTLE_METHOD: &'static str = "process_tweet_settle";

/// The eight bytes by which the on-chain program tells its methods apart, for the method of
/// the given name.
pub uninterp spec fn ixn_discriminator(name: Seq<char>) -> [u8; 8];

/// Calls `switchboard_solana::get_ixn_discriminator`, which hashes `global:` and the name
/// with SHA-256 and keeps the first eight bytes of the digest. The contract only gives that
/// result its name; the hash is not restated here.
#[verifier::external_body]
pub(crate) fn get_ixn_discriminator(name: &str) -> (r: [u8; 8])
    ensures
        r == ixn_discriminator(name@),
{
    switchboard_solana::get_ixn_discriminator(name)
}

/// One account of an instruction, with what the instruction may do to it.
#[derive(Clone, Copy, Debug, PartialEq, Eq)]
pub struct AccountMeta {
    pub pubkey: Pubkey,
    pub is_signer: bool,
    pub is_writable: bool,
}

impl AccountMeta {
    /// An account that the instruction may write to.
    pub fn new(pubkey: Pubkey, is_signer: bool) -> (r: AccountMeta)
        ensures
            r == (AccountMeta { pubkey, is_signer, is_writable: true }),
    {
        AccountMeta { pubkey, is_signer, is_writable: true }
    }

    /// An account that the instruction only reads.
    pub fn new_readonly(pubkey: Pubkey, is_signer: bool) -> (r: AccountMeta)
        ensures
            r == (AccountMeta { pubkey, is_signer, is_writable: false }),
    {
        AccountMeta { pubkey, is_signer, is_writable: false }
    }
}

/// The accounts that the runtime contributes: its own signing key, the function's account
/// and the account of the request that is being served.
#[derive(Clone, Copy, Debug, PartialEq, Eq)]
pub struct RunnerAccounts {
    pub signer: Pubkey,
    pub function: Pubkey,
    pub function_request_key: Pubkey,
}

/// An instruction for an on-chain program.
#[derive(Clone, Debug, PartialEq, Eq)]
pub struct Instruction {
    pub program_id: Pubkey,
    pub accounts: Vec<AccountMeta>,
    pub data: Vec<u8>,
}

/// An instruction as a value of the model: its lists are sequences.
pub struct InstructionView {
    pub program_id: Pubkey,
    pub accounts: Seq<AccountMeta>,
    pub data: Seq<u8>,
}

impl View for Instruction {
    type V = InstructionView;

    open spec fn view(&self) -> InstructionView {
        InstructionView { program_id: self.program_id, accounts: self.accounts@, data: self.data@ }
    }
}

impl InstructionView {
    /// The size of the instruction when every field is written out at fixed width: the
    /// program address, the number of accounts in 8 bytes, 34 bytes for each account (its
    /// address and its two flags), the length of the data in 8 bytes, and the data.
    pub open spec fn serialized_len(self) -> nat {
        32 + 8 + 34 * self.accounts.len() + 8 + self.data.len()
    }
}

/// The payload: the discriminator, then the points as eight bytes, least significant first.
pub open spec fn payload(discriminator: [u8; 8], points: u64) -> Seq<u8> {
    discriminator@ + spec_u64_to_le_bytes(points)
}

/// The discriminator and the points that a payload of the right length carries.
pub open spec fn parse_payload(data: Seq<u8>) -> Option<(Seq<u8>, u64)> {
    if data.len() == PAYLOAD_LEN {
        Some((data.take(8), spec_u64_from_le_bytes(data.skip(8))))
    } else {
        None
    }
}

/// Reading a payload gives back the discriminator and the points that it was made of, for
/// every number of points.
pub proof fn lemma_payload_round_trip(discriminator: [u8; 8], points: u64)
    ensures
        payload(discriminator, points).len() == PAYLOAD_LEN,
        parse_payload(payload(discriminator, points)) == Some((discriminator@, points)),
{
    lemma_auto_spec_u64_to_from_le_bytes();
    let data = payload(discriminator, points);
    assert(data.take(8) =~= discriminator@);
    assert(data.skip(8) =~= spec_u64_to_le_bytes(points));
}

/// Writes the payload for the given discriminator and points.
pub fn encode_payload(discriminator: &[u8; 8], points: u64) -> (r: Vec<u8>)
    ensures
        r@ == payload(*discriminator, points),
        r.len() == PAYLOAD_LEN,
{
    let mut data: Vec<u8> = Vec::new();
    let mut i: usize = 0;
    while i < 8
        invariant
            i <= 8,
            data@ == discriminator@.take(i as int),
        decreases 8 - i,
    {
        data.push(discriminator[i]);
        assert(discriminator@.take(i + 1) =~= discriminator@.take(i as int).push(
            discriminator@[i as int],
        ));
        i += 1;
    }
    assert(discriminator@.take(8) =~= discriminator@);
    let mut tail = u64_to_le_bytes(points);
    data.append(&mut tail);
    data
}

/// Reads a payload back: the discriminator and the points, or nothing where the data has not
/// the length of a payload.
pub fn decode_payload(data: &[u8]) -> (r: Option<([u8; 8], u64)>)
    ensures
        match r {
            Some((discriminator, points)) => parse_payload(data@) == Some(
                (discriminator@, points),
            ),
            None => parse_payload(data@) is None,
        },
{
    if data.len() != PAYLOAD_LEN {
        return None;
    }
    let discriminator: [u8; 8] = [
        data[0],
        data[1],
        data[2],
        data[3],
        data[4],
        data[5],
        data[6],
        data[7],
    ];
    assert(discriminator@ =~= data@.take(8));
    let tail = slice_subrange(data, 8, 16);
    assert(tail@ =~= data@.skip(8));
    Some((discriminator, u64_from_le_bytes(tail)))
}

/// The seven accounts of the settling instruction, in the order that the on-chain program
/// expects: the runtime's signing key, the only signer; the user; the realm and the user's
/// record, which is listed twice, all three writable; the function and its request.
pub open spec fn settle_accounts(params: ContainerParamsView, runner: RunnerAccounts) -> Seq<
    AccountMeta,
> {
    seq![
        AccountMeta { pubkey: runner.signer, is_signer: true, is_writable: false },
        AccountMeta { pubkey: params.user, is_signer: false, is_writable: false },
        AccountMeta { pubkey: params.realm_pda, is_signer: false, is_writable: true },
        AccountMeta { pubkey: params.user_account_pda, is_signer: false, is_writable: true },
        AccountMeta { pubkey: params.user_account_pda, is_signer: false, is_writable: true },
        AccountMeta { pubkey: runner.function, is_signer: false, is_writable: false },
        AccountMeta { pubkey: runner.function_request_key, is_signer: false, is_writable: false },
    ]
}

/// Lists the seven accounts of the settling instruction.
pub fn account_list(params: &ContainerParams, runner: &RunnerAccounts) -> (r: Vec<AccountMeta>)
    ensures
        r@ == settle_accounts(params@, *runner),
{
    let mut accounts: Vec<AccountMeta> = Vec::new();
    accounts.push(AccountMeta::new_readonly(runner.signer, true));
    accounts.push(AccountMeta::new_readonly(params.user, false));
    accounts.push(AccountMeta::new(params.realm_pda, false));
    accounts.push(AccountMeta::new(params.user_account_pda, false));
    accounts.push(AccountMeta::new(params.user_account_pda, false));
    accounts.push(AccountMeta::new_readonly(runner.function, false));
    accounts.push(AccountMeta::new_readonly(runner.function_request_key, false));
    assert(accounts@ =~= settle_accounts(params@, *runner));
    accounts
}

/// Puts an instruction together: the payload is made of the discriminator and the points,
/// the accounts are kept as they are given.
pub fn encode(
    program_id: Pubkey,
    discriminator: [u8; 8],
    points: u64,
    accounts: Vec<AccountMeta>,
) -> (r: Instruction)
    ensures
        r@ == (InstructionView {
            program_id,
            accounts: accounts@,
            data: payload(discriminator, points),
        }),
{
    Instruction { program_id, accounts, data: encode_payload(&discriminator, points) }
}

/// The instruction that settles `points` for the request `params`.
pub open spec fn settle_instruction_for(
    params: ContainerParamsView,
    points: u64,
    runner: RunnerAccounts,
) -> InstructionView {
    InstructionView {
        program_id: params.program_id,
        accounts: settle_accounts(params, runner),
        data: payload(ixn_discriminator(SETTLE_METHOD@), points),
    }
}

/// Builds the instruction that settles `points` for the request `params`. It names the
/// request's program, lists the seven accounts and carries the settling method's
/// discriminator with the points.
pub fn settle_instruction(params: &ContainerParams, points: u64, runner: &RunnerAccounts) -> (r:
    Instruction)
    ensures
        r@ == settle_instruction_for(params@, points, *runner),
        r@.serialized_len() < MAX_SERIALIZED_LEN,
{
    let discriminator = get_ixn_discriminator(SETTLE_METHOD);
    let accounts = account_list(params, runner);
    proof {
        lemma_payload_round_trip(discriminator, points);
        assert(settle_accounts(params@, *runner).len() == 7);
    }
    encode(params.program_id, discriminator, points, accounts)
}

} // verus!
