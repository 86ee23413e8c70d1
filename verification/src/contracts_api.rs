//! The contract-facing result types of the sandbox, the limits of its
//! modeled contracts module, and the decoder for captured debug output.
//!
//! Contract-level failure (revert, missing code, out of gas) is data inside
//! an outcome, not a propagated error: the dispatch itself succeeds in
//! sandbox terms even when the contract logic fails.
use crate::account::{AccountId, CodeHash};
use crate::events::Event;
use vstd::prelude::*;

verus! {

/// The largest module, in bytes, the sandbox accepts for upload.
pub const MAX_CODE_LEN: usize = 125952;

/// The storage deposit charged per byte of stored module code.
pub const DEPOSIT_PER_BYTE: u128 = 1;

/// The storage deposit charged per stored item.
pub const DEPOSIT_PER_ITEM: u128 = 1;

/// The gas one instantiation consumes.
pub const GAS_INSTANTIATE: u64 = 1_000_000;

/// The gas one contract call consumes.
pub const GAS_CALL: u64 = 500_000;

/// A gas limit ample for any sandbox operation.
pub const DEFAULT_GAS_LIMIT: u64 = 100_000_000_000;

/// Whether a contract call demands deterministic execution.
#[derive(Clone, Copy, PartialEq, Eq, Structural, Debug)]
pub enum Determinism {
    /// Only deterministic execution is allowed.
    Enforced,
    /// Non-deterministic execution is tolerated.
    Relaxed,
}

/// A contract-level failure, carried inside an outcome as data.
#[derive(Clone, Copy, PartialEq, Eq, Structural, Debug)]
pub enum ContractError {
    /// The module bytes are not acceptable code.
    CodeRejected,
    /// No code is stored under the given hash.
    CodeNotFound,
    /// A contract already sits at the derived address.
    DuplicateContract,
    /// No contract sits at the called address.
    ContractNotFound,
    /// The transferred value cannot be moved.
    TransferFailed,
    /// The gas limit is below what the operation consumes.
    OutOfGas,
    /// The storage deposit would exceed the given limit.
    DepositLimitExceeded,
}

/// The error a code upload can surface.
#[derive(Clone, Copy, PartialEq, Eq, Structural, Debug)]
pub enum UploadError {
    /// The module bytes are not acceptable code.
    CodeRejected,
    /// The storage deposit would exceed the given limit.
    DepositLimitExceeded,
}

/// What a code upload returns: the content hash the code is stored under and
/// the deposit held for it.
#[derive(Clone, Copy, PartialEq, Eq, Debug)]
pub struct UploadReturn {
    /// The content hash of the uploaded bytes.
    pub code_hash: CodeHash,
    /// The storage deposit held for the stored code.
    pub deposit: u128,
}

/// What a finished contract execution returns.
#[derive(Clone, Debug)]
pub struct ExecReturn {
    /// Whether the contract reverted.
    pub revert: bool,
    /// The output data of the execution.
    pub data: Vec<u8>,
}

impl ExecReturn {
    /// Whether the contract reverted.
    pub fn did_revert(&self) -> (r: bool)
        ensures
            r == self.revert,
    {
        self.revert
    }
}

/// What a finished instantiation returns.
#[derive(Clone, Debug)]
pub struct InstantiateReturn {
    /// The address the new contract lives at.
    pub account_id: AccountId,
    /// The constructor's execution result.
    pub result: ExecReturn,
}

/// The outcome of an instantiation: its result as data, the gas consumed,
/// and the events emitted while it ran.
#[derive(Debug)]
pub struct InstantiateOutcome {
    /// The instantiation's result, failure included, as data.
    pub result: Result<InstantiateReturn, ContractError>,
    /// The gas the instantiation consumed.
    pub gas_consumed: u64,
    /// The events emitted while the instantiation ran.
    pub events: Option<Vec<Event>>,
}

/// The outcome of a contract call: its result as data, the gas consumed, the
/// events emitted while it ran, and the debug output it produced.
#[derive(Debug)]
pub struct ExecOutcome {
    /// The call's result, failure included, as data.
    pub result: Result<ExecReturn, ContractError>,
    /// The gas the call consumed.
    pub gas_consumed: u64,
    /// The events emitted while the call ran.
    pub events: Option<Vec<Event>>,
    /// The debug output the call produced.
    pub debug_message: Vec<u8>,
}

/// The newline-separated non-empty lines of `s`, each byte read as one
/// character, accumulated from position `i` with the line built so far and
/// the lines already complete.
pub open spec fn spec_debug_lines_from(
    s: Seq<u8>,
    i: int,
    cur: Seq<char>,
    acc: Seq<Seq<char>>,
) -> Seq<Seq<char>>
    decreases s.len() - i,
{
    if i < 0 || i >= s.len() {
        if cur.len() > 0 {
            acc.push(cur)
        } else {
            acc
        }
    } else if s[i] == 10 {
        spec_debug_lines_from(
            s,
            i + 1,
            Seq::empty(),
            if cur.len() > 0 {
                acc.push(cur)
            } else {
                acc
            },
        )
    } else {
        spec_debug_lines_from(s, i + 1, cur.push(s[i] as char), acc)
    }
}

/// The newline-separated non-empty lines of `s`, each byte read as one
/// character.
pub open spec fn spec_debug_lines(s: Seq<u8>) -> Seq<Seq<char>> {
    spec_debug_lines_from(s, 0, Seq::empty(), Seq::empty())
}

/// Relies on String::push: pushing one character appends exactly it.
#[verifier::external_body]
fn push_char(s: &mut String, c: char)
    ensures
        final(s)@ == old(s)@.push(c),
{
    s.push(c);
}

/// Converts a captured debug buffer to its newline-split lines, each byte
/// read as one character, empty lines dropped.
pub fn decode_debug_buffer(buffer: &[u8]) -> (r: Vec<String>)
    ensures
        r@.len() == spec_debug_lines(buffer@).len(),
        forall|i: int| 0 <= i < r@.len() ==> r@[i]@ == spec_debug_lines(buffer@)[i],
{
    let ghost s = buffer@;
    let mut out: Vec<String> = Vec::new();
    let mut cur = String::new();
    let mut cur_len: usize = 0;
    let mut i: usize = 0;
    proof {
        assert(out@.map_values(|st: String| st@) =~= Seq::<Seq<char>>::empty());
    }
    while i < buffer.len()
        invariant
            i <= s.len(),
            s == buffer@,
            cur_len == cur@.len(),
            cur_len <= i,
            spec_debug_lines(s) == spec_debug_lines_from(
                s,
                i as int,
                cur@,
                out@.map_values(|st: String| st@),
            ),
        decreases s.len() - i,
    {
        let ghost acc_pre = out@.map_values(|st: String| st@);
        let ghost cur_pre = cur@;
        let b = buffer[i];
        if b == 10 {
            if cur_len > 0 {
                out.push(cur);
                proof {
                    assert(out@.map_values(|st: String| st@) =~= acc_pre.push(
                        out@.last()@,
                    ));
                    assert(out@.last()@ == cur_pre);
                }
                cur = String::new();
                cur_len = 0;
            }
            proof {
                assert(cur@ =~= Seq::<char>::empty());
            }
        } else {
            push_char(&mut cur, b as char);
            cur_len = cur_len + 1;
        }
        i = i + 1;
    }
    if cur_len > 0 {
        let ghost acc_pre = out@.map_values(|st: String| st@);
        out.push(cur);
        proof {
            assert(out@.map_values(|st: String| st@) =~= acc_pre.push(out@.last()@));
        }
    }
    proof {
        assert(forall|j: int|
            0 <= j < out@.len() ==> out@[j]@ == out@.map_values(|st: String| st@)[j]);
    }
    out
}

/// Whether module bytes are acceptable code: non-empty and within the size
/// cap.
pub open spec fn spec_code_valid(code: Seq<u8>) -> bool {
    0 < code.len() <= MAX_CODE_LEN
}

/// The storage deposit held for stored module bytes: one per byte and one for
/// the item.
pub open spec fn spec_code_deposit(code: Seq<u8>) -> u128 {
    (code.len() + 1) as u128
}

/// The output data the sandbox's built-in module emits on every call.
pub open spec fn spec_contract_output() -> Seq<u8> {
    seq![0u8, 0u8, 0u8, 0u8]
}

/// The debug line the sandbox's built-in module prints on every call.
pub open spec fn spec_debug_note() -> Seq<u8> {
    seq![99u8, 97u8, 108u8, 108u8, 101u8, 100u8, 10u8]
}

/// Whether module bytes are acceptable code.
pub fn code_valid(code: &[u8]) -> (r: bool)
    ensures
        r == spec_code_valid(code@),
{
    0 < code.len() && code.len() <= MAX_CODE_LEN
}

/// The storage deposit held for stored module bytes.
pub fn code_deposit(code: &[u8]) -> (r: u128)
    requires
        code@.len() <= MAX_CODE_LEN,
    ensures
        r == spec_code_deposit(code@),
{
    (code.len() as u128) + 1
}

/// The output data the sandbox's built-in module emits on every call.
pub fn contract_output() -> (r: Vec<u8>)
    ensures
        r@ == spec_contract_output(),
{
    let mut v: Vec<u8> = Vec::new();
    v.push(0);
    v.push(0);
    v.push(0);
    v.push(0);
    proof {
        assert(v@ =~= spec_contract_output());
    }
    v
}

/// The debug line the sandbox's built-in module prints on every call.
pub fn debug_note() -> (r: Vec<u8>)
    ensures
        r@ == spec_debug_note(),
{
    let mut v: Vec<u8> = Vec::new();
    v.push(99);
    v.push(97);
    v.push(108);
    v.push(108);
    v.push(101);
    v.push(100);
    v.push(10);
    proof {
        assert(v@ =~= spec_debug_note());
    }
    v
}

} // verus!
