//! Laws of the sandbox that relate several operations, proved once and for
//! all from the operations' contracts.
use crate::sandbox::SandboxView;
use vstd::prelude::*;

verus! {

/// Every observable of the chain — height, parent hash, timestamp, event log,
/// balances, stored code and contract instances — is a function of the
/// storage mapping alone. A dry run ensures the storage mapping after the
/// call equals the one before it, whatever the supplied closure did — block
/// building and nested dry runs included — so every one of these observables,
/// the block-height counter among them, is rolled back with it.
pub proof fn lemma_storage_determines_state(a: SandboxView, b: SandboxView)
    requires
        a.storage == b.storage,
    ensures
        a.height() == b.height(),
        a.parent_hash() == b.parent_hash(),
        a.timestamp() == b.timestamp(),
        a.events() == b.events(),
        forall|acct: Seq<u8>| a.balance_of(acct) == b.balance_of(acct),
        forall|h: Seq<u8>| a.code_of(h) == b.code_of(h),
        forall|acct: Seq<u8>| a.contract_code_of(acct) == b.contract_code_of(acct),
{
}

/// Minting accumulates additively: two mints into one account, each adding
/// its amount to the balance it found, leave the balance larger by the sum of
/// the amounts.
pub proof fn lemma_mints_accumulate(
    s0: SandboxView,
    s1: SandboxView,
    s2: SandboxView,
    account: Seq<u8>,
    first: u128,
    second: u128,
)
    requires
        s1.balance_of(account) == s0.balance_of(account) + first,
        s2.balance_of(account) == s1.balance_of(account) + second,
    ensures
        s2.balance_of(account) == s0.balance_of(account) + first + second,
{
}

} // verus!
