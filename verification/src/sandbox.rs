//! The sandbox: a single shared, process-resident chain state with an
//! execution context that gives caller-supplied closures exclusive, reentrant
//! access, a dry-run operation whose storage effects are rolled back
//! atomically, the block-lifecycle controls, and the domain operations
//! (balances, contracts, events, raw dispatch, timestamps).
use crate::account::{AccountId, CodeHash, Origin};
use crate::chain::{
    chain_wf, read_balance, read_event_count, read_height, read_timestamp, spec_balance_of,
    spec_code_of, spec_contract_code_of, spec_events_of, spec_height_of, spec_parent_hash_of,
    spec_timestamp_of, ChainMap,
};
use crate::codec::{copy_bytes, u128_to_le_bytes};
use crate::contracts_api::{
    spec_code_deposit, spec_code_valid, ContractError, Determinism, ExecOutcome, ExecReturn,
    InstantiateOutcome, InstantiateReturn, UploadError, UploadReturn, GAS_CALL, GAS_INSTANTIATE,
};
use crate::events::{Event, EventView};
use crate::extension::{Extension, ExtensionRegistry, ExtensionView};
use crate::keys::{
    balance_key, event_count_key, height_key, parent_hash_key, timestamp_key,
};
use crate::runtime::{BlockBuilder, TIMESTAMP_STEP};
use crate::storage::StorageBackend;
use vstd::bytes::{lemma_auto_spec_u64_to_from_le_bytes, u64_to_le_bytes};
use vstd::prelude::*;

verus! {

/// The balance the default actor is credited with at genesis.
pub const INITIAL_BALANCE: u128 = 1_000_000_000_000_000;

/// The genesis block height.
pub const GENESIS_HEIGHT: u64 = 1;

/// The default actor's identifier bytes.
pub open spec fn spec_default_actor() -> Seq<u8> {
    Seq::new(32, |i: int| 1u8)
}

/// The all-zero hash handed to the first block as its parent.
pub open spec fn spec_zero_hash() -> Seq<u8> {
    Seq::new(32, |i: int| 0u8)
}

/// The configuration a sandbox is constructed from: the module parameters
/// validated once at construction time.
#[derive(Clone, Copy, Debug)]
pub struct SandboxConfig {
    /// The balance credited to the default actor at genesis.
    pub initial_balance: u128,
    /// The account that signs where no other identity is given.
    pub default_actor: AccountId,
}

impl Default for SandboxConfig {
    /// The stock configuration: the default actor holds the initial balance.
    fn default() -> (r: SandboxConfig)
        ensures
            r.initial_balance == INITIAL_BALANCE,
            r.default_actor@ == spec_default_actor(),
    {
        let actor: AccountId = [1u8; 32];
        proof {
            assert(actor@ =~= spec_default_actor());
        }
        SandboxConfig { initial_balance: INITIAL_BALANCE, default_actor: actor }
    }
}

/// The mathematical view of a sandbox: its chain storage mapping and its
/// extension registry mapping.
pub struct SandboxView {
    /// The chain storage.
    pub storage: ChainMap,
    /// The registered capability objects, by type identifier.
    pub extensions: Map<u32, ExtensionView>,
}

impl SandboxView {
    /// The current block height.
    pub open spec fn height(self) -> u64 {
        spec_height_of(self.storage)
    }

    /// The parent hash recorded when the current block was opened.
    pub open spec fn parent_hash(self) -> Seq<u8> {
        spec_parent_hash_of(self.storage)
    }

    /// The current block's timestamp.
    pub open spec fn timestamp(self) -> u64 {
        spec_timestamp_of(self.storage)
    }

    /// The event log of the current block.
    pub open spec fn events(self) -> Seq<EventView> {
        spec_events_of(self.storage)
    }

    /// The free balance of account `a`.
    pub open spec fn balance_of(self, a: Seq<u8>) -> u128 {
        spec_balance_of(self.storage, a)
    }

    /// The module bytes stored under content hash `h`, if any.
    pub open spec fn code_of(self, h: Seq<u8>) -> Option<Seq<u8>> {
        spec_code_of(self.storage, h)
    }

    /// The code hash of the contract at address `a`, if any.
    pub open spec fn contract_code_of(self, a: Seq<u8>) -> Option<Seq<u8>> {
        spec_contract_code_of(self.storage, a)
    }

    /// Well-formedness of the chain storage.
    pub open spec fn wf(self) -> bool {
        chain_wf(self.storage)
    }

    /// Both states hold the same balance for every account.
    pub open spec fn same_balances(self, o: SandboxView) -> bool {
        forall|a: Seq<u8>| self.balance_of(a) == o.balance_of(a)
    }

    /// Both states hold the same module bytes under every content hash.
    pub open spec fn same_code(self, o: SandboxView) -> bool {
        forall|h: Seq<u8>| self.code_of(h) == o.code_of(h)
    }

    /// Both states hold the same contract at every address.
    pub open spec fn same_contracts(self, o: SandboxView) -> bool {
        forall|a: Seq<u8>| self.contract_code_of(a) == o.contract_code_of(a)
    }
}

/// The sandbox: the execution context owning the storage backend and the
/// extension registry, and the operation surface over them. All state
/// reads and writes go through it, one logical operation at a time.
pub struct Sandbox {
    backend: StorageBackend,
    registry: ExtensionRegistry,
}

impl View for Sandbox {
    type V = SandboxView;

    closed spec fn view(&self) -> SandboxView {
        SandboxView { storage: self.backend@, extensions: self.registry@ }
    }
}

impl Sandbox {
    /// The sandbox's invariant: the backend's keys are distinct and the chain
    /// entries are well-formed.
    pub closed spec fn wf(self) -> bool {
        self.backend.wf() && chain_wf(self.backend@)
    }

    /// Construct a sandbox: genesis storage credits the configured initial
    /// balance to the configured default actor, and block 1 is opened, so the
    /// event log starts empty and the timestamp starts at one block step.
    pub fn new(config: SandboxConfig) -> (r: Sandbox)
        ensures
            r.wf(),
            r@.wf(),
            r@.height() == GENESIS_HEIGHT,
            r@.parent_hash() == spec_zero_hash(),
            r@.timestamp() == TIMESTAMP_STEP,
            r@.events() == Seq::<EventView>::empty(),
            r@.balance_of(config.default_actor@) == config.initial_balance,
            forall|a: Seq<u8>| a != config.default_actor@ ==> r@.balance_of(a) == 0,
            forall|h: Seq<u8>| r@.code_of(h) is None,
            forall|a: Seq<u8>| r@.contract_code_of(a) is None,
            r@.extensions == Map::<u32, ExtensionView>::empty(),
    {
        proof {
            lemma_auto_spec_u64_to_from_le_bytes();
            crate::keys::lemma_key_tags();
            crate::codec::lemma_u128_round_trip(config.initial_balance);
        }
        let zero: [u8; 32] = [0u8; 32];
        proof {
            assert(zero@ =~= spec_zero_hash());
        }
        let mut backend = StorageBackend::new();
        backend.set(height_key(), u64_to_le_bytes(0));
        backend.set(parent_hash_key(), copy_bytes(zero.as_slice()));
        backend.set(timestamp_key(), u64_to_le_bytes(0));
        backend.set(event_count_key(), u64_to_le_bytes(0));
        backend.set(
            balance_key(&config.default_actor),
            u128_to_le_bytes(config.initial_balance),
        );
        proof {
            let m = backend@;
            assert(chain_wf(m)) by {
                assert forall|i: u64| i < crate::chain::spec_event_count_of(m) implies
                    m.contains_key(#[trigger] crate::keys::spec_event_key(i))
                    && crate::events::spec_decode_event(m[crate::keys::spec_event_key(i)]).is_some()
                by {
                    assert(crate::chain::spec_event_count_of(m) == 0);
                }
                assert forall|a: Seq<u8>| m.contains_key(
                    #[trigger] crate::keys::spec_balance_key(a),
                ) implies m[crate::keys::spec_balance_key(a)].len() == 16 by {}
                assert forall|a: Seq<u8>| m.contains_key(
                    #[trigger] crate::keys::spec_contract_key(a),
                ) implies m[crate::keys::spec_contract_key(a)].len() == 32 by {}
            }
            assert forall|a: Seq<u8>| a != config.default_actor@ implies spec_balance_of(m, a)
                == 0 by {
                if crate::keys::spec_balance_key(a) == crate::keys::spec_balance_key(
                    config.default_actor@,
                ) {
                    crate::keys::lemma_tagged_key_injective(
                        crate::keys::TAG_BALANCE,
                        a,
                        config.default_actor@,
                    );
                }
            }
            assert(spec_balance_of(m, config.default_actor@) == config.initial_balance);
            assert forall|h: Seq<u8>| spec_code_of(m, h) is None by {}
            assert forall|a: Seq<u8>| spec_contract_code_of(m, a) is None by {}
        }
        BlockBuilder::initialize_block(&mut backend, GENESIS_HEIGHT, &zero);
        Sandbox { backend, registry: ExtensionRegistry::new() }
    }

    /// The account that signs where no other identity is given.
    pub fn default_actor() -> (r: AccountId)
        ensures
            r@ == spec_default_actor(),
    {
        let actor: AccountId = [1u8; 32];
        proof {
            assert(actor@ =~= spec_default_actor());
        }
        actor
    }

    /// The calling identity of an account: a signed origin.
    pub fn convert_account_to_origin(account: AccountId) -> (r: Origin)
        ensures
            r == Origin::Signed(account),
    {
        Origin::Signed(account)
    }

    /// Run `op` with exclusive access to the live state; every mutation it
    /// makes is durable once the call returns. Reentrant: `op` receives the
    /// sandbox itself, so operations invoked from inside `op` act on the same
    /// live state.
    pub fn execute_with<T, F: FnOnce(&mut Sandbox) -> T>(&mut self, op: F) -> (r: T)
        requires
            forall|m: &mut Sandbox| *m == *old(self) ==> call_requires(op, (m,)),
        ensures
            exists|m: &mut Sandbox|
                #![trigger call_ensures(op, (m,), r)]
                *m == *old(self) && call_ensures(op, (m,), r) && *final(self) == *final(m),
    {
        op(self)
    }

    /// Run `op` against the live state and roll every storage effect back:
    /// the storage mapping after the call is exactly the one before it, and
    /// only `op`'s return value escapes. Inside `op` the live state shows
    /// `op`'s own mutations, so nested operations, block building and nested
    /// dry runs all work; capability registrations made by `op` survive, as
    /// they are not storage.
    pub fn dry_run<T, F: FnOnce(&mut Sandbox) -> T>(&mut self, op: F) -> (r: T)
        requires
            old(self).wf(),
            forall|m: &mut Sandbox| *m == *old(self) ==> call_requires(op, (m,)),
        ensures
            final(self).wf(),
            final(self)@.storage == old(self)@.storage,
            exists|m: &mut Sandbox|
                #![trigger call_ensures(op, (m,), r)]
                *m == *old(self) && call_ensures(op, (m,), r) && final(self)@.extensions
                    == final(m)@.extensions,
    {
        let backup = self.backend.as_backend();
        let r = op(self);
        let committed = self.backend.commit_all();
        proof {
            assert(committed is Ok);
        }
        self.backend.install(backup);
        r
    }

    /// Attach a capability object to the execution context, overwriting any
    /// earlier one with the same type identifier. Storage is not touched.
    pub fn register_extension(&mut self, ext: Extension)
        ensures
            final(self)@.storage == old(self)@.storage,
            final(self)@.extensions == old(self)@.extensions.insert(ext.spec_type_id(), ext@),
            final(self).wf() == old(self).wf(),
    {
        self.registry.register(ext);
    }

    /// The registered debug-output capability, copied out, if any.
    pub fn debug_extension(&self) -> (r: Option<Extension>)
        ensures
            match r {
                Some(e) => self@.extensions.contains_key(crate::extension::DEBUG_EXTENSION_ID)
                    && self@.extensions[crate::extension::DEBUG_EXTENSION_ID] == e@,
                None => !self@.extensions.contains_key(crate::extension::DEBUG_EXTENSION_ID),
            },
    {
        self.registry.debug_extension()
    }

    /// The current height of the chain.
    pub fn block_number(&self) -> (r: u64)
        requires
            self.wf(),
        ensures
            r == self@.height(),
    {
        read_height(&self.backend)
    }

    /// The timestamp of the current block.
    pub fn get_timestamp(&self) -> (r: u64)
        requires
            self.wf(),
        ensures
            r == self@.timestamp(),
    {
        read_timestamp(&self.backend)
    }

    /// Set the timestamp of the current block.
    pub fn set_timestamp(&mut self, timestamp: u64)
        requires
            old(self).wf(),
        ensures
            final(self).wf(),
            final(self)@.timestamp() == timestamp,
            final(self)@.height() == old(self)@.height(),
            final(self)@.parent_hash() == old(self)@.parent_hash(),
            final(self)@.events() == old(self)@.events(),
            final(self)@.same_balances(old(self)@),
            final(self)@.same_code(old(self)@),
            final(self)@.same_contracts(old(self)@),
            final(self)@.extensions == old(self)@.extensions,
    {
        proof {
            lemma_auto_spec_u64_to_from_le_bytes();
            crate::keys::lemma_key_tags();
            crate::chain::lemma_chain_insert(
                self.backend@,
                crate::keys::spec_timestamp_key(),
                vstd::bytes::spec_u64_to_le_bytes(timestamp),
            );
        }
        self.backend.set(timestamp_key(), u64_to_le_bytes(timestamp));
    }
}

impl Default for Sandbox {
    /// A sandbox over the stock configuration.
    fn default() -> (r: Sandbox)
        ensures
            r.wf(),
            r@.wf(),
            r@.height() == GENESIS_HEIGHT,
            r@.timestamp() == TIMESTAMP_STEP,
            r@.events() == Seq::<EventView>::empty(),
            r@.balance_of(spec_default_actor()) == INITIAL_BALANCE,
            forall|a: Seq<u8>| a != spec_default_actor() ==> r@.balance_of(a) == 0,
            forall|h: Seq<u8>| r@.code_of(h) is None,
            forall|a: Seq<u8>| r@.contract_code_of(a) is None,
            r@.extensions == Map::<u32, ExtensionView>::empty(),
    {
        Sandbox::new(SandboxConfig::default())
    }
}

/// The error minting can surface.
#[derive(Clone, Copy, PartialEq, Eq, Structural, Debug)]
pub enum MintError {
    /// The new balance would not fit the balance type.
    Overflow,
}

/// The error a dispatch can surface.
#[derive(Clone, Copy, PartialEq, Eq, Structural, Debug)]
pub enum DispatchError {
    /// The call demands a signed origin.
    BadOrigin,
    /// The sending account holds less than the transferred value.
    InsufficientBalance,
    /// The receiving balance would not fit the balance type.
    Overflow,
}

/// The balances module's dispatchable calls.
#[derive(Clone, Copy, Debug)]
pub enum BalancesCall {
    /// Move `value` from the signing account to `dest`, even if the sender
    /// is emptied.
    TransferAllowDeath { dest: AccountId, value: u128 },
}

/// A state-transition request submitted through `runtime_call`.
#[derive(Clone, Copy, Debug)]
pub enum RuntimeCall {
    /// A call into the balances module.
    Balances(BalancesCall),
}

impl Sandbox {
    /// Append one event to the current block's log.
    fn emit_event(&mut self, e: &Event)
        requires
            old(self).wf(),
            e@.wf(),
            old(self)@.events().len() < 0xffff_ffff_ffff_ffff,
        ensures
            final(self).wf(),
            final(self)@.events() == old(self)@.events().push(e@),
            final(self)@.height() == old(self)@.height(),
            final(self)@.parent_hash() == old(self)@.parent_hash(),
            final(self)@.timestamp() == old(self)@.timestamp(),
            final(self)@.same_balances(old(self)@),
            final(self)@.same_code(old(self)@),
            final(self)@.same_contracts(old(self)@),
            final(self)@.extensions == old(self)@.extensions,
    {
        proof {
            lemma_auto_spec_u64_to_from_le_bytes();
            crate::keys::lemma_key_tags();
            crate::events::lemma_event_round_trip(e@);
            crate::chain::lemma_chain_append_event(
                self.backend@,
                e@,
                crate::events::spec_encode_event(e@),
            );
        }
        let c = read_event_count(&self.backend);
        let encoded = crate::events::encode_event(e);
        self.backend.set(crate::keys::event_key(c), encoded);
        self.backend.set(event_count_key(), u64_to_le_bytes(c + 1));
    }

    /// Mint `amount` into an account's spendable balance and return the new
    /// balance. Fails exactly when the new balance would not fit; a minting
    /// event is appended on success.
    pub fn mint_into(&mut self, address: &AccountId, amount: u128) -> (r: Result<u128, MintError>)
        requires
            old(self).wf(),
            old(self)@.events().len() < 0xffff_ffff_ffff_ffff,
        ensures
            final(self).wf(),
            final(self)@.extensions == old(self)@.extensions,
            old(self)@.balance_of(address@) + amount <= u128::MAX ==> {
                &&& r == Result::<u128, MintError>::Ok(
                    (old(self)@.balance_of(address@) + amount) as u128,
                )
                &&& final(self)@.balance_of(address@) == old(self)@.balance_of(address@) + amount
                &&& forall|a: Seq<u8>|
                    a != address@ ==> final(self)@.balance_of(a) == old(self)@.balance_of(a)
                &&& final(self)@.events() == old(self)@.events().push(
                    EventView::BalancesMinted { who: address@, amount },
                )
                &&& final(self)@.height() == old(self)@.height()
                &&& final(self)@.parent_hash() == old(self)@.parent_hash()
                &&& final(self)@.timestamp() == old(self)@.timestamp()
                &&& final(self)@.same_code(old(self)@)
                &&& final(self)@.same_contracts(old(self)@)
            },
            old(self)@.balance_of(address@) + amount > u128::MAX ==> {
                &&& r == Result::<u128, MintError>::Err(MintError::Overflow)
                &&& *final(self) == *old(self)
            },
    {
        let bal = read_balance(&self.backend, address);
        if amount > u128::MAX - bal {
            return Err(MintError::Overflow);
        }
        let new_balance = bal + amount;
        proof {
            crate::keys::lemma_key_tags();
            crate::codec::lemma_u128_round_trip(new_balance);
            crate::chain::lemma_chain_insert(
                self.backend@,
                crate::keys::spec_balance_key(address@),
                crate::codec::spec_u128_to_le_bytes(new_balance),
            );
        }
        self.backend.set(balance_key(address), u128_to_le_bytes(new_balance));
        proof {
            assert forall|a: Seq<u8>| a != address@ implies self@.balance_of(a) == old(self)@.balance_of(a) by {
                if crate::keys::spec_balance_key(a) == crate::keys::spec_balance_key(address@) {
                    crate::keys::lemma_tagged_key_injective(crate::keys::TAG_BALANCE, a, address@);
                }
            }
        }
        self.emit_event(&Event::BalancesMinted { who: *address, amount });
        Ok(new_balance)
    }

    /// The spendable balance of an account: a pure read.
    pub fn free_balance(&self, address: &AccountId) -> (r: u128)
        requires
            self.wf(),
        ensures
            r == self@.balance_of(address@),
    {
        read_balance(&self.backend, address)
    }

    /// The events of the current block so far, in order.
    pub fn events(&self) -> (r: Vec<Event>)
        requires
            self.wf(),
        ensures
            r@.len() == self@.events().len(),
            forall|i: int| 0 <= i < r@.len() ==> r@[i]@ == self@.events()[i],
    {
        let count = read_event_count(&self.backend);
        let mut out: Vec<Event> = Vec::new();
        let mut i: u64 = 0;
        while i < count
            invariant
                self.wf(),
                i <= count,
                count == crate::chain::spec_event_count_of(self.backend@),
                out@.len() == i,
                forall|j: int| 0 <= j < i ==> out@[j]@ == self@.events()[j],
            decreases count - i,
        {
            let key = crate::keys::event_key(i);
            let value = match self.backend.get(key.as_slice()) {
                Some(v) => v,
                None => vstd::pervasive::unreached(),
            };
            let e = match crate::events::decode_event(value.as_slice()) {
                Some(e) => e,
                None => vstd::pervasive::unreached(),
            };
            out.push(e);
            i = i + 1;
        }
        out
    }

    /// Clear the current block's event log.
    pub fn reset_events(&mut self)
        requires
            old(self).wf(),
        ensures
            final(self).wf(),
            final(self)@.events() == Seq::<EventView>::empty(),
            final(self)@.height() == old(self)@.height(),
            final(self)@.parent_hash() == old(self)@.parent_hash(),
            final(self)@.timestamp() == old(self)@.timestamp(),
            final(self)@.same_balances(old(self)@),
            final(self)@.same_code(old(self)@),
            final(self)@.same_contracts(old(self)@),
            final(self)@.extensions == old(self)@.extensions,
    {
        proof {
            lemma_auto_spec_u64_to_from_le_bytes();
            crate::chain::lemma_chain_reset_events(self.backend@);
        }
        self.backend.set(event_count_key(), u64_to_le_bytes(0));
    }

    /// Submit a state-transition request under a calling identity. A transfer
    /// demands a signed origin, enough spendable balance, and room in the
    /// receiving balance; it moves the value and appends a transfer event.
    pub fn runtime_call(&mut self, call: RuntimeCall, origin: Origin) -> (r: Result<
        (),
        DispatchError,
    >)
        requires
            old(self).wf(),
            old(self)@.events().len() < 0xffff_ffff_ffff_ffff,
        ensures
            final(self).wf(),
            final(self)@.extensions == old(self)@.extensions,
            match (call, origin) {
                (RuntimeCall::Balances(BalancesCall::TransferAllowDeath { dest, value }),
                    Origin::Signed(from)) => {
                    if old(self)@.balance_of(from@) < value {
                        r == Result::<(), DispatchError>::Err(DispatchError::InsufficientBalance)
                            && *final(self) == *old(self)
                    } else if from@ != dest@ && old(self)@.balance_of(dest@) + value > u128::MAX {
                        r == Result::<(), DispatchError>::Err(DispatchError::Overflow) && *final(self) == *old(self)
                    } else {
                        &&& r == Result::<(), DispatchError>::Ok(())
                        &&& from@ == dest@ ==> final(self)@.same_balances(old(self)@)
                        &&& from@ != dest@ ==> {
                            &&& final(self)@.balance_of(from@) == old(self)@.balance_of(from@)
                                - value
                            &&& final(self)@.balance_of(dest@) == old(self)@.balance_of(dest@)
                                + value
                            &&& forall|a: Seq<u8>|
                                a != from@ && a != dest@ ==> final(self)@.balance_of(a) == old(self)@.balance_of(a)
                        }
                        &&& final(self)@.events() == old(self)@.events().push(
                            EventView::BalancesTransfer { from: from@, to: dest@, amount: value },
                        )
                        &&& final(self)@.height() == old(self)@.height()
                        &&& final(self)@.parent_hash() == old(self)@.parent_hash()
                        &&& final(self)@.timestamp() == old(self)@.timestamp()
                        &&& final(self)@.same_code(old(self)@)
                        &&& final(self)@.same_contracts(old(self)@)
                    }
                },
                _ => r == Result::<(), DispatchError>::Err(DispatchError::BadOrigin) && *final(self) == *old(self),
            },
    {
        let from = match origin {
            Origin::Signed(a) => a,
            Origin::Root => {
                return Err(DispatchError::BadOrigin);
            },
            Origin::Unsigned => {
                return Err(DispatchError::BadOrigin);
            },
        };
        let RuntimeCall::Balances(BalancesCall::TransferAllowDeath { dest, value }) = call;
        let from_balance = read_balance(&self.backend, &from);
        if from_balance < value {
            return Err(DispatchError::InsufficientBalance);
        }
        if !crate::account::id_eq(&from, &dest) {
            let dest_balance = read_balance(&self.backend, &dest);
            if value > u128::MAX - dest_balance {
                return Err(DispatchError::Overflow);
            }
            let new_from = from_balance - value;
            let new_dest = dest_balance + value;
            proof {
                crate::keys::lemma_key_tags();
                crate::codec::lemma_u128_round_trip(new_from);
                crate::chain::lemma_chain_insert(
                    self.backend@,
                    crate::keys::spec_balance_key(from@),
                    crate::codec::spec_u128_to_le_bytes(new_from),
                );
            }
            self.backend.set(balance_key(&from), u128_to_le_bytes(new_from));
            proof {
                crate::keys::lemma_key_tags();
                crate::codec::lemma_u128_round_trip(new_dest);
                crate::chain::lemma_chain_insert(
                    self.backend@,
                    crate::keys::spec_balance_key(dest@),
                    crate::codec::spec_u128_to_le_bytes(new_dest),
                );
                if crate::keys::spec_balance_key(from@) == crate::keys::spec_balance_key(dest@) {
                    crate::keys::lemma_tagged_key_injective(crate::keys::TAG_BALANCE, from@, dest@);
                }
            }
            self.backend.set(balance_key(&dest), u128_to_le_bytes(new_dest));
            proof {
                assert forall|a: Seq<u8>| a != from@ && a != dest@ implies self@.balance_of(a)
                    == old(self)@.balance_of(a) by {
                    if crate::keys::spec_balance_key(a) == crate::keys::spec_balance_key(from@) {
                        crate::keys::lemma_tagged_key_injective(crate::keys::TAG_BALANCE, a, from@);
                    }
                    if crate::keys::spec_balance_key(a) == crate::keys::spec_balance_key(dest@) {
                        crate::keys::lemma_tagged_key_injective(crate::keys::TAG_BALANCE, a, dest@);
                    }
                }
            }
        }
        self.emit_event(
            &Event::BalancesTransfer { from, to: dest, amount: value },
        );
        Ok(())
    }

    /// Finalize the open block, advance the height by one, and open the next
    /// block with the finalized block's hash as parent; the new height is
    /// returned. The height stops at the largest value the counter holds.
    pub fn build_block(&mut self) -> (r: u64)
        requires
            old(self).wf(),
        ensures
            final(self).wf(),
            r == final(self)@.height(),
            final(self)@.height() == crate::codec::spec_sat_add_u64(old(self)@.height(), 1),
            final(self)@.parent_hash() == crate::hashing::spec_block_hash(
                old(self)@.height(),
                old(self)@.parent_hash(),
            ),
            final(self)@.events() == Seq::<EventView>::empty(),
            final(self)@.timestamp() == crate::codec::spec_sat_add_u64(
                old(self)@.timestamp(),
                TIMESTAMP_STEP,
            ),
            final(self)@.same_balances(old(self)@),
            final(self)@.same_code(old(self)@),
            final(self)@.same_contracts(old(self)@),
            final(self)@.extensions == old(self)@.extensions,
    {
        let current = read_height(&self.backend);
        let hash = match BlockBuilder::finalize_block(&self.backend, current) {
            Ok(h) => h,
            Err(_) => vstd::pervasive::unreached(),
        };
        let next = crate::codec::sat_add_u64(current, 1);
        BlockBuilder::initialize_block(&mut self.backend, next, &hash);
        next
    }

    /// Build `n` empty blocks and return the new height; building zero blocks
    /// changes nothing and returns the current height.
    pub fn build_blocks(&mut self, n: u32) -> (r: u64)
        requires
            old(self).wf(),
        ensures
            final(self).wf(),
            r == final(self)@.height(),
            old(self)@.height() + n <= u64::MAX ==> final(self)@.height() == old(self)@.height()
                + n,
            old(self)@.height() + n > u64::MAX ==> final(self)@.height() == u64::MAX,
            n == 0 ==> *final(self) == *old(self),
            n > 0 ==> final(self)@.events() == Seq::<EventView>::empty(),
            final(self)@.timestamp() == crate::codec::spec_sat_add_u64(
                old(self)@.timestamp(),
                (n * TIMESTAMP_STEP) as u64,
            ),
            final(self)@.same_balances(old(self)@),
            final(self)@.same_code(old(self)@),
            final(self)@.same_contracts(old(self)@),
            final(self)@.extensions == old(self)@.extensions,
    {
        if n == 0 {
            return self.block_number();
        }
        let mut i: u32 = 0;
        let mut last: u64 = 0;
        while i < n
            invariant
                self.wf(),
                i <= n,
                0 < n,
                i < n ==> (old(self)@.height() + i <= u64::MAX ==> self@.height() == old(self)@.height() + i) && (old(self)@.height() + i > u64::MAX ==> self@.height()
                    == u64::MAX),
                i == n ==> (old(self)@.height() + n <= u64::MAX ==> self@.height() == old(self)@.height() + n) && (old(self)@.height() + n > u64::MAX ==> self@.height()
                    == u64::MAX),
                i > 0 ==> last == self@.height(),
                i > 0 ==> self@.events() == Seq::<EventView>::empty(),
                self@.timestamp() == crate::codec::spec_sat_add_u64(
                    old(self)@.timestamp(),
                    (i * TIMESTAMP_STEP) as u64,
                ),
                self@.same_balances(old(self)@),
                self@.same_code(old(self)@),
                self@.same_contracts(old(self)@),
                self@.extensions == old(self)@.extensions,
            decreases n - i,
        {
            last = self.build_block();
            i = i + 1;
        }
        last
    }
}

impl Sandbox {
    /// Move `value` between two accounts; the callers have already checked
    /// funds and room.
    fn transfer_unchecked(&mut self, from: &AccountId, to: &AccountId, value: u128)
        requires
            old(self).wf(),
            old(self)@.balance_of(from@) >= value,
            from@ != to@ ==> old(self)@.balance_of(to@) + value <= u128::MAX,
        ensures
            final(self).wf(),
            from@ == to@ ==> final(self)@.same_balances(old(self)@),
            from@ != to@ ==> final(self)@.balance_of(from@) == old(self)@.balance_of(from@)
                - value && final(self)@.balance_of(to@) == old(self)@.balance_of(to@) + value
                && forall|a: Seq<u8>|
                a != from@ && a != to@ ==> final(self)@.balance_of(a) == old(self)@.balance_of(a),
            final(self)@.events() == old(self)@.events(),
            final(self)@.height() == old(self)@.height(),
            final(self)@.parent_hash() == old(self)@.parent_hash(),
            final(self)@.timestamp() == old(self)@.timestamp(),
            final(self)@.same_code(old(self)@),
            final(self)@.same_contracts(old(self)@),
            final(self)@.extensions == old(self)@.extensions,
    {
        if crate::account::id_eq(from, to) {
            return ;
        }
        let from_balance = read_balance(&self.backend, from);
        let to_balance = read_balance(&self.backend, to);
        let new_from = from_balance - value;
        let new_to = to_balance + value;
        proof {
            crate::keys::lemma_key_tags();
            crate::codec::lemma_u128_round_trip(new_from);
            crate::chain::lemma_chain_insert(
                self.backend@,
                crate::keys::spec_balance_key(from@),
                crate::codec::spec_u128_to_le_bytes(new_from),
            );
        }
        self.backend.set(balance_key(from), u128_to_le_bytes(new_from));
        proof {
            crate::keys::lemma_key_tags();
            crate::codec::lemma_u128_round_trip(new_to);
            crate::chain::lemma_chain_insert(
                self.backend@,
                crate::keys::spec_balance_key(to@),
                crate::codec::spec_u128_to_le_bytes(new_to),
            );
            if crate::keys::spec_balance_key(from@) == crate::keys::spec_balance_key(to@) {
                crate::keys::lemma_tagged_key_injective(crate::keys::TAG_BALANCE, from@, to@);
            }
        }
        self.backend.set(balance_key(to), u128_to_le_bytes(new_to));
        proof {
            assert forall|a: Seq<u8>| a != from@ && a != to@ implies self@.balance_of(a) == old(self)@.balance_of(a) by {
                if crate::keys::spec_balance_key(a) == crate::keys::spec_balance_key(from@) {
                    crate::keys::lemma_tagged_key_injective(crate::keys::TAG_BALANCE, a, from@);
                }
                if crate::keys::spec_balance_key(a) == crate::keys::spec_balance_key(to@) {
                    crate::keys::lemma_tagged_key_injective(crate::keys::TAG_BALANCE, a, to@);
                }
            }
        }
    }

    /// Store module bytes under their content hash; the callers have already
    /// checked validity and that the hash is fresh.
    fn store_code(&mut self, code_hash: &CodeHash, contract_bytes: Vec<u8>)
        requires
            old(self).wf(),
            code_hash@ == crate::hashing::spec_content_hash(contract_bytes@),
        ensures
            final(self).wf(),
            final(self)@.code_of(code_hash@) == Option::Some(contract_bytes@),
            forall|h: Seq<u8>| h != code_hash@ ==> final(self)@.code_of(h) == old(self)@.code_of(h),
            final(self)@.events() == old(self)@.events(),
            final(self)@.height() == old(self)@.height(),
            final(self)@.parent_hash() == old(self)@.parent_hash(),
            final(self)@.timestamp() == old(self)@.timestamp(),
            final(self)@.same_balances(old(self)@),
            final(self)@.same_contracts(old(self)@),
            final(self)@.extensions == old(self)@.extensions,
    {
        proof {
            crate::keys::lemma_key_tags();
            crate::chain::lemma_chain_insert(
                self.backend@,
                crate::keys::spec_code_key(code_hash@),
                contract_bytes@,
            );
        }
        self.backend.set(crate::keys::code_key(code_hash), contract_bytes);
        proof {
            assert forall|h: Seq<u8>| h != code_hash@ implies self@.code_of(h) == old(self)@.code_of(h) by {
                if crate::keys::spec_code_key(h) == crate::keys::spec_code_key(code_hash@) {
                    crate::keys::lemma_tagged_key_injective(crate::keys::TAG_CODE, h, code_hash@);
                }
            }
        }
    }

    /// Record a contract instance at `address` running the code under
    /// `code_hash`; the callers have already checked the address is free.
    fn store_contract(&mut self, address: &AccountId, code_hash: &CodeHash)
        requires
            old(self).wf(),
        ensures
            final(self).wf(),
            final(self)@.contract_code_of(address@) == Option::Some(code_hash@),
            forall|a: Seq<u8>|
                a != address@ ==> final(self)@.contract_code_of(a) == old(self)@.contract_code_of(a),
            final(self)@.events() == old(self)@.events(),
            final(self)@.height() == old(self)@.height(),
            final(self)@.parent_hash() == old(self)@.parent_hash(),
            final(self)@.timestamp() == old(self)@.timestamp(),
            final(self)@.same_balances(old(self)@),
            final(self)@.same_code(old(self)@),
            final(self)@.extensions == old(self)@.extensions,
    {
        proof {
            crate::keys::lemma_key_tags();
            crate::chain::lemma_chain_insert(
                self.backend@,
                crate::keys::spec_contract_key(address@),
                code_hash@,
            );
        }
        self.backend.set(
            crate::keys::contract_key(address),
            copy_bytes(code_hash.as_slice()),
        );
        proof {
            assert forall|a: Seq<u8>| a != address@ implies self@.contract_code_of(a) == old(self)@.contract_code_of(a) by {
                if crate::keys::spec_contract_key(a) == crate::keys::spec_contract_key(address@) {
                    crate::keys::lemma_tagged_key_injective(crate::keys::TAG_CONTRACT, a, address@);
                }
            }
        }
    }

    /// Whether a contract instance sits at `address`.
    pub fn contract_exists(&self, address: &AccountId) -> (r: bool)
        requires
            self.wf(),
        ensures
            r == self@.contract_code_of(address@).is_some(),
    {
        let key = crate::keys::contract_key(address);
        self.backend.contains(key.as_slice())
    }

    /// Register executable module bytes under their content hash without
    /// instantiating them. Invalid bytes are rejected; a deposit above the
    /// given limit is rejected; re-uploading stored bytes is a no-op that
    /// returns the same hash. A fresh upload appends a code-stored event.
    pub fn upload_contract(
        &mut self,
        contract_bytes: Vec<u8>,
        origin: AccountId,
        storage_deposit_limit: Option<u128>,
        determinism: Determinism,
    ) -> (r: Result<UploadReturn, UploadError>)
        requires
            old(self).wf(),
            old(self)@.events().len() < 0xffff_ffff_ffff_ffff,
        ensures
            final(self).wf(),
            final(self)@.extensions == old(self)@.extensions,
            !spec_code_valid(contract_bytes@) ==> r == Result::<UploadReturn, UploadError>::Err(
                UploadError::CodeRejected,
            ) && *final(self) == *old(self),
            spec_code_valid(contract_bytes@) && (storage_deposit_limit matches Some(l)
                && l < spec_code_deposit(contract_bytes@)) ==> r == Result::<
                UploadReturn,
                UploadError,
            >::Err(UploadError::DepositLimitExceeded) && *final(self) == *old(self),
            spec_code_valid(contract_bytes@) && (storage_deposit_limit matches Some(l) ==> l
                >= spec_code_deposit(contract_bytes@)) ==> {
                let h = crate::hashing::spec_content_hash(contract_bytes@);
                &&& r matches Ok(u) && u.code_hash@ == h && u.deposit == spec_code_deposit(
                    contract_bytes@,
                )
                &&& final(self)@.code_of(h) is Some
                &&& forall|h2: Seq<u8>|
                    h2 != h ==> final(self)@.code_of(h2) == old(self)@.code_of(h2)
                &&& old(self)@.code_of(h) is Some ==> *final(self) == *old(self)
                &&& old(self)@.code_of(h) is None ==> final(self)@.code_of(h) == Option::Some(
                    contract_bytes@,
                ) && final(self)@.events() == old(self)@.events().push(
                    EventView::CodeStored { code_hash: h },
                )
                &&& final(self)@.height() == old(self)@.height()
                &&& final(self)@.parent_hash() == old(self)@.parent_hash()
                &&& final(self)@.timestamp() == old(self)@.timestamp()
                &&& final(self)@.same_balances(old(self)@)
                &&& final(self)@.same_contracts(old(self)@)
            },
    {
        if !crate::contracts_api::code_valid(contract_bytes.as_slice()) {
            return Err(UploadError::CodeRejected);
        }
        let deposit = crate::contracts_api::code_deposit(contract_bytes.as_slice());
        match storage_deposit_limit {
            Some(limit) => {
                if limit < deposit {
                    return Err(UploadError::DepositLimitExceeded);
                }
            },
            None => {},
        }
        let code_hash = crate::hashing::content_hash(contract_bytes.as_slice());
        let key = crate::keys::code_key(&code_hash);
        if self.backend.contains(key.as_slice()) {
            return Ok(UploadReturn { code_hash, deposit });
        }
        self.store_code(&code_hash, contract_bytes);
        self.emit_event(&Event::CodeStored { code_hash });
        Ok(UploadReturn { code_hash, deposit })
    }
}

/// The fields an instantiation outcome carries on failure: the error as
/// data, no gas consumed, no events collected.
pub open spec fn spec_instantiate_failure(r: InstantiateOutcome, e: ContractError) -> bool {
    &&& r.result matches Err(e2) && e2 == e
    &&& r.gas_consumed == 0
    &&& r.events matches Some(v) && v@.len() == 0
}

/// The fields a call outcome carries on failure: the error as data, no gas
/// consumed, no events collected, no debug output.
pub open spec fn spec_exec_failure(r: ExecOutcome, e: ContractError) -> bool {
    &&& r.result matches Err(e2) && e2 == e
    &&& r.gas_consumed == 0
    &&& r.events matches Some(v) && v@.len() == 0
    &&& r.debug_message@.len() == 0
}

impl Sandbox {
    /// Instantiate uploaded module bytes, uploading them first if they are
    /// new: the contract's address derives deterministically from the
    /// deployer, the code hash and the salt; the transferred value is
    /// endowed; instantiation and deposit events are appended and collected
    /// into the outcome. Contract-level failure is data in the outcome.
    pub fn deploy_contract(
        &mut self,
        contract_bytes: Vec<u8>,
        value: u128,
        data: Vec<u8>,
        salt: Vec<u8>,
        origin: AccountId,
        gas_limit: u64,
        storage_deposit_limit: Option<u128>,
    ) -> (r: InstantiateOutcome)
        requires
            old(self).wf(),
            old(self)@.events().len() + 3 <= 0xffff_ffff_ffff_ffff,
        ensures
            final(self).wf(),
            ({
                let h = crate::hashing::spec_content_hash(contract_bytes@);
                let addr = crate::hashing::spec_contract_address(origin@, h, salt@);
                let dep = spec_code_deposit(contract_bytes@);
                if gas_limit < GAS_INSTANTIATE {
                    spec_instantiate_failure(r, ContractError::OutOfGas) && *final(self) == *old(self)
                } else if !spec_code_valid(contract_bytes@) {
                    spec_instantiate_failure(r, ContractError::CodeRejected) && *final(self)
                        == *old(self)
                } else if storage_deposit_limit matches Some(l) && l < dep {
                    spec_instantiate_failure(r, ContractError::DepositLimitExceeded) && *final(self) == *old(self)
                } else if old(self)@.contract_code_of(addr) is Some {
                    spec_instantiate_failure(r, ContractError::DuplicateContract) && *final(self)
                        == *old(self)
                } else if old(self)@.balance_of(origin@) < value {
                    spec_instantiate_failure(r, ContractError::TransferFailed) && *final(self)
                        == *old(self)
                } else if origin@ != addr && old(self)@.balance_of(addr) + value > u128::MAX {
                    spec_instantiate_failure(r, ContractError::TransferFailed) && *final(self)
                        == *old(self)
                } else {
                    &&& r.result matches Ok(ir) && ir.account_id@ == addr && ir.result.revert
                        == false && ir.result.data@.len() == 0
                    &&& r.gas_consumed == GAS_INSTANTIATE
                    &&& final(self)@.contract_code_of(addr) == Option::Some(h)
                    &&& forall|a: Seq<u8>|
                        a != addr ==> final(self)@.contract_code_of(a) == old(self)@.contract_code_of(a)
                    &&& final(self)@.code_of(h) is Some
                    &&& old(self)@.code_of(h) is None ==> final(self)@.code_of(h) == Option::Some(
                        contract_bytes@,
                    )
                    &&& forall|h2: Seq<u8>|
                        h2 != h ==> final(self)@.code_of(h2) == old(self)@.code_of(h2)
                    &&& origin@ == addr ==> final(self)@.same_balances(old(self)@)
                    &&& origin@ != addr ==> final(self)@.balance_of(origin@) == old(self)@.balance_of(origin@) - value && final(self)@.balance_of(addr) == old(self)@.balance_of(addr) + value && forall|a: Seq<u8>|
                        a != origin@ && a != addr ==> final(self)@.balance_of(a) == old(self)@.balance_of(a)
                    &&& ({
                        let tail = seq![
                            EventView::ContractInstantiated { deployer: origin@, contract: addr },
                            EventView::StorageDepositHeld { from: origin@, amount: dep },
                        ];
                        let emitted = if old(self)@.code_of(h) is None {
                            seq![EventView::CodeStored { code_hash: h }] + tail
                        } else {
                            tail
                        };
                        &&& final(self)@.events() == old(self)@.events() + emitted
                        &&& r.events matches Some(v) && v@.len() == emitted.len() && forall|i: int|
                            0 <= i < v@.len() ==> v@[i]@ == emitted[i]
                    })
                    &&& final(self)@.height() == old(self)@.height()
                    &&& final(self)@.parent_hash() == old(self)@.parent_hash()
                    &&& final(self)@.timestamp() == old(self)@.timestamp()
                    &&& final(self)@.extensions == old(self)@.extensions
                }
            }),
    {
        if gas_limit < GAS_INSTANTIATE {
            return InstantiateOutcome {
                result: Err(ContractError::OutOfGas),
                gas_consumed: 0,
                events: Some(Vec::new()),
            };
        }
        if !crate::contracts_api::code_valid(contract_bytes.as_slice()) {
            return InstantiateOutcome {
                result: Err(ContractError::CodeRejected),
                gas_consumed: 0,
                events: Some(Vec::new()),
            };
        }
        let deposit = crate::contracts_api::code_deposit(contract_bytes.as_slice());
        match storage_deposit_limit {
            Some(limit) => {
                if limit < deposit {
                    return InstantiateOutcome {
                        result: Err(ContractError::DepositLimitExceeded),
                        gas_consumed: 0,
                        events: Some(Vec::new()),
                    };
                }
            },
            None => {},
        }
        let code_hash = crate::hashing::content_hash(contract_bytes.as_slice());
        let address = crate::hashing::contract_address(&origin, &code_hash, salt.as_slice());
        if self.contract_exists(&address) {
            return InstantiateOutcome {
                result: Err(ContractError::DuplicateContract),
                gas_consumed: 0,
                events: Some(Vec::new()),
            };
        }
        let origin_balance = self.free_balance(&origin);
        if origin_balance < value {
            return InstantiateOutcome {
                result: Err(ContractError::TransferFailed),
                gas_consumed: 0,
                events: Some(Vec::new()),
            };
        }
        if !crate::account::id_eq(&origin, &address) {
            let address_balance = self.free_balance(&address);
            if value > u128::MAX - address_balance {
                return InstantiateOutcome {
                    result: Err(ContractError::TransferFailed),
                    gas_consumed: 0,
                    events: Some(Vec::new()),
                };
            }
        }
        let mut collected: Vec<Event> = Vec::new();
        let code_key = crate::keys::code_key(&code_hash);
        if !self.backend.contains(code_key.as_slice()) {
            self.store_code(&code_hash, contract_bytes);
            self.emit_event(&Event::CodeStored { code_hash });
            collected.push(Event::CodeStored { code_hash });
        }
        self.transfer_unchecked(&origin, &address, value);
        self.store_contract(&address, &code_hash);
        self.emit_event(&Event::ContractInstantiated { deployer: origin, contract: address });
        collected.push(Event::ContractInstantiated { deployer: origin, contract: address });
        self.emit_event(&Event::StorageDepositHeld { from: origin, amount: deposit });
        collected.push(Event::StorageDepositHeld { from: origin, amount: deposit });
        InstantiateOutcome {
            result: Ok(
                InstantiateReturn {
                    account_id: address,
                    result: ExecReturn { revert: false, data: Vec::new() },
                },
            ),
            gas_consumed: GAS_INSTANTIATE,
            events: Some(collected),
        }
    }

    /// Instantiate previously uploaded code by its hash: like deployment, but
    /// the code must already be stored, and only the per-item deposit is
    /// held.
    pub fn instantiate_contract(
        &mut self,
        code_hash: Vec<u8>,
        value: u128,
        data: Vec<u8>,
        salt: Vec<u8>,
        origin: AccountId,
        gas_limit: u64,
        storage_deposit_limit: Option<u128>,
    ) -> (r: InstantiateOutcome)
        requires
            old(self).wf(),
            old(self)@.events().len() + 2 <= 0xffff_ffff_ffff_ffff,
            code_hash@.len() == 32,
        ensures
            final(self).wf(),
            ({
                let addr = crate::hashing::spec_contract_address(origin@, code_hash@, salt@);
                if gas_limit < GAS_INSTANTIATE {
                    spec_instantiate_failure(r, ContractError::OutOfGas) && *final(self) == *old(self)
                } else if old(self)@.code_of(code_hash@) is None {
                    spec_instantiate_failure(r, ContractError::CodeNotFound) && *final(self)
                        == *old(self)
                } else if old(self)@.contract_code_of(addr) is Some {
                    spec_instantiate_failure(r, ContractError::DuplicateContract) && *final(self)
                        == *old(self)
                } else if old(self)@.balance_of(origin@) < value {
                    spec_instantiate_failure(r, ContractError::TransferFailed) && *final(self)
                        == *old(self)
                } else if origin@ != addr && old(self)@.balance_of(addr) + value > u128::MAX {
                    spec_instantiate_failure(r, ContractError::TransferFailed) && *final(self)
                        == *old(self)
                } else {
                    &&& r.result matches Ok(ir) && ir.account_id@ == addr && ir.result.revert
                        == false && ir.result.data@.len() == 0
                    &&& r.gas_consumed == GAS_INSTANTIATE
                    &&& final(self)@.contract_code_of(addr) == Option::Some(code_hash@)
                    &&& forall|a: Seq<u8>|
                        a != addr ==> final(self)@.contract_code_of(a) == old(self)@.contract_code_of(a)
                    &&& final(self)@.same_code(old(self)@)
                    &&& origin@ == addr ==> final(self)@.same_balances(old(self)@)
                    &&& origin@ != addr ==> final(self)@.balance_of(origin@) == old(self)@.balance_of(origin@) - value && final(self)@.balance_of(addr) == old(self)@.balance_of(addr) + value && forall|a: Seq<u8>|
                        a != origin@ && a != addr ==> final(self)@.balance_of(a) == old(self)@.balance_of(a)
                    &&& final(self)@.events() == old(self)@.events().push(
                        EventView::ContractInstantiated { deployer: origin@, contract: addr },
                    ).push(
                        EventView::StorageDepositHeld {
                            from: origin@,
                            amount: crate::contracts_api::DEPOSIT_PER_ITEM,
                        },
                    )
                    &&& r.events matches Some(v) && v@.len() == 2 && v@[0]@
                        == EventView::ContractInstantiated { deployer: origin@, contract: addr }
                        && v@[1]@ == EventView::StorageDepositHeld {
                        from: origin@,
                        amount: crate::contracts_api::DEPOSIT_PER_ITEM,
                    }
                    &&& final(self)@.height() == old(self)@.height()
                    &&& final(self)@.parent_hash() == old(self)@.parent_hash()
                    &&& final(self)@.timestamp() == old(self)@.timestamp()
                    &&& final(self)@.extensions == old(self)@.extensions
                }
            }),
    {
        if gas_limit < GAS_INSTANTIATE {
            return InstantiateOutcome {
                result: Err(ContractError::OutOfGas),
                gas_consumed: 0,
                events: Some(Vec::new()),
            };
        }
        let hash = crate::account::bytes32_of(code_hash.as_slice());
        let code_key = crate::keys::code_key(&hash);
        if !self.backend.contains(code_key.as_slice()) {
            return InstantiateOutcome {
                result: Err(ContractError::CodeNotFound),
                gas_consumed: 0,
                events: Some(Vec::new()),
            };
        }
        let address = crate::hashing::contract_address(&origin, &hash, salt.as_slice());
        if self.contract_exists(&address) {
            return InstantiateOutcome {
                result: Err(ContractError::DuplicateContract),
                gas_consumed: 0,
                events: Some(Vec::new()),
            };
        }
        let origin_balance = self.free_balance(&origin);
        if origin_balance < value {
            return InstantiateOutcome {
                result: Err(ContractError::TransferFailed),
                gas_consumed: 0,
                events: Some(Vec::new()),
            };
        }
        if !crate::account::id_eq(&origin, &address) {
            let address_balance = self.free_balance(&address);
            if value > u128::MAX - address_balance {
                return InstantiateOutcome {
                    result: Err(ContractError::TransferFailed),
                    gas_consumed: 0,
                    events: Some(Vec::new()),
                };
            }
        }
        self.transfer_unchecked(&origin, &address, value);
        self.store_contract(&address, &hash);
        let mut collected: Vec<Event> = Vec::new();
        self.emit_event(&Event::ContractInstantiated { deployer: origin, contract: address });
        collected.push(Event::ContractInstantiated { deployer: origin, contract: address });
        self.emit_event(
            &Event::StorageDepositHeld { from: origin, amount: crate::contracts_api::DEPOSIT_PER_ITEM },
        );
        collected.push(
            Event::StorageDepositHeld { from: origin, amount: crate::contracts_api::DEPOSIT_PER_ITEM },
        );
        InstantiateOutcome {
            result: Ok(
                InstantiateReturn {
                    account_id: address,
                    result: ExecReturn { revert: false, data: Vec::new() },
                },
            ),
            gas_consumed: GAS_INSTANTIATE,
            events: Some(collected),
        }
    }

    /// Call the contract at `address`: the transferred value is moved, the
    /// built-in module emits its output event and its debug line, a call
    /// event is appended, and the debug line goes to the registered debug
    /// capability. Contract-level failure is data in the outcome.
    pub fn call_contract(
        &mut self,
        address: AccountId,
        value: u128,
        data: Vec<u8>,
        origin: AccountId,
        gas_limit: u64,
        storage_deposit_limit: Option<u128>,
        determinism: Determinism,
    ) -> (r: ExecOutcome)
        requires
            old(self).wf(),
            old(self)@.events().len() + 2 <= 0xffff_ffff_ffff_ffff,
        ensures
            final(self).wf(),
            ({
                if gas_limit < GAS_CALL {
                    spec_exec_failure(r, ContractError::OutOfGas) && *final(self) == *old(self)
                } else if old(self)@.contract_code_of(address@) is None {
                    spec_exec_failure(r, ContractError::ContractNotFound) && *final(self) == *old(self)
                } else if old(self)@.balance_of(origin@) < value {
                    spec_exec_failure(r, ContractError::TransferFailed) && *final(self) == *old(self)
                } else if origin@ != address@ && old(self)@.balance_of(address@) + value
                    > u128::MAX {
                    spec_exec_failure(r, ContractError::TransferFailed) && *final(self) == *old(self)
                } else {
                    &&& r.result matches Ok(e) && e.revert == false && e.data@.len() == 0
                    &&& r.gas_consumed == GAS_CALL
                    &&& r.debug_message@ == crate::contracts_api::spec_debug_note()
                    &&& origin@ == address@ ==> final(self)@.same_balances(old(self)@)
                    &&& origin@ != address@ ==> final(self)@.balance_of(origin@) == old(self)@.balance_of(origin@) - value && final(self)@.balance_of(address@) == old(self)@.balance_of(address@) + value && forall|a: Seq<u8>|
                        a != origin@ && a != address@ ==> final(self)@.balance_of(a) == old(self)@.balance_of(a)
                    &&& final(self)@.events() == old(self)@.events().push(
                        EventView::ContractEmitted {
                            contract: address@,
                            data: crate::contracts_api::spec_contract_output(),
                        },
                    ).push(EventView::ContractCalled { caller: origin@, contract: address@ })
                    &&& r.events matches Some(v) && v@.len() == 2 && v@[0]@
                        == EventView::ContractEmitted {
                        contract: address@,
                        data: crate::contracts_api::spec_contract_output(),
                    } && v@[1]@ == EventView::ContractCalled {
                        caller: origin@,
                        contract: address@,
                    }
                    &&& final(self)@.height() == old(self)@.height()
                    &&& final(self)@.parent_hash() == old(self)@.parent_hash()
                    &&& final(self)@.timestamp() == old(self)@.timestamp()
                    &&& final(self)@.same_code(old(self)@)
                    &&& final(self)@.same_contracts(old(self)@)
                    &&& final(self)@.extensions == crate::extension::spec_sink_debug(
                        old(self)@.extensions,
                        crate::contracts_api::spec_debug_note(),
                    )
                }
            }),
    {
        if gas_limit < GAS_CALL {
            return ExecOutcome {
                result: Err(ContractError::OutOfGas),
                gas_consumed: 0,
                events: Some(Vec::new()),
                debug_message: Vec::new(),
            };
        }
        if !self.contract_exists(&address) {
            return ExecOutcome {
                result: Err(ContractError::ContractNotFound),
                gas_consumed: 0,
                events: Some(Vec::new()),
                debug_message: Vec::new(),
            };
        }
        let origin_balance = self.free_balance(&origin);
        if origin_balance < value {
            return ExecOutcome {
                result: Err(ContractError::TransferFailed),
                gas_consumed: 0,
                events: Some(Vec::new()),
                debug_message: Vec::new(),
            };
        }
        if !crate::account::id_eq(&origin, &address) {
            let address_balance = self.free_balance(&address);
            if value > u128::MAX - address_balance {
                return ExecOutcome {
                    result: Err(ContractError::TransferFailed),
                    gas_consumed: 0,
                    events: Some(Vec::new()),
                    debug_message: Vec::new(),
                };
            }
        }
        self.transfer_unchecked(&origin, &address, value);
        let output = crate::contracts_api::contract_output();
        let mut collected: Vec<Event> = Vec::new();
        self.emit_event(&Event::ContractEmitted { contract: address, data: output });
        let output_again = crate::contracts_api::contract_output();
        collected.push(Event::ContractEmitted { contract: address, data: output_again });
        self.emit_event(&Event::ContractCalled { caller: origin, contract: address });
        collected.push(Event::ContractCalled { caller: origin, contract: address });
        let note = crate::contracts_api::debug_note();
        self.registry.sink_debug_output(note.as_slice());
        ExecOutcome {
            result: Ok(ExecReturn { revert: false, data: Vec::new() }),
            gas_consumed: GAS_CALL,
            events: Some(collected),
            debug_message: note,
        }
    }

    /// The versioned, prefixed binary description of the configured modules'
    /// shapes, consumed by external tooling.
    pub fn get_metadata() -> (r: Vec<u8>)
        ensures
            r@ == spec_metadata_blob(),
    {
        let mut v: Vec<u8> = Vec::new();
        v.push(109);
        v.push(101);
        v.push(116);
        v.push(97);
        v.push(14);
        v.push(4);
        v.push(1);
        v.push(2);
        v.push(3);
        v.push(4);
        proof {
            assert(v@ =~= spec_metadata_blob());
        }
        v
    }
}

/// The metadata blob: the magic prefix, the metadata version, and one entry
/// per configured module.
pub open spec fn spec_metadata_blob() -> Seq<u8> {
    seq![109u8, 101u8, 116u8, 97u8, 14u8, 4u8, 1u8, 2u8, 3u8, 4u8]
}

impl Sandbox {
    /// Deploy a module and at once call the deployed contract with no value
    /// and no input: for acceptable fresh code under an ample gas limit, the
    /// call does not revert, emits events, and every free balance is left
    /// exactly as it was.
    pub fn deploy_then_call(
        &mut self,
        contract_bytes: Vec<u8>,
        salt: Vec<u8>,
        origin: AccountId,
        gas_limit: u64,
    ) -> (r: (InstantiateOutcome, Option<ExecOutcome>))
        requires
            old(self).wf(),
            old(self)@.events().len() + 5 <= 0xffff_ffff_ffff_ffff,
        ensures
            final(self).wf(),
            ({
                let h = crate::hashing::spec_content_hash(contract_bytes@);
                let addr = crate::hashing::spec_contract_address(origin@, h, salt@);
                (gas_limit >= GAS_INSTANTIATE && gas_limit >= GAS_CALL && spec_code_valid(
                    contract_bytes@,
                ) && old(self)@.contract_code_of(addr) is None) ==> {
                    &&& r.0.result matches Ok(ir) && ir.account_id@ == addr && ir.result.revert
                        == false
                    &&& r.1 matches Some(out) && out.result matches Ok(e) && e.revert == false
                        && (out.events matches Some(v) && v@.len() >= 1)
                    &&& final(self)@.same_balances(old(self)@)
                }
            }),
    {
        let ghost pre = self@;
        let deployed = self.deploy_contract(
            contract_bytes,
            0,
            Vec::new(),
            salt,
            origin,
            gas_limit,
            None,
        );
        let address = match &deployed.result {
            Ok(ir) => ir.account_id,
            Err(_) => {
                return (deployed, None);
            },
        };
        let called = self.call_contract(
            address,
            0,
            Vec::new(),
            origin,
            gas_limit,
            None,
            Determinism::Enforced,
        );
        (deployed, Some(called))
    }
}

impl Sandbox {
    /// Open the block at `height` whose parent hash is `parent_hash`, as the
    /// block-lifecycle controller does at every block boundary.
    pub fn initialize_block(&mut self, height: u64, parent_hash: &crate::account::BlockHash)
        requires
            old(self).wf(),
        ensures
            final(self).wf(),
            final(self)@.height() == height,
            final(self)@.parent_hash() == parent_hash@,
            final(self)@.events() == Seq::<EventView>::empty(),
            final(self)@.timestamp() == crate::codec::spec_sat_add_u64(
                old(self)@.timestamp(),
                TIMESTAMP_STEP,
            ),
            final(self)@.same_balances(old(self)@),
            final(self)@.same_code(old(self)@),
            final(self)@.same_contracts(old(self)@),
            final(self)@.extensions == old(self)@.extensions,
    {
        BlockBuilder::initialize_block(&mut self.backend, height, parent_hash);
    }

    /// Close the block at `height` and return its hash; a height other than
    /// the open block's is refused, and nothing changes either way.
    pub fn finalize_block(&self, height: u64) -> (r: Result<
        crate::account::BlockHash,
        crate::runtime::FinalizeError,
    >)
        requires
            self.wf(),
        ensures
            match r {
                Ok(h) => height == self@.height() && h@ == crate::hashing::spec_block_hash(
                    height,
                    self@.parent_hash(),
                ),
                Err(e) => height != self@.height() && e
                    == crate::runtime::FinalizeError::HeightMismatch,
            },
    {
        BlockBuilder::finalize_block(&self.backend, height)
    }
}

} // verus!
