//! The events a block accumulates: the exec-level `Event` record, its
//! mathematical view, and the byte encoding under which the storage backend
//! holds one event per key.
use crate::account::{bytes32_of, AccountId, CodeHash};
use crate::codec::{
    append_bytes, bytes_eq, copy_bytes, spec_u128_from_le_bytes, spec_u128_to_le_bytes,
    u128_from_le_bytes, u128_to_le_bytes,
};
use vstd::prelude::*;
use vstd::slice::slice_subrange;

verus! {

/// Tag byte of an encoded minting event.
pub const EVT_MINTED: u8 = 1;

/// Tag byte of an encoded transfer event.
pub const EVT_TRANSFER: u8 = 2;

/// Tag byte of an encoded code-stored event.
pub const EVT_CODE_STORED: u8 = 3;

/// Tag byte of an encoded instantiation event.
pub const EVT_INSTANTIATED: u8 = 4;

/// Tag byte of an encoded storage-deposit event.
pub const EVT_DEPOSIT_HELD: u8 = 5;

/// Tag byte of an encoded contract-output event.
pub const EVT_CONTRACT_EMITTED: u8 = 6;

/// Tag byte of an encoded contract-call event.
pub const EVT_CONTRACT_CALLED: u8 = 7;

/// An event emitted into the current block's log by a state-mutating
/// operation.
#[derive(Clone, Debug)]
pub enum Event {
    /// Tokens were minted into an account.
    BalancesMinted { who: AccountId, amount: u128 },
    /// Tokens moved between two accounts.
    BalancesTransfer { from: AccountId, to: AccountId, amount: u128 },
    /// Module bytes were stored under their content hash.
    CodeStored { code_hash: CodeHash },
    /// A contract was instantiated at a derived address.
    ContractInstantiated { deployer: AccountId, contract: AccountId },
    /// A storage deposit was transferred and held.
    StorageDepositHeld { from: AccountId, amount: u128 },
    /// A contract emitted output data during a call.
    ContractEmitted { contract: AccountId, data: Vec<u8> },
    /// A contract was called.
    ContractCalled { caller: AccountId, contract: AccountId },
}

/// The mathematical view of an event: the same record over byte sequences.
pub enum EventView {
    /// Tokens were minted into an account.
    BalancesMinted { who: Seq<u8>, amount: u128 },
    /// Tokens moved between two accounts.
    BalancesTransfer { from: Seq<u8>, to: Seq<u8>, amount: u128 },
    /// Module bytes were stored under their content hash.
    CodeStored { code_hash: Seq<u8> },
    /// A contract was instantiated at a derived address.
    ContractInstantiated { deployer: Seq<u8>, contract: Seq<u8> },
    /// A storage deposit was transferred and held.
    StorageDepositHeld { from: Seq<u8>, amount: u128 },
    /// A contract emitted output data during a call.
    ContractEmitted { contract: Seq<u8>, data: Seq<u8> },
    /// A contract was called.
    ContractCalled { caller: Seq<u8>, contract: Seq<u8> },
}

impl View for Event {
    type V = EventView;

    open spec fn view(&self) -> EventView {
        match self {
            Event::BalancesMinted { who, amount } => EventView::BalancesMinted {
                who: who@,
                amount: *amount,
            },
            Event::BalancesTransfer { from, to, amount } => EventView::BalancesTransfer {
                from: from@,
                to: to@,
                amount: *amount,
            },
            Event::CodeStored { code_hash } => EventView::CodeStored { code_hash: code_hash@ },
            Event::ContractInstantiated { deployer, contract } => EventView::ContractInstantiated {
                deployer: deployer@,
                contract: contract@,
            },
            Event::StorageDepositHeld { from, amount } => EventView::StorageDepositHeld {
                from: from@,
                amount: *amount,
            },
            Event::ContractEmitted { contract, data } => EventView::ContractEmitted {
                contract: contract@,
                data: data@,
            },
            Event::ContractCalled { caller, contract } => EventView::ContractCalled {
                caller: caller@,
                contract: contract@,
            },
        }
    }
}

impl EventView {
    /// Every account or hash field holds exactly 32 bytes.
    pub open spec fn wf(self) -> bool {
        match self {
            EventView::BalancesMinted { who, .. } => who.len() == 32,
            EventView::BalancesTransfer { from, to, .. } => from.len() == 32 && to.len() == 32,
            EventView::CodeStored { code_hash } => code_hash.len() == 32,
            EventView::ContractInstantiated { deployer, contract } => deployer.len() == 32
                && contract.len() == 32,
            EventView::StorageDepositHeld { from, .. } => from.len() == 32,
            EventView::ContractEmitted { contract, .. } => contract.len() == 32,
            EventView::ContractCalled { caller, contract } => caller.len() == 32 && contract.len()
                == 32,
        }
    }
}

/// The byte encoding of an event: its tag byte followed by its fields, fixed
/// width but for contract output data, which fills the rest of the value.
pub open spec fn spec_encode_event(ev: EventView) -> Seq<u8> {
    match ev {
        EventView::BalancesMinted { who, amount } => seq![EVT_MINTED] + who
            + spec_u128_to_le_bytes(amount),
        EventView::BalancesTransfer { from, to, amount } => seq![EVT_TRANSFER] + from + to
            + spec_u128_to_le_bytes(amount),
        EventView::CodeStored { code_hash } => seq![EVT_CODE_STORED] + code_hash,
        EventView::ContractInstantiated { deployer, contract } => seq![EVT_INSTANTIATED] + deployer
            + contract,
        EventView::StorageDepositHeld { from, amount } => seq![EVT_DEPOSIT_HELD] + from
            + spec_u128_to_le_bytes(amount),
        EventView::ContractEmitted { contract, data } => seq![EVT_CONTRACT_EMITTED] + contract
            + data,
        EventView::ContractCalled { caller, contract } => seq![EVT_CONTRACT_CALLED] + caller
            + contract,
    }
}

/// The event a byte string encodes, if any.
pub open spec fn spec_decode_event(v: Seq<u8>) -> Option<EventView> {
    if v.len() < 1 {
        Option::None
    } else if v[0] == EVT_MINTED && v.len() == 49 {
        Option::Some(
            EventView::BalancesMinted {
                who: v.subrange(1, 33),
                amount: spec_u128_from_le_bytes(v.subrange(33, 49)),
            },
        )
    } else if v[0] == EVT_TRANSFER && v.len() == 81 {
        Option::Some(
            EventView::BalancesTransfer {
                from: v.subrange(1, 33),
                to: v.subrange(33, 65),
                amount: spec_u128_from_le_bytes(v.subrange(65, 81)),
            },
        )
    } else if v[0] == EVT_CODE_STORED && v.len() == 33 {
        Option::Some(EventView::CodeStored { code_hash: v.subrange(1, 33) })
    } else if v[0] == EVT_INSTANTIATED && v.len() == 65 {
        Option::Some(
            EventView::ContractInstantiated {
                deployer: v.subrange(1, 33),
                contract: v.subrange(33, 65),
            },
        )
    } else if v[0] == EVT_DEPOSIT_HELD && v.len() == 49 {
        Option::Some(
            EventView::StorageDepositHeld {
                from: v.subrange(1, 33),
                amount: spec_u128_from_le_bytes(v.subrange(33, 49)),
            },
        )
    } else if v[0] == EVT_CONTRACT_EMITTED && v.len() >= 33 {
        Option::Some(
            EventView::ContractEmitted {
                contract: v.subrange(1, 33),
                data: v.subrange(33, v.len() as int),
            },
        )
    } else if v[0] == EVT_CONTRACT_CALLED && v.len() == 65 {
        Option::Some(
            EventView::ContractCalled { caller: v.subrange(1, 33), contract: v.subrange(33, 65) },
        )
    } else {
        Option::None
    }
}

/// Decoding an encoded well-formed event gives the event back.
pub proof fn lemma_event_round_trip(ev: EventView)
    requires
        ev.wf(),
    ensures
        spec_decode_event(spec_encode_event(ev)) == Option::Some(ev),
{
    let v = spec_encode_event(ev);
    match ev {
        EventView::BalancesMinted { who, amount } => {
            crate::codec::lemma_u128_round_trip(amount);
            assert(v.subrange(1, 33) =~= who);
            assert(v.subrange(33, 49) =~= spec_u128_to_le_bytes(amount));
        },
        EventView::BalancesTransfer { from, to, amount } => {
            crate::codec::lemma_u128_round_trip(amount);
            assert(v.subrange(1, 33) =~= from);
            assert(v.subrange(33, 65) =~= to);
            assert(v.subrange(65, 81) =~= spec_u128_to_le_bytes(amount));
        },
        EventView::CodeStored { code_hash } => {
            assert(v.subrange(1, 33) =~= code_hash);
        },
        EventView::ContractInstantiated { deployer, contract } => {
            assert(v.subrange(1, 33) =~= deployer);
            assert(v.subrange(33, 65) =~= contract);
        },
        EventView::StorageDepositHeld { from, amount } => {
            crate::codec::lemma_u128_round_trip(amount);
            assert(v.subrange(1, 33) =~= from);
            assert(v.subrange(33, 49) =~= spec_u128_to_le_bytes(amount));
        },
        EventView::ContractEmitted { contract, data } => {
            assert(v.subrange(1, 33) =~= contract);
            assert(v.subrange(33, v.len() as int) =~= data);
        },
        EventView::ContractCalled { caller, contract } => {
            assert(v.subrange(1, 33) =~= caller);
            assert(v.subrange(33, 65) =~= contract);
        },
    }
}

/// Encode an event for the storage backend.
pub fn encode_event(e: &Event) -> (r: Vec<u8>)
    ensures
        r@ == spec_encode_event(e@),
{
    let mut out: Vec<u8> = Vec::new();
    match e {
        Event::BalancesMinted { who, amount } => {
            out.push(EVT_MINTED);
            append_bytes(&mut out, who.as_slice());
            let amt = u128_to_le_bytes(*amount);
            append_bytes(&mut out, amt.as_slice());
        },
        Event::BalancesTransfer { from, to, amount } => {
            out.push(EVT_TRANSFER);
            append_bytes(&mut out, from.as_slice());
            append_bytes(&mut out, to.as_slice());
            let amt = u128_to_le_bytes(*amount);
            append_bytes(&mut out, amt.as_slice());
        },
        Event::CodeStored { code_hash } => {
            out.push(EVT_CODE_STORED);
            append_bytes(&mut out, code_hash.as_slice());
        },
        Event::ContractInstantiated { deployer, contract } => {
            out.push(EVT_INSTANTIATED);
            append_bytes(&mut out, deployer.as_slice());
            append_bytes(&mut out, contract.as_slice());
        },
        Event::StorageDepositHeld { from, amount } => {
            out.push(EVT_DEPOSIT_HELD);
            append_bytes(&mut out, from.as_slice());
            let amt = u128_to_le_bytes(*amount);
            append_bytes(&mut out, amt.as_slice());
        },
        Event::ContractEmitted { contract, data } => {
            out.push(EVT_CONTRACT_EMITTED);
            append_bytes(&mut out, contract.as_slice());
            append_bytes(&mut out, data.as_slice());
        },
        Event::ContractCalled { caller, contract } => {
            out.push(EVT_CONTRACT_CALLED);
            append_bytes(&mut out, caller.as_slice());
            append_bytes(&mut out, contract.as_slice());
        },
    }
    proof {
        assert(out@ =~= spec_encode_event(e@));
    }
    out
}

/// Decode an event from its storage bytes.
pub fn decode_event(v: &[u8]) -> (r: Option<Event>)
    ensures
        match r {
            Some(e) => spec_decode_event(v@) == Option::Some(e@),
            None => spec_decode_event(v@) == Option::<EventView>::None,
        },
{
    if v.len() < 1 {
        return None;
    }
    let tag = v[0];
    if tag == EVT_MINTED && v.len() == 49 {
        let who = bytes32_of(slice_subrange(v, 1, 33));
        let amount = u128_from_le_bytes(slice_subrange(v, 33, 49));
        Some(Event::BalancesMinted { who, amount })
    } else if tag == EVT_TRANSFER && v.len() == 81 {
        let from = bytes32_of(slice_subrange(v, 1, 33));
        let to = bytes32_of(slice_subrange(v, 33, 65));
        let amount = u128_from_le_bytes(slice_subrange(v, 65, 81));
        Some(Event::BalancesTransfer { from, to, amount })
    } else if tag == EVT_CODE_STORED && v.len() == 33 {
        let code_hash = bytes32_of(slice_subrange(v, 1, 33));
        Some(Event::CodeStored { code_hash })
    } else if tag == EVT_INSTANTIATED && v.len() == 65 {
        let deployer = bytes32_of(slice_subrange(v, 1, 33));
        let contract = bytes32_of(slice_subrange(v, 33, 65));
        Some(Event::ContractInstantiated { deployer, contract })
    } else if tag == EVT_DEPOSIT_HELD && v.len() == 49 {
        let from = bytes32_of(slice_subrange(v, 1, 33));
        let amount = u128_from_le_bytes(slice_subrange(v, 33, 49));
        Some(Event::StorageDepositHeld { from, amount })
    } else if tag == EVT_CONTRACT_EMITTED && v.len() >= 33 {
        let contract = bytes32_of(slice_subrange(v, 1, 33));
        let data = copy_bytes(slice_subrange(v, 33, v.len()));
        Some(Event::ContractEmitted { contract, data })
    } else if tag == EVT_CONTRACT_CALLED && v.len() == 65 {
        let caller = bytes32_of(slice_subrange(v, 1, 33));
        let contract = bytes32_of(slice_subrange(v, 33, 65));
        Some(Event::ContractCalled { caller, contract })
    } else {
        None
    }
}

impl PartialEq for Event {
    /// Two events are equal when they are the same record with equal fields.
    fn eq(&self, other: &Event) -> (r: bool) {
        match (self, other) {
            (
                Event::BalancesMinted { who: a, amount: x },
                Event::BalancesMinted { who: b, amount: y },
            ) => crate::account::id_eq(a, b) && x == y,
            (
                Event::BalancesTransfer { from: a, to: c, amount: x },
                Event::BalancesTransfer { from: b, to: d, amount: y },
            ) => crate::account::id_eq(a, b) && crate::account::id_eq(c, d) && x == y,
            (Event::CodeStored { code_hash: a }, Event::CodeStored { code_hash: b }) => {
                crate::account::id_eq(a, b)
            },
            (
                Event::ContractInstantiated { deployer: a, contract: c },
                Event::ContractInstantiated { deployer: b, contract: d },
            ) => crate::account::id_eq(a, b) && crate::account::id_eq(c, d),
            (
                Event::StorageDepositHeld { from: a, amount: x },
                Event::StorageDepositHeld { from: b, amount: y },
            ) => crate::account::id_eq(a, b) && x == y,
            (
                Event::ContractEmitted { contract: a, data: u },
                Event::ContractEmitted { contract: b, data: w },
            ) => crate::account::id_eq(a, b) && bytes_eq(u.as_slice(), w.as_slice()),
            (
                Event::ContractCalled { caller: a, contract: c },
                Event::ContractCalled { caller: b, contract: d },
            ) => crate::account::id_eq(a, b) && crate::account::id_eq(c, d),
            _ => false,
        }
    }
}

impl vstd::std_specs::cmp::PartialEqSpecImpl for Event {
    open spec fn obeys_eq_spec() -> bool {
        true
    }

    open spec fn eq_spec(&self, other: &Event) -> bool {
        self@ == other@
    }
}

} // verus!
