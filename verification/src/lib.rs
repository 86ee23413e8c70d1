//! An in-memory sandbox for exercising chain state-transition logic without a
//! live networked chain: a byte-keyed storage backend with atomic
//! snapshot/rollback, an execution context that runs caller-supplied closures
//! with exclusive, reentrant access to that backend, a block-lifecycle
//! controller, and domain operations (balances, contracts, events, raw
//! dispatch, timestamps) layered on top.
pub mod account;
pub mod chain;
pub mod cli;
pub mod codec;
pub mod contracts_api;
pub mod events;
pub mod extension;
pub mod hashing;
pub mod keys;
pub mod laws;
pub mod runtime;
pub mod sandbox;
pub mod storage;

pub use account::AccountId;
pub use account::BlockHash;
pub use account::CodeHash;
pub use account::Origin;
pub use cli::CliCommand;
pub use contracts_api::decode_debug_buffer;
pub use contracts_api::Determinism;
pub use contracts_api::DEFAULT_GAS_LIMIT;
pub use events::Event;
pub use extension::Extension;
pub use runtime::BlockBuilder;
pub use runtime::FinalizeError;
pub use sandbox::BalancesCall;
pub use sandbox::DispatchError;
pub use sandbox::MintError;
pub use sandbox::RuntimeCall;
pub use sandbox::Sandbox;
pub use sandbox::SandboxConfig;
pub use sandbox::INITIAL_BALANCE;
pub use storage::StorageBackend;
