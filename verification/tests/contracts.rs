//! Upload, deploy and call behaviour of the modeled contracts module.
use drink::contracts_api::{ContractError, UploadError};
use drink::{Determinism, Event, Extension, Sandbox, DEFAULT_GAS_LIMIT};

fn dummy_module() -> Vec<u8> {
    b"dummy".to_vec()
}

#[test]
fn can_upload_code() {
    let mut sandbox = Sandbox::default();
    let wasm_binary = dummy_module();
    let hash = drink::hashing::content_hash(&wasm_binary);

    let result = sandbox.upload_contract(
        wasm_binary,
        Sandbox::default_actor(),
        None,
        Determinism::Enforced,
    );

    assert!(result.is_ok());
    assert_eq!(hash, result.unwrap().code_hash);
}

#[test]
fn upload_rejects_empty_code() {
    let mut sandbox = Sandbox::default();
    let result = sandbox.upload_contract(
        Vec::new(),
        Sandbox::default_actor(),
        None,
        Determinism::Enforced,
    );
    assert_eq!(result, Err(UploadError::CodeRejected));
}

#[test]
fn upload_honours_the_deposit_limit() {
    let mut sandbox = Sandbox::default();
    let result = sandbox.upload_contract(
        dummy_module(),
        Sandbox::default_actor(),
        Some(1),
        Determinism::Enforced,
    );
    assert_eq!(result, Err(UploadError::DepositLimitExceeded));

    let result = sandbox.upload_contract(
        dummy_module(),
        Sandbox::default_actor(),
        Some(1_000_000),
        Determinism::Enforced,
    );
    assert!(result.is_ok());
}

#[test]
fn reupload_returns_the_same_hash() {
    let mut sandbox = Sandbox::default();
    let first = sandbox
        .upload_contract(
            dummy_module(),
            Sandbox::default_actor(),
            None,
            Determinism::Enforced,
        )
        .unwrap();
    let second = sandbox
        .upload_contract(
            dummy_module(),
            Sandbox::default_actor(),
            None,
            Determinism::Enforced,
        )
        .unwrap();
    assert_eq!(first.code_hash, second.code_hash);
}

#[test]
fn can_deploy_contract() {
    let mut sandbox = Sandbox::default();
    let wasm_binary = dummy_module();

    let events_before = sandbox.events();
    assert!(events_before.is_empty());

    let result = sandbox.deploy_contract(
        wasm_binary,
        0,
        vec![],
        vec![],
        Sandbox::default_actor(),
        DEFAULT_GAS_LIMIT,
        None,
    );
    assert!(result.result.is_ok());
    assert!(!result.result.unwrap().result.did_revert());

    let events = result.events.expect("Drink should collect events");
    let event_count = events.len();
    let instantiation_event = events[event_count - 2].clone();
    assert!(matches!(
        instantiation_event,
        Event::ContractInstantiated { .. }
    ));
    let deposit_event = events[event_count - 1].clone();
    assert!(matches!(deposit_event, Event::StorageDepositHeld { .. }));
}

#[test]
fn can_call_contract() {
    let mut sandbox = Sandbox::default();
    let actor = Sandbox::default_actor();
    let wasm_binary = dummy_module();

    let result = sandbox.deploy_contract(
        wasm_binary,
        0,
        vec![],
        vec![],
        actor,
        DEFAULT_GAS_LIMIT,
        None,
    );

    let contract_address = result
        .result
        .expect("Contract should be deployed")
        .account_id;

    sandbox.reset_events();

    let result = sandbox.call_contract(
        contract_address,
        0,
        vec![],
        actor,
        DEFAULT_GAS_LIMIT,
        None,
        Determinism::Enforced,
    );
    assert!(result.result.is_ok());
    assert!(!result.result.unwrap().did_revert());

    let events = result.events.expect("Drink should collect events");
    assert_eq!(events.len(), 2);

    assert_eq!(
        events[0],
        Event::ContractEmitted {
            contract: contract_address,
            data: vec![0, 0, 0, 0],
        }
    );

    assert_eq!(
        events[1],
        Event::ContractCalled {
            caller: actor,
            contract: contract_address,
        },
    );
}

#[test]
fn deploying_twice_gives_a_duplicate() {
    let mut sandbox = Sandbox::default();
    let actor = Sandbox::default_actor();

    let first = sandbox.deploy_contract(
        dummy_module(),
        0,
        vec![],
        vec![],
        actor,
        DEFAULT_GAS_LIMIT,
        None,
    );
    assert!(first.result.is_ok());

    let second = sandbox.deploy_contract(
        dummy_module(),
        0,
        vec![],
        vec![],
        actor,
        DEFAULT_GAS_LIMIT,
        None,
    );
    assert_eq!(second.result.err(), Some(ContractError::DuplicateContract));
}

#[test]
fn instantiating_unknown_code_fails() {
    let mut sandbox = Sandbox::default();
    let result = sandbox.instantiate_contract(
        vec![9u8; 32],
        0,
        vec![],
        vec![],
        Sandbox::default_actor(),
        DEFAULT_GAS_LIMIT,
        None,
    );
    assert_eq!(result.result.err(), Some(ContractError::CodeNotFound));
}

#[test]
fn instantiating_uploaded_code_works() {
    let mut sandbox = Sandbox::default();
    let actor = Sandbox::default_actor();
    let uploaded = sandbox
        .upload_contract(dummy_module(), actor, None, Determinism::Enforced)
        .unwrap();

    let result = sandbox.instantiate_contract(
        uploaded.code_hash.to_vec(),
        0,
        vec![],
        vec![],
        actor,
        DEFAULT_GAS_LIMIT,
        None,
    );
    assert!(result.result.is_ok());
}

#[test]
fn calling_a_missing_contract_fails() {
    let mut sandbox = Sandbox::default();
    let result = sandbox.call_contract(
        [7u8; 32],
        0,
        vec![],
        Sandbox::default_actor(),
        DEFAULT_GAS_LIMIT,
        None,
        Determinism::Enforced,
    );
    assert_eq!(result.result.err(), Some(ContractError::ContractNotFound));
    assert_eq!(result.gas_consumed, 0);
}

#[test]
fn calling_without_gas_fails() {
    let mut sandbox = Sandbox::default();
    let result = sandbox.call_contract(
        [7u8; 32],
        0,
        vec![],
        Sandbox::default_actor(),
        0,
        None,
        Determinism::Enforced,
    );
    assert_eq!(result.result.err(), Some(ContractError::OutOfGas));
}

#[test]
fn deploy_then_call_round_trip() {
    let mut sandbox = Sandbox::default();
    let actor = Sandbox::default_actor();
    let balance_before = sandbox.free_balance(&actor);

    let (deployed, called) =
        sandbox.deploy_then_call(dummy_module(), vec![], actor, DEFAULT_GAS_LIMIT);

    assert!(deployed.result.is_ok());
    let outcome = called.expect("the deployed contract should be called");
    assert!(!outcome.result.unwrap().did_revert());
    assert!(!outcome.events.unwrap().is_empty());
    assert_eq!(sandbox.free_balance(&actor), balance_before);
}

#[test]
fn debug_output_reaches_a_capturing_extension() {
    let mut sandbox = Sandbox::default();
    let actor = Sandbox::default_actor();
    sandbox.register_extension(Extension::DebugCapture { buffer: Vec::new() });

    let (deployed, _called) =
        sandbox.deploy_then_call(dummy_module(), vec![], actor, DEFAULT_GAS_LIMIT);
    let address = deployed.result.unwrap().account_id;

    match sandbox.debug_extension() {
        Some(Extension::DebugCapture { buffer }) => {
            assert_eq!(buffer, b"called\n".to_vec());
            let lines = drink::decode_debug_buffer(&buffer);
            assert_eq!(lines, vec!["called".to_string()]);
        }
        other => panic!("expected a capturing debug extension, got {:?}", other),
    }

    sandbox.register_extension(Extension::DebugDiscard);
    sandbox.call_contract(
        address,
        0,
        vec![],
        actor,
        DEFAULT_GAS_LIMIT,
        None,
        Determinism::Enforced,
    );
    assert!(matches!(
        sandbox.debug_extension(),
        Some(Extension::DebugDiscard)
    ));
}

#[test]
fn metadata_is_versioned_and_prefixed() {
    let blob = Sandbox::get_metadata();
    assert_eq!(&blob[0..4], b"meta");
    assert_eq!(blob[4], 14);
}

#[test]
fn deploying_invalid_code_is_rejected() {
    let mut sandbox = Sandbox::default();
    let result = sandbox.deploy_contract(
        Vec::new(),
        0,
        vec![],
        vec![],
        Sandbox::default_actor(),
        DEFAULT_GAS_LIMIT,
        None,
    );
    assert_eq!(result.result.err(), Some(ContractError::CodeRejected));
}

#[test]
fn deploying_over_the_deposit_limit_is_rejected() {
    let mut sandbox = Sandbox::default();
    let result = sandbox.deploy_contract(
        dummy_module(),
        0,
        vec![],
        vec![],
        Sandbox::default_actor(),
        DEFAULT_GAS_LIMIT,
        Some(1),
    );
    assert_eq!(
        result.result.err(),
        Some(ContractError::DepositLimitExceeded)
    );
}

#[test]
fn calling_with_more_value_than_held_fails() {
    let mut sandbox = Sandbox::default();
    let actor = Sandbox::default_actor();
    let deployed = sandbox.deploy_contract(
        dummy_module(),
        0,
        vec![],
        vec![],
        actor,
        DEFAULT_GAS_LIMIT,
        None,
    );
    let address = deployed.result.unwrap().account_id;
    let balance = sandbox.free_balance(&actor);

    let result = sandbox.call_contract(
        address,
        balance + 1,
        vec![],
        actor,
        DEFAULT_GAS_LIMIT,
        None,
        Determinism::Enforced,
    );
    assert_eq!(result.result.err(), Some(ContractError::TransferFailed));
    assert_eq!(sandbox.free_balance(&actor), balance);
}

#[test]
fn upload_deposit_charges_per_byte_and_item() {
    let mut sandbox = Sandbox::default();
    let uploaded = sandbox
        .upload_contract(
            dummy_module(),
            Sandbox::default_actor(),
            None,
            Determinism::Enforced,
        )
        .unwrap();
    assert_eq!(uploaded.deposit, 6);
}

#[test]
fn gas_consumption_is_deterministic() {
    let mut sandbox = Sandbox::default();
    let actor = Sandbox::default_actor();
    let deployed = sandbox.deploy_contract(
        dummy_module(),
        0,
        vec![],
        vec![],
        actor,
        DEFAULT_GAS_LIMIT,
        None,
    );
    assert_eq!(deployed.gas_consumed, drink::contracts_api::GAS_INSTANTIATE);
    let address = deployed.result.unwrap().account_id;
    let called = sandbox.call_contract(
        address,
        0,
        vec![],
        actor,
        DEFAULT_GAS_LIMIT,
        None,
        Determinism::Enforced,
    );
    assert_eq!(called.gas_consumed, drink::contracts_api::GAS_CALL);
}
