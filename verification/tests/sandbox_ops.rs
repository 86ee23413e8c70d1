//! Balance, dry-run, dispatch, event and timestamp behaviour of the sandbox.
use drink::{BalancesCall, DispatchError, Event, MintError, Origin, RuntimeCall, Sandbox};

fn make_transfer(
    sandbox: &mut Sandbox,
    dest: drink::AccountId,
    value: u128,
) -> Result<(), DispatchError> {
    assert_ne!(
        Sandbox::default_actor(),
        dest,
        "make_transfer should send to account different than default_actor"
    );
    sandbox.runtime_call(
        RuntimeCall::Balances(BalancesCall::TransferAllowDeath { dest, value }),
        Origin::Signed(Sandbox::default_actor()),
    )
}

#[test]
fn mint_works() {
    let mut sandbox = Sandbox::default();
    let balance = sandbox.free_balance(&Sandbox::default_actor());

    sandbox
        .mint_into(&Sandbox::default_actor(), 100)
        .unwrap();

    assert_eq!(
        sandbox.free_balance(&Sandbox::default_actor()),
        balance + 100
    );
}

#[test]
fn repeated_mints_accumulate() {
    let mut sandbox = Sandbox::default();
    let actor = Sandbox::default_actor();
    let balance = sandbox.free_balance(&actor);

    sandbox.mint_into(&actor, 100).unwrap();
    sandbox.mint_into(&actor, 23).unwrap();

    assert_eq!(sandbox.free_balance(&actor), balance + 123);
}

#[test]
fn mint_overflow_is_rejected() {
    let mut sandbox = Sandbox::default();
    let actor = Sandbox::default_actor();
    let balance = sandbox.free_balance(&actor);
    assert!(balance > 0);

    let result = sandbox.mint_into(&actor, u128::MAX);
    assert_eq!(result, Err(MintError::Overflow));
    assert_eq!(sandbox.free_balance(&actor), balance);
}

#[test]
fn dry_run_works() {
    let mut sandbox = Sandbox::default();
    let actor = Sandbox::default_actor();
    let initial_balance = sandbox.free_balance(&actor);

    sandbox.dry_run(|sandbox: &mut Sandbox| {
        sandbox.mint_into(&actor, 100).unwrap();
        assert_eq!(sandbox.free_balance(&actor), initial_balance + 100);
    });

    assert_eq!(sandbox.free_balance(&actor), initial_balance);
}

#[test]
fn dry_run_returns_the_closure_value() {
    let mut sandbox = Sandbox::default();
    let actor = Sandbox::default_actor();
    let initial_balance = sandbox.free_balance(&actor);

    let inside = sandbox.dry_run(|sandbox: &mut Sandbox| sandbox.mint_into(&actor, 7).unwrap());

    assert_eq!(inside, initial_balance + 7);
    assert_eq!(sandbox.free_balance(&actor), initial_balance);
}

#[test]
fn runtime_call_works() {
    let mut sandbox = Sandbox::default();

    const RECIPIENT: drink::AccountId = [2u8; 32];
    let initial_balance = sandbox.free_balance(&RECIPIENT);

    let result = make_transfer(&mut sandbox, RECIPIENT, 100);
    assert!(result.is_ok());

    let expected_balance = initial_balance + 100;
    assert_eq!(sandbox.free_balance(&RECIPIENT), expected_balance);
}

#[test]
fn runtime_call_demands_a_signed_origin() {
    let mut sandbox = Sandbox::default();
    let result = sandbox.runtime_call(
        RuntimeCall::Balances(BalancesCall::TransferAllowDeath {
            dest: [2u8; 32],
            value: 1,
        }),
        Origin::Root,
    );
    assert_eq!(result, Err(DispatchError::BadOrigin));
}

#[test]
fn runtime_call_rejects_an_overdraft() {
    let mut sandbox = Sandbox::default();
    let actor = Sandbox::default_actor();
    let balance = sandbox.free_balance(&actor);

    let result = make_transfer(&mut sandbox, [2u8; 32], balance + 1);
    assert_eq!(result, Err(DispatchError::InsufficientBalance));
    assert_eq!(sandbox.free_balance(&actor), balance);
}

#[test]
fn current_events() {
    let mut sandbox = Sandbox::default();
    const RECIPIENT: drink::AccountId = [2u8; 32];

    let events_before = sandbox.events();
    assert!(events_before.is_empty());

    make_transfer(&mut sandbox, RECIPIENT, 1).expect("Failed to make transfer");

    let events_after = sandbox.events();
    assert!(!events_after.is_empty());
    assert!(matches!(
        events_after.last().unwrap(),
        Event::BalancesTransfer { .. }
    ));
}

#[test]
fn resetting_events() {
    let mut sandbox = Sandbox::default();
    const RECIPIENT: drink::AccountId = [3u8; 32];

    make_transfer(&mut sandbox, RECIPIENT, 1).expect("Failed to make transfer");

    assert!(!sandbox.events().is_empty());
    sandbox.reset_events();
    assert!(sandbox.events().is_empty());

    make_transfer(&mut sandbox, RECIPIENT, 1).expect("Failed to make transfer");
    assert!(!sandbox.events().is_empty());
}

#[test]
fn getting_and_setting_timestamp_works() {
    let mut sandbox = Sandbox::default();
    for timestamp in 0..10 {
        assert_ne!(sandbox.get_timestamp(), timestamp);
        sandbox.set_timestamp(timestamp);
        assert_eq!(sandbox.get_timestamp(), timestamp);

        sandbox.build_block();
    }
}

#[test]
fn convert_account_to_origin_signs() {
    let actor = Sandbox::default_actor();
    assert!(matches!(
        Sandbox::convert_account_to_origin(actor),
        Origin::Signed(a) if a == actor
    ));
}

#[test]
fn runtime_call_rejects_a_receiving_overflow() {
    let mut sandbox = Sandbox::default();
    const RICH: drink::AccountId = [2u8; 32];
    sandbox.mint_into(&RICH, u128::MAX).unwrap();

    let result = make_transfer(&mut sandbox, RICH, 1);
    assert_eq!(result, Err(DispatchError::Overflow));
    assert_eq!(sandbox.free_balance(&RICH), u128::MAX);
}
