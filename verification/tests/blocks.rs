//! Block lifecycle behaviour: heights, hashes, and rollback of block
//! building inside dry runs.
use drink::{FinalizeError, Sandbox};

#[test]
fn construction_opens_block_one() {
    let mut sandbox = Sandbox::default();
    assert_eq!(sandbox.block_number(), 1);
    assert!(sandbox.events().is_empty());
}

#[test]
fn build_block_advances_the_height_by_one() {
    let mut sandbox = Sandbox::default();
    let initial = sandbox.block_number();
    assert_eq!(sandbox.build_block(), initial + 1);
    assert_eq!(sandbox.block_number(), initial + 1);
}

#[test]
fn build_blocks_advances_the_height_by_n() {
    let mut sandbox = Sandbox::default();
    let initial = sandbox.block_number();
    assert_eq!(sandbox.build_blocks(5), initial + 5);
    assert_eq!(sandbox.block_number(), initial + 5);
}

#[test]
fn building_zero_blocks_changes_nothing() {
    let mut sandbox = Sandbox::default();
    let initial = sandbox.block_number();
    let timestamp = sandbox.get_timestamp();
    assert_eq!(sandbox.build_blocks(0), initial);
    assert_eq!(sandbox.block_number(), initial);
    assert_eq!(sandbox.get_timestamp(), timestamp);
}

#[test]
fn finalizing_the_wrong_height_is_refused() {
    let sandbox = Sandbox::default();
    let current = sandbox.block_number();
    assert_eq!(
        sandbox.finalize_block(current + 1),
        Err(FinalizeError::HeightMismatch)
    );
    assert!(sandbox.finalize_block(current).is_ok());
}

#[test]
fn finalize_links_the_next_block_to_its_parent() {
    let mut sandbox = Sandbox::default();
    let current = sandbox.block_number();
    let hash = sandbox.finalize_block(current).unwrap();
    sandbox.initialize_block(current + 1, &hash);
    assert_eq!(sandbox.block_number(), current + 1);
    assert!(sandbox.events().is_empty());
}

#[test]
fn dry_run_rolls_back_block_building() {
    let mut sandbox = Sandbox::default();
    let initial = sandbox.block_number();

    sandbox.dry_run(|sandbox: &mut Sandbox| {
        sandbox.build_block();
        assert_eq!(sandbox.block_number(), initial + 1);
        sandbox.build_blocks(3);
        assert_eq!(sandbox.block_number(), initial + 4);
    });

    assert_eq!(sandbox.block_number(), initial);
}

#[test]
fn dry_runs_nest() {
    let mut sandbox = Sandbox::default();
    let actor = Sandbox::default_actor();
    let initial_balance = sandbox.free_balance(&actor);

    sandbox.dry_run(|outer: &mut Sandbox| {
        outer.mint_into(&actor, 10).unwrap();
        outer.dry_run(|inner: &mut Sandbox| {
            inner.mint_into(&actor, 5).unwrap();
            assert_eq!(inner.free_balance(&actor), initial_balance + 15);
        });
        assert_eq!(outer.free_balance(&actor), initial_balance + 10);
    });

    assert_eq!(sandbox.free_balance(&actor), initial_balance);
}

#[test]
fn execute_with_is_reentrant_and_durable() {
    let mut sandbox = Sandbox::default();
    let actor = Sandbox::default_actor();
    let initial_balance = sandbox.free_balance(&actor);

    let height = sandbox.execute_with(|outer: &mut Sandbox| {
        outer.mint_into(&actor, 42).unwrap();
        outer.execute_with(|inner: &mut Sandbox| inner.block_number())
    });

    assert_eq!(height, 1);
    assert_eq!(sandbox.free_balance(&actor), initial_balance + 42);
}

#[test]
fn timestamps_advance_with_blocks() {
    let mut sandbox = Sandbox::default();
    let before = sandbox.get_timestamp();
    sandbox.build_block();
    assert_eq!(sandbox.get_timestamp(), before + 1000);
}

#[test]
fn finalizing_twice_gives_the_same_hash() {
    let sandbox = Sandbox::default();
    let current = sandbox.block_number();
    assert_eq!(
        sandbox.finalize_block(current).unwrap(),
        sandbox.finalize_block(current).unwrap()
    );
}
