use streampay_stream::env::Env;
use streampay_stream::error::Error;
use streampay_stream::events::Event;
use streampay_stream::host::{Address, AddressKind, HostCall, WasmHash};
use streampay_stream::migrate::{
    current_version, is_at_latest_version, migrate_internal, LATEST_VERSION,
};
use streampay_stream::Contract;

fn account(n: u128) -> Address {
    Address { kind: AddressKind::Account, hi: 0, lo: n }
}

fn setup() -> (Env, Address) {
    let contract = Address { kind: AddressKind::Contract, hi: 0, lo: 1 };
    let mut env = Env::new(contract, 0, 0);
    let admin = account(100);
    Contract::initialize(&mut env, admin).unwrap();
    (env, admin)
}

#[test]
fn current_version_returns_zero_for_unmigrated_contract() {
    let (env, _admin) = setup();
    let version = current_version(&env);
    assert_eq!(version, 0, "pre-migration contract must report version 0");
}

#[test]
fn is_at_latest_version_returns_false_for_unmigrated_contract() {
    let (env, _admin) = setup();
    assert!(
        !is_at_latest_version(&env),
        "unmigrated contract should not be at latest version"
    );
}

#[test]
fn is_at_latest_version_returns_true_after_migration() {
    let (mut env, admin) = setup();
    migrate_internal(&mut env, admin).unwrap();
    assert!(
        is_at_latest_version(&env),
        "after migration the contract should report latest version"
    );
}

#[test]
fn migrate_sets_version_to_latest() {
    let (mut env, admin) = setup();
    let _ = migrate_internal(&mut env, admin);
    let version = current_version(&env);
    assert_eq!(
        version, LATEST_VERSION,
        "migrate must advance version to {LATEST_VERSION}, got {version}"
    );
}

#[test]
fn migrate_is_idempotent() {
    let (mut env, admin) = setup();
    migrate_internal(&mut env, admin).unwrap();
    assert!(is_at_latest_version(&env));
    let result = migrate_internal(&mut env, admin);
    assert!(
        result.is_ok(),
        "second migrate call must be idempotent (no error)"
    );
    assert!(
        is_at_latest_version(&env),
        "contract must still be at latest version after second call"
    );
}

#[test]
fn migrate_succeeds_even_if_paused() {
    let (mut env, admin) = setup();
    Contract::set_paused(&mut env, admin, true).unwrap();
    let result = migrate_internal(&mut env, admin);
    assert!(
        result.is_ok(),
        "migrate must succeed even when contract is paused"
    );
}

#[test]
fn migrate_requires_admin_auth() {
    let (mut env, _admin) = setup();
    let impostor = account(101);
    let result = migrate_internal(&mut env, impostor);
    assert!(result.is_err(), "non-admin caller must be rejected");
}

#[test]
fn migrate_fails_for_uninitialized_contract() {
    let contract = Address { kind: AddressKind::Contract, hi: 0, lo: 1 };
    let mut env = Env::new(contract, 0, 0);
    let admin = account(100);
    let result = migrate_internal(&mut env, admin);
    assert!(
        result.is_err(),
        "migrate on an uninitialised contract must fail"
    );
}

#[test]
fn version_marker_survives_after_migration() {
    let (mut env, admin) = setup();
    migrate_internal(&mut env, admin).unwrap();
    let stored = env.version;
    assert!(
        stored.is_some(),
        "version marker must be persisted after migration"
    );
    assert_eq!(
        stored.unwrap().version,
        LATEST_VERSION,
        "persisted version must match LATEST_VERSION"
    );
}

#[test]
fn read_views_work_after_migration() {
    let (mut env, admin) = setup();
    migrate_internal(&mut env, admin).unwrap();
    let paused = Contract::is_paused(&mut env);
    assert!(!paused, "paused flag must still be readable after migration");

    let contract = Address { kind: AddressKind::Contract, hi: 0, lo: 2 };
    let mut other = Env::new(contract, 0, 0);
    Contract::initialize(&mut other, admin).unwrap();
    let paused = Contract::is_paused(&mut other);
    assert!(!paused, "paused flag must still be readable after migration");
}

#[test]
fn test_upgrade() {
    let (mut env, admin) = setup();
    let new_wasm_hash = WasmHash { hi: 0, lo: 0 };
    Contract::upgrade(&mut env, admin, new_wasm_hash).unwrap();
    assert_eq!(env.admin, Some(admin));
    assert_eq!(env.paused, Some(false));
    let n = env.calls.len();
    assert_eq!(env.calls[n - 2], HostCall::ReplaceCode { hash: new_wasm_hash });
    assert_eq!(
        env.calls[n - 1],
        HostCall::Publish { event: Event::Upgraded { hash: new_wasm_hash } }
    );
}

#[test]
fn upgrade_refuses_everyone_but_the_admin() {
    let (mut env, _admin) = setup();
    let calls = env.calls.len();
    let hash = WasmHash { hi: 7, lo: 9 };
    assert_eq!(
        Contract::upgrade(&mut env, account(101), hash),
        Err(Error::Unauthorized)
    );
    assert_eq!(env.calls.len(), calls);
    let mut blank = Env::new(account(1), 0, 0);
    assert_eq!(
        Contract::upgrade(&mut blank, account(101), hash),
        Err(Error::NotFound)
    );
}

#[test]
fn migration_is_refused_with_its_reason() {
    let (mut env, _admin) = setup();
    assert_eq!(
        Contract::migrate(&mut env, account(101)),
        Err(Error::Unauthorized)
    );
    let mut blank = Env::new(account(1), 0, 0);
    assert_eq!(
        Contract::migrate(&mut blank, account(101)),
        Err(Error::NotFound)
    );
    assert_eq!(Contract::storage_version(&blank), 0);
}

#[test]
fn migration_extends_the_instance_from_the_threshold() {
    let contract = Address { kind: AddressKind::Contract, hi: 0, lo: 1 };
    let mut env = Env::new(contract, 0, 1_000);
    let admin = account(100);
    Contract::initialize(&mut env, admin).unwrap();
    Contract::migrate(&mut env, admin).unwrap();
    assert_eq!(Contract::storage_version(&env), 1);
    assert_eq!(
        env.calls[env.calls.len() - 1],
        HostCall::ExtendInstance { threshold: 121_960, extend_to: 640_360 }
    );
    let calls = env.calls.len();
    Contract::migrate(&mut env, admin).unwrap();
    assert_eq!(
        &env.calls[calls..],
        &[HostCall::ExtendInstance { threshold: 121_960, extend_to: 519_400 }]
    );
}
