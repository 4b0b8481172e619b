use streampay_stream::env::Env;
use streampay_stream::error::Error;
use streampay_stream::events::{Event, LegacyEntrypoint};
use streampay_stream::host::{Address, AddressKind, HostCall};
use streampay_stream::storage::DataKey;
use streampay_stream::Contract;

fn account(n: u128) -> Address {
    Address { kind: AddressKind::Account, hi: 0, lo: n }
}

const ADMIN: u128 = 100;
const SENDER: u128 = 1;
const RECIPIENT: u128 = 2;
const TOKEN: u128 = 50;

/// A running contract at ledger time `now`.
fn setup(now: u64) -> Env {
    let contract = Address { kind: AddressKind::Contract, hi: 0, lo: 1 };
    let mut env = Env::new(contract, now, 1_000);
    Contract::initialize(&mut env, account(ADMIN)).unwrap();
    env
}

/// A stream of `total` from ledger time `start` to `end`.
fn stream(env: &mut Env, total: i128, start: u64, end: u64, fee_bps: u32) -> Result<u64, Error> {
    Contract::create_stream(
        env,
        account(SENDER),
        account(RECIPIENT),
        account(TOKEN),
        total,
        start,
        end,
        fee_bps,
        0,
    )
}


#[test]
fn initialisation_happens_once() {
    let contract = Address { kind: AddressKind::Contract, hi: 0, lo: 1 };
    let mut env = Env::new(contract, 33, 1_000);
    assert_eq!(Contract::initialize(&mut env, account(ADMIN)), Ok(()));
    assert_eq!(env.admin, Some(account(ADMIN)));
    assert_eq!(env.paused, Some(false));
    assert_eq!(env.auths, vec![account(ADMIN)]);
    assert_eq!(
        env.calls,
        vec![
            HostCall::ExtendInstance { threshold: 121_960, extend_to: 519_400 },
            HostCall::ExtendInstance { threshold: 121_960, extend_to: 519_400 },
            HostCall::Publish {
                event: Event::DeprecatedEntrypoint {
                    caller: account(ADMIN),
                    entrypoint: LegacyEntrypoint::Initialize,
                    timestamp: 33,
                },
            },
        ]
    );
    assert_eq!(
        Contract::initialize(&mut env, account(101)),
        Err(Error::AlreadyInitialized)
    );
    assert_eq!(
        Contract::init_with_token_allowlist(&mut env, account(101), vec![account(TOKEN)]),
        Err(Error::AlreadyInitialized)
    );
    assert_eq!(
        Contract::init_with_token_allowlist_for_org(
            &mut env,
            account(101),
            vec![account(TOKEN)],
            account(9),
            vec![account(TOKEN)]
        ),
        Err(Error::AlreadyInitialized)
    );
    assert_eq!(env.admin, Some(account(ADMIN)));
    assert!(env.token_allowed.get(account(TOKEN)).is_none());
    assert_eq!(env.auths, vec![account(ADMIN)]);
    assert_eq!(env.calls.len(), 3);
}

#[test]
fn initialisation_allows_the_listed_tokens() {
    let contract = Address { kind: AddressKind::Contract, hi: 0, lo: 1 };
    let mut env = Env::new(contract, 0, 1_000);
    Contract::init_with_token_allowlist(
        &mut env,
        account(ADMIN),
        vec![account(50), account(51)],
    )
    .unwrap();
    assert_eq!(env.token_allowed.get(account(50)), Some(&true));
    assert_eq!(env.token_allowed.get(account(51)), Some(&true));
    assert!(env.token_allowed.get(account(52)).is_none());
    assert_eq!(
        env.calls[3],
        HostCall::ExtendRow {
            key: DataKey::TokenAllowed(account(51)),
            threshold: 121_960,
            extend_to: 519_400,
        }
    );
}

#[test]
fn initialisation_grants_tokens_to_an_organisation() {
    let contract = Address { kind: AddressKind::Contract, hi: 0, lo: 1 };
    let mut env = Env::new(contract, 0, 1_000);
    let org = account(9);
    Contract::init_with_token_allowlist_for_org(
        &mut env,
        account(ADMIN),
        vec![account(50)],
        org,
        vec![account(51)],
    )
    .unwrap();
    assert!(Contract::is_org_token_allowed(&mut env, org, account(51)));
    assert!(!Contract::is_org_token_allowed(&mut env, org, account(50)));
    assert!(Contract::is_org_token_allowed(&mut env, account(8), account(50)));
}

#[test]
fn ledger_extensions_stop_at_the_last_ledger() {
    let contract = Address { kind: AddressKind::Contract, hi: 0, lo: 1 };
    let mut env = Env::new(contract, 0, u32::MAX - 200_000);
    Contract::initialize(&mut env, account(ADMIN)).unwrap();
    assert_eq!(
        env.calls[0],
        HostCall::ExtendInstance { threshold: u32::MAX - 79_040, extend_to: u32::MAX }
    );
}

#[test]
fn only_the_admin_sets_anything() {
    let mut env = setup(0);
    let other = account(101);
    let before = env.calls.len();
    assert_eq!(Contract::set_paused(&mut env, other, true), Err(Error::Unauthorized));
    assert_eq!(Contract::set_admin(&mut env, other, other), Err(Error::Unauthorized));
    assert_eq!(
        Contract::set_token_allowed(&mut env, other, account(TOKEN), false),
        Err(Error::Unauthorized)
    );
    assert_eq!(
        Contract::set_fee_collector(&mut env, other, other),
        Err(Error::Unauthorized)
    );
    assert_eq!(
        Contract::set_default_fee_bps(&mut env, other, 1),
        Err(Error::Unauthorized)
    );
    assert_eq!(
        Contract::set_org_token_allowed(&mut env, other, other, account(TOKEN), true),
        Err(Error::Unauthorized)
    );
    assert_eq!(
        Contract::set_max_streams_per_sender(&mut env, other, 1),
        Err(Error::Unauthorized)
    );
    assert_eq!(Contract::set_fee_bps(&mut env, other, 1), Err(Error::Unauthorized));
    assert_eq!(env.calls.len(), before);
    assert_eq!(env.auths.len(), 9);

    let mut blank = Env::new(account(1), 0, 0);
    assert_eq!(Contract::set_paused(&mut blank, other, true), Err(Error::NotFound));
    assert_eq!(Contract::set_admin(&mut blank, other, other), Err(Error::NotFound));
}

#[test]
fn the_admin_role_is_handed_over() {
    let mut env = setup(5);
    Contract::set_admin(&mut env, account(ADMIN), account(101)).unwrap();
    assert_eq!(
        env.calls[env.calls.len() - 1],
        HostCall::Publish {
            event: Event::AdminChanged {
                admin: account(ADMIN),
                new_admin: account(101),
                timestamp: 5,
            },
        }
    );
    assert_eq!(
        Contract::set_paused(&mut env, account(ADMIN), true),
        Err(Error::Unauthorized)
    );
    assert_eq!(Contract::set_paused(&mut env, account(101), true), Ok(()));
    assert!(Contract::is_paused(&mut env));
    assert_eq!(
        env.calls[env.calls.len() - 2],
        HostCall::Publish {
            event: Event::PausedSet { admin: account(101), paused: true, timestamp: 5 },
        }
    );
    assert_eq!(Contract::set_paused(&mut env, account(101), false), Ok(()));
    assert!(!Contract::is_paused(&mut env));
}

#[test]
fn fees_stay_within_bounds() {
    let mut env = setup(0);
    assert_eq!(Contract::get_default_fee_bps(&mut env), 0);
    assert_eq!(Contract::fee_bps(&mut env), 0);
    assert_eq!(
        Contract::set_default_fee_bps(&mut env, account(ADMIN), 10_001),
        Err(Error::InvalidFeeBps)
    );
    assert_eq!(
        Contract::set_fee_bps(&mut env, account(ADMIN), 10_001),
        Err(Error::InvalidAmount)
    );
    assert_eq!(Contract::set_default_fee_bps(&mut env, account(ADMIN), 10_000), Ok(()));
    assert_eq!(Contract::set_fee_bps(&mut env, account(ADMIN), 10_000), Ok(()));
    assert_eq!(Contract::get_default_fee_bps(&mut env), 10_000);
    assert_eq!(Contract::fee_bps(&mut env), 10_000);
}

#[test]
fn a_stream_keeps_its_fee() {
    let mut env = setup(0);
    let id = stream(&mut env, 10, 0, 10, 40).unwrap();
    Contract::set_default_fee_bps(&mut env, account(ADMIN), 500).unwrap();
    assert_eq!(Contract::get_stream_fee_bps(&mut env, id), Ok(40));
    assert_eq!(Contract::get_stream_fee_bps(&mut env, 9), Err(Error::NotFound));
}

#[test]
fn a_blocked_token_leaves_streams_alone() {
    let mut env = setup(0);
    let id = stream(&mut env, 10, 0, 10, 0).unwrap();
    Contract::set_token_allowed(&mut env, account(ADMIN), account(TOKEN), false).unwrap();
    env.timestamp = 10;
    assert_eq!(Contract::withdraw(&mut env, account(RECIPIENT), id, 10), Ok(10));
}

#[test]
fn an_organisation_is_restricted_from_its_first_grant_on() {
    let mut env = setup(0);
    let admin = account(ADMIN);
    let org = account(9);
    let create = |env: &mut Env, org: Address, token: Address| {
        Contract::create_stream_for_org(
            env,
            org,
            account(SENDER),
            account(RECIPIENT),
            token,
            5,
            0,
            10,
            0,
            0,
        )
    };
    assert_eq!(create(&mut env, org, account(50)), Ok(1));
    Contract::set_org_token_allowed(&mut env, admin, org, account(50), false).unwrap();
    assert_eq!(create(&mut env, org, account(50)), Err(Error::TokenNotAllowed));
    assert_eq!(create(&mut env, org, account(51)), Ok(2));
    Contract::set_org_token_allowed(&mut env, admin, org, account(52), true).unwrap();
    assert_eq!(create(&mut env, org, account(52)), Ok(3));
    let auths = env.auths.len();
    assert_eq!(create(&mut env, org, account(51)), Err(Error::TokenNotAllowed));
    assert_eq!(env.auths.len(), auths);
    assert_eq!(create(&mut env, account(8), account(51)), Ok(4));
    Contract::set_token_allowed(&mut env, admin, account(52), false).unwrap();
    assert_eq!(create(&mut env, org, account(52)), Err(Error::TokenNotAllowed));
    assert!(!Contract::is_org_token_allowed(&mut env, org, account(52)));
}

#[test]
fn overrides_use_up_their_nonce() {
    let mut env = setup(0);
    let admin = account(ADMIN);
    let id = stream(&mut env, 1_000, 0, 100, 0).unwrap();
    assert_eq!(Contract::get_admin_nonce(&mut env), 0);
    assert_eq!(
        Contract::admin_override(&mut env, admin, 1, id, 200),
        Err(Error::NonceOutOfOrder)
    );
    env.timestamp = 10;
    let s = Contract::admin_override(&mut env, admin, 0, id, 200).unwrap();
    assert_eq!((s.end_time, s.last_update, s.duration), (200, 10, 100));
    assert_eq!(Contract::get_admin_nonce(&mut env), 1);
    assert_eq!(
        Contract::admin_override(&mut env, admin, 0, id, 200),
        Err(Error::NonceTooLow)
    );
    env.timestamp = 100;
    assert_eq!(Contract::stream_balance(&mut env, id), Ok(500));
}

#[test]
fn overrides_are_refused_with_their_reason() {
    let mut env = setup(5);
    let admin = account(ADMIN);
    let id = stream(&mut env, 1_000, 5, 100, 0).unwrap();
    assert_eq!(
        Contract::admin_override(&mut env, account(101), 0, id, 200),
        Err(Error::Unauthorized)
    );
    assert_eq!(
        Contract::admin_override(&mut env, admin, 0, 9, 200),
        Err(Error::NotFound)
    );
    assert_eq!(
        Contract::admin_override(&mut env, admin, 0, id, 5),
        Err(Error::InvalidTimeRange)
    );
    Contract::cancel_stream(&mut env, id).unwrap();
    assert_eq!(
        Contract::admin_override(&mut env, admin, 0, id, 200),
        Err(Error::InvalidState)
    );
    assert_eq!(Contract::get_admin_nonce(&mut env), 0);
    env.admin_nonce = Some(u64::MAX);
    assert_eq!(
        Contract::admin_override(&mut env, admin, u64::MAX, id, 200),
        Err(Error::Overflow)
    );
    let mut blank = Env::new(account(1), 0, 0);
    assert_eq!(
        Contract::admin_override(&mut blank, admin, 0, id, 200),
        Err(Error::NotFound)
    );
}
