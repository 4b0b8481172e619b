use streampay_stream::env::Env;
use streampay_stream::error::Error;
use streampay_stream::events::Event;
use streampay_stream::host::{Address, AddressKind, HostCall};
use streampay_stream::storage::{DataKey, StreamStatus};
use streampay_stream::Contract;

fn account(n: u128) -> Address {
    Address { kind: AddressKind::Account, hi: 0, lo: n }
}

const ADMIN: u128 = 100;
const SENDER: u128 = 1;
const RECIPIENT: u128 = 2;
const TOKEN: u128 = 50;

/// A running contract at ledger time `now`.
fn setup(now: u64) -> Env {
    let contract = Address { kind: AddressKind::Contract, hi: 0, lo: 1 };
    let mut env = Env::new(contract, now, 1_000);
    Contract::initialize(&mut env, account(ADMIN)).unwrap();
    env
}

/// A stream of `total` from ledger time `start` to `end`.
fn stream(env: &mut Env, total: i128, start: u64, end: u64, fee_bps: u32) -> Result<u64, Error> {
    Contract::create_stream(
        env,
        account(SENDER),
        account(RECIPIENT),
        account(TOKEN),
        total,
        start,
        end,
        fee_bps,
        0,
    )
}

#[test]
fn creation_escrows_records_and_announces() {
    let mut env = setup(10);
    let before = env.calls.len();
    let id = stream(&mut env, 1_000, 20, 120, 250).unwrap();
    assert_eq!(id, 1);
    let s = Contract::get_stream(&mut env, id).unwrap();
    assert_eq!(s.id, 1);
    assert_eq!(s.sender, account(SENDER));
    assert_eq!(s.recipient, account(RECIPIENT));
    assert_eq!(s.token, account(TOKEN));
    assert_eq!(s.total_amount, 1_000);
    assert_eq!(s.released_amount, 0);
    assert_eq!(s.start_time, 20);
    assert_eq!(s.end_time, 120);
    assert_eq!(s.duration, 100);
    assert_eq!(s.last_update, 20);
    assert_eq!(s.status, StreamStatus::Active);
    assert_eq!(s.paused_at, 0);
    assert_eq!(s.total_paused_duration, 0);
    assert_eq!(s.fee_bps, 250);
    assert_eq!(Contract::get_stream_fee_bps(&mut env, id), Ok(250));
    assert_eq!(
        &env.calls[before..before + 7],
        &[
            HostCall::ExtendInstance { threshold: 121_960, extend_to: 519_400 },
            HostCall::ExtendInstance { threshold: 121_960, extend_to: 519_400 },
            HostCall::Transfer {
                token: account(TOKEN),
                from: account(SENDER),
                to: env.contract_address,
                amount: 1_000,
            },
            HostCall::ExtendRow {
                key: DataKey::Stream(1),
                threshold: 242_920,
                extend_to: 1_556_200,
            },
            HostCall::ExtendRow {
                key: DataKey::StreamFeeBps(1),
                threshold: 242_920,
                extend_to: 1_556_200,
            },
            HostCall::ExtendRow {
                key: DataKey::SenderStreamCount(account(SENDER)),
                threshold: 242_920,
                extend_to: 1_556_200,
            },
            HostCall::Publish {
                event: Event::Created {
                    stream_id: 1,
                    sender: account(SENDER),
                    recipient: account(RECIPIENT),
                    token: account(TOKEN),
                    total_amount: 1_000,
                    timestamp: 10,
                },
            },
        ]
    );
    assert_eq!(env.auths, vec![account(ADMIN), account(SENDER)]);
}

#[test]
fn ids_ascend_from_one() {
    let mut env = setup(0);
    assert_eq!(stream(&mut env, 5, 0, 10, 0), Ok(1));
    assert_eq!(stream(&mut env, 5, 0, 10, 0), Ok(2));
    assert_eq!(
        Contract::create_draft_stream(
            &mut env,
            account(SENDER),
            account(RECIPIENT),
            account(TOKEN),
            5,
            10
        ),
        Ok(3)
    );
    assert_eq!(env.stream_count, Some(4));
}

#[test]
fn the_last_id_has_no_successor() {
    let mut env = setup(0);
    env.stream_count = Some(u64::MAX);
    assert_eq!(stream(&mut env, 5, 0, 10, 0), Ok(u64::MAX));
    assert_eq!(env.stream_count, Some(u64::MAX));
}

#[test]
fn creation_is_refused_with_its_reason() {
    let mut env = setup(100);
    assert_eq!(stream(&mut env, 0, 100, 200, 0), Err(Error::InvalidAmount));
    assert_eq!(stream(&mut env, -1, 100, 200, 0), Err(Error::InvalidAmount));
    assert_eq!(stream(&mut env, 5, 100, 100, 0), Err(Error::InvalidTimeRange));
    assert_eq!(stream(&mut env, 5, 99, 200, 0), Err(Error::InvalidTimeRange));
    assert_eq!(stream(&mut env, 5, 100, 200, 10_001), Err(Error::InvalidFeeBps));
    assert_eq!(
        Contract::create_stream(
            &mut env,
            account(SENDER),
            account(SENDER),
            account(TOKEN),
            5,
            100,
            200,
            0,
            0
        ),
        Err(Error::SelfStream)
    );
    assert_eq!(
        Contract::create_stream(
            &mut env,
            account(SENDER),
            account(RECIPIENT),
            account(TOKEN),
            5,
            100,
            200,
            0,
            -1
        ),
        Err(Error::RecipientTrustlineMissing)
    );
    Contract::set_token_allowed(&mut env, account(ADMIN), account(TOKEN), false).unwrap();
    assert_eq!(stream(&mut env, 5, 100, 200, 0), Err(Error::TokenNotAllowed));
    Contract::set_token_allowed(&mut env, account(ADMIN), account(TOKEN), true).unwrap();
    assert_eq!(stream(&mut env, 5, 100, 200, 10_000), Ok(1));
}

#[test]
fn refused_creation_leaves_no_trace() {
    let mut env = setup(100);
    let calls = env.calls.len();
    assert_eq!(stream(&mut env, 5, 99, 200, 0), Err(Error::InvalidTimeRange));
    assert_eq!(env.calls.len(), calls);
    assert_eq!(env.stream_count, None);
    assert!(env.streams.get(1).is_none());
    assert_eq!(env.auths, vec![account(ADMIN), account(SENDER)]);
}

#[test]
fn paused_contract_demands_no_authorisation() {
    let mut env = setup(0);
    Contract::set_paused(&mut env, account(ADMIN), true).unwrap();
    let calls = env.calls.len();
    let auths = env.auths.len();
    assert_eq!(stream(&mut env, 5, 0, 10, 0), Err(Error::ContractPaused));
    assert_eq!(env.calls.len(), calls);
    assert_eq!(env.auths.len(), auths);
}

#[test]
fn terms_are_tested_before_the_balance_is_known() {
    let mut env = setup(100);
    let mut probe = env.clone();
    assert_eq!(
        Contract::check_stream_terms(
            &mut probe,
            account(SENDER),
            account(RECIPIENT),
            account(TOKEN),
            0,
            0
        ),
        Err(Error::InvalidAmount)
    );
    assert_eq!(
        Contract::check_stream_terms(
            &mut env,
            account(SENDER),
            account(RECIPIENT),
            account(TOKEN),
            1,
            0
        ),
        Ok(())
    );
}

#[test]
fn draft_waits_with_its_duration() {
    let mut env = setup(10);
    Contract::set_default_fee_bps(&mut env, account(ADMIN), 75).unwrap();
    let id = Contract::create_draft_stream(
        &mut env,
        account(SENDER),
        account(RECIPIENT),
        account(TOKEN),
        700,
        30,
    )
    .unwrap();
    let s = Contract::get_stream(&mut env, id).unwrap();
    assert_eq!(s.status, StreamStatus::Draft);
    assert_eq!((s.start_time, s.end_time, s.last_update), (0, 0, 0));
    assert_eq!(s.duration, 30);
    assert_eq!(s.fee_bps, 75);
    assert_eq!(Contract::stream_balance(&mut env, id), Ok(0));
    assert_eq!(Contract::sender_stream_count(&mut env, account(SENDER)), 1);
}

#[test]
fn draft_is_refused_with_its_reason() {
    let mut env = setup(10);
    let draft = |env: &mut Env, to: u128, total: i128, duration: u64| {
        Contract::create_draft_stream(
            env,
            account(SENDER),
            account(to),
            account(TOKEN),
            total,
            duration,
        )
    };
    assert_eq!(draft(&mut env, RECIPIENT, 0, 30), Err(Error::InvalidAmount));
    assert_eq!(draft(&mut env, SENDER, 7, 30), Err(Error::InvalidState));
    assert_eq!(draft(&mut env, RECIPIENT, 7, 0), Err(Error::InvalidTimeRange));
    Contract::set_token_allowed(&mut env, account(ADMIN), account(TOKEN), false).unwrap();
    assert_eq!(draft(&mut env, RECIPIENT, 7, 30), Err(Error::TokenNotAllowed));
    Contract::set_paused(&mut env, account(ADMIN), true).unwrap();
    assert_eq!(draft(&mut env, RECIPIENT, 7, 30), Err(Error::ContractPaused));
}

#[test]
fn sender_limit_counts_live_streams() {
    let mut env = setup(0);
    assert_eq!(Contract::max_streams_per_sender(&mut env), 10);
    Contract::set_max_streams_per_sender(&mut env, account(ADMIN), 2).unwrap();
    assert_eq!(Contract::remaining_sender_capacity(&mut env, account(SENDER)), 2);
    stream(&mut env, 5, 0, 10, 0).unwrap();
    stream(&mut env, 5, 0, 10, 0).unwrap();
    assert_eq!(Contract::sender_stream_count(&mut env, account(SENDER)), 2);
    assert_eq!(Contract::remaining_sender_capacity(&mut env, account(SENDER)), 0);
    assert_eq!(stream(&mut env, 5, 0, 10, 0), Err(Error::StreamLimitExceeded));
    Contract::cancel_stream(&mut env, 1).unwrap();
    assert_eq!(Contract::sender_stream_count(&mut env, account(SENDER)), 1);
    assert_eq!(stream(&mut env, 5, 0, 10, 0), Ok(3));
    Contract::set_max_streams_per_sender(&mut env, account(ADMIN), 1).unwrap();
    assert_eq!(Contract::remaining_sender_capacity(&mut env, account(SENDER)), 0);
    assert_eq!(Contract::sender_stream_count(&mut env, account(77)), 0);
}

#[test]
fn new_streams_cover_what_is_owed() {
    let mut env = setup(0);
    stream(&mut env, 5, 0, 10, 0).unwrap();
    stream(&mut env, 6, 0, 10, 0).unwrap();
    let mut held: i128 = 0;
    for c in env.calls.iter() {
        if let HostCall::Transfer { to, amount, .. } = *c {
            if to == env.contract_address {
                held += amount;
            }
        }
    }
    assert_eq!(held, 11);
}
