use streampay_stream::env::Env;
use streampay_stream::error::Error;
use streampay_stream::events::Event;
use streampay_stream::host::{Address, AddressKind, HostCall};
use streampay_stream::storage::{Stream, StreamStatus};
use streampay_stream::Contract;

fn account(n: u128) -> Address {
    Address { kind: AddressKind::Account, hi: 0, lo: n }
}

const ADMIN: u128 = 100;
const SENDER: u128 = 1;
const RECIPIENT: u128 = 2;
const TOKEN: u128 = 50;

/// A running contract at ledger time `now`.
fn setup(now: u64) -> Env {
    let contract = Address { kind: AddressKind::Contract, hi: 0, lo: 1 };
    let mut env = Env::new(contract, now, 1_000);
    Contract::initialize(&mut env, account(ADMIN)).unwrap();
    env
}

/// A stream of `total` from ledger time `start` to `end`.
fn stream(env: &mut Env, total: i128, start: u64, end: u64, fee_bps: u32) -> Result<u64, Error> {
    Contract::create_stream(
        env,
        account(SENDER),
        account(RECIPIENT),
        account(TOKEN),
        total,
        start,
        end,
        fee_bps,
        0,
    )
}

/// What the host calls so far give `who` of the token.
fn balance(env: &Env, who: Address) -> i128 {
    let mut sum: i128 = 0;
    for c in env.calls.iter() {
        if let HostCall::Transfer { token, from, to, amount } = *c {
            if token == account(TOKEN) {
                if to == who {
                    sum += amount;
                }
                if from == who {
                    sum -= amount;
                }
            }
        }
    }
    sum
}

fn draft(env: &mut Env, total: i128, duration: u64) -> u64 {
    Contract::create_draft_stream(
        env,
        account(SENDER),
        account(RECIPIENT),
        account(TOKEN),
        total,
        duration,
    )
    .unwrap()
}

#[test]
fn draft_starts_now() {
    let mut env = setup(10);
    let id = draft(&mut env, 700, 70);
    env.timestamp = 1_000;
    let s = Contract::start_stream(&mut env, id).unwrap();
    assert_eq!(s.status, StreamStatus::Active);
    assert_eq!((s.start_time, s.end_time, s.last_update), (1_000, 1_070, 1_000));
    assert_eq!(
        env.calls[env.calls.len() - 1],
        HostCall::Publish {
            event: Event::Started {
                stream_id: id,
                start_time: 1_000,
                end_time: 1_070,
                timestamp: 1_000,
            },
        }
    );
    env.timestamp = 1_035;
    assert_eq!(Contract::stream_balance(&mut env, id), Ok(350));
    assert_eq!(
        Contract::start_stream(&mut env, id),
        Err(Error::InvalidState)
    );
}

#[test]
fn start_is_refused_with_its_reason() {
    let mut env = setup(10);
    assert_eq!(Contract::start_stream(&mut env, 1), Err(Error::NotFound));
    let id = draft(&mut env, 700, u64::MAX);
    assert_eq!(
        Contract::start_stream(&mut env, id),
        Err(Error::InvalidTimeRange)
    );
    assert_eq!(env.auths[env.auths.len() - 1], account(SENDER));
    Contract::set_paused(&mut env, account(ADMIN), true).unwrap();
    assert_eq!(
        Contract::start_stream(&mut env, id),
        Err(Error::ContractPaused)
    );
}

#[test]
fn pause_freezes_and_resume_shifts() {
    let mut env = setup(0);
    let id = stream(&mut env, 1_000, 0, 100, 0).unwrap();
    env.timestamp = 40;
    let s = Contract::pause(&mut env, id).unwrap();
    assert_eq!(s.status, StreamStatus::Paused);
    assert_eq!((s.paused_at, s.last_update), (40, 40));
    env.timestamp = 90;
    assert_eq!(Contract::stream_balance(&mut env, id), Ok(400));
    assert_eq!(Contract::withdraw(&mut env, account(RECIPIENT), id, 100), Ok(100));
    assert_eq!(Contract::pause(&mut env, id), Err(Error::InvalidState));
    let s = Contract::resume(&mut env, id).unwrap();
    assert_eq!(s.status, StreamStatus::Active);
    assert_eq!(s.end_time, 150);
    assert_eq!(s.total_paused_duration, 50);
    assert_eq!(s.paused_at, 0);
    assert_eq!(Contract::stream_balance(&mut env, id), Ok(400));
    env.timestamp = 120;
    assert_eq!(Contract::stream_balance(&mut env, id), Ok(700));
    env.timestamp = 150;
    assert_eq!(Contract::stream_balance(&mut env, id), Ok(1_000));
    assert_eq!(Contract::resume(&mut env, id), Err(Error::InvalidState));
    assert_eq!(Contract::pause(&mut env, 9), Err(Error::NotFound));
    assert_eq!(Contract::resume(&mut env, 9), Err(Error::NotFound));
}

#[test]
fn pauses_publish_events() {
    let mut env = setup(0);
    let id = stream(&mut env, 1_000, 0, 100, 0).unwrap();
    env.timestamp = 40;
    Contract::pause(&mut env, id).unwrap();
    assert_eq!(
        env.calls[env.calls.len() - 1],
        HostCall::Publish {
            event: Event::Paused {
                stream_id: id,
                sender: account(SENDER),
                paused_at: 40,
                timestamp: 40,
            },
        }
    );
    env.timestamp = 45;
    Contract::resume(&mut env, id).unwrap();
    assert_eq!(
        env.calls[env.calls.len() - 1],
        HostCall::Publish {
            event: Event::Resumed {
                stream_id: id,
                sender: account(SENDER),
                end_time: 105,
                timestamp: 45,
            },
        }
    );
}

#[test]
fn resume_refuses_times_out_of_range() {
    let mut env = setup(0);
    let id = stream(&mut env, 1_000, 0, u64::MAX, 0).unwrap();
    env.timestamp = 40;
    Contract::pause(&mut env, id).unwrap();
    env.timestamp = 41;
    assert_eq!(Contract::resume(&mut env, id), Err(Error::InvalidTimeRange));
    env.timestamp = 39;
    assert_eq!(Contract::resume(&mut env, id), Err(Error::InvalidTimeRange));
    env.timestamp = 40;
    assert!(Contract::resume(&mut env, id).is_ok());
}

#[test]
fn settlement_pays_the_rest_once() {
    let mut env = setup(0);
    let id = stream(&mut env, 1_000, 0, 100, 0).unwrap();
    env.timestamp = 99;
    assert_eq!(Contract::settle(&mut env, id), Err(Error::InvalidState));
    Contract::withdraw(&mut env, account(RECIPIENT), id, 300).unwrap();
    env.timestamp = 100;
    let auths = env.auths.len();
    assert_eq!(Contract::settle(&mut env, id), Ok(()));
    assert_eq!(env.auths.len(), auths);
    assert_eq!(balance(&env, account(RECIPIENT)), 1_000);
    assert_eq!(balance(&env, env.contract_address), 0);
    assert_eq!(
        env.calls[env.calls.len() - 1],
        HostCall::Publish {
            event: Event::Settled {
                stream_id: id,
                recipient: account(RECIPIENT),
                amount: 1_000,
                timestamp: 100,
            },
        }
    );
    assert_eq!(Contract::sender_stream_count(&mut env, account(SENDER)), 0);
    assert_eq!(Contract::settle(&mut env, id), Ok(()));
    assert_eq!(balance(&env, account(RECIPIENT)), 1_000);
    assert_eq!(Contract::sender_stream_count(&mut env, account(SENDER)), 0);
}

#[test]
fn settlement_is_refused_with_its_reason() {
    let mut env = setup(0);
    assert_eq!(Contract::settle(&mut env, 1), Err(Error::NotFound));
    let id = draft(&mut env, 5, 10);
    env.timestamp = 100;
    assert_eq!(Contract::settle(&mut env, id), Err(Error::InvalidState));
    Contract::cancel_stream(&mut env, id).unwrap();
    assert_eq!(Contract::settle(&mut env, id), Err(Error::InvalidState));
    Contract::set_paused(&mut env, account(ADMIN), true).unwrap();
    assert_eq!(Contract::settle(&mut env, id), Err(Error::ContractPaused));
}

#[test]
fn a_settlement_that_overflows_is_refused() {
    let mut env = setup(0);
    let id = stream(&mut env, i128::MAX, 0, 1, 0).unwrap();
    let mut s: Stream = *env.streams.get(id).unwrap();
    s.released_amount = -1;
    env.streams.set(id, s);
    env.timestamp = 1;
    assert_eq!(Contract::settle(&mut env, id), Err(Error::Overflow));
}

#[test]
fn cancellation_divides_the_escrow() {
    let mut env = setup(0);
    let id = stream(&mut env, 1_000, 0, 300, 0).unwrap();
    env.timestamp = 100;
    Contract::withdraw(&mut env, account(RECIPIENT), id, 33).unwrap();
    let s = Contract::cancel_stream(&mut env, id).unwrap();
    assert_eq!(s.status, StreamStatus::Cancelled);
    assert_eq!(s.released_amount, 333);
    assert_eq!(balance(&env, account(RECIPIENT)), 333);
    assert_eq!(balance(&env, account(SENDER)), -333);
    assert_eq!(balance(&env, env.contract_address), 0);
    assert_eq!(
        env.calls[env.calls.len() - 1],
        HostCall::Publish {
            event: Event::Cancelled {
                stream_id: id,
                sender: account(SENDER),
                sender_refund: 667,
                recipient_payout: 300,
                timestamp: 100,
            },
        }
    );
    assert_eq!(
        Contract::cancel_stream(&mut env, id),
        Err(Error::InvalidState)
    );
    assert_eq!(Contract::cancel_stream(&mut env, 9), Err(Error::NotFound));
    assert_eq!(Contract::withdrawable(&mut env, id), Ok(0));
}

#[test]
fn cancelled_draft_returns_everything() {
    let mut env = setup(0);
    let id = draft(&mut env, 700, 70);
    env.timestamp = 1_000;
    Contract::set_paused(&mut env, account(ADMIN), true).unwrap();
    Contract::cancel_stream(&mut env, id).unwrap();
    assert_eq!(balance(&env, account(SENDER)), 0);
    assert_eq!(balance(&env, account(RECIPIENT)), 0);
}

#[test]
fn amendment_moves_the_end() {
    let mut env = setup(0);
    let id = stream(&mut env, 1_000, 0, 100, 0).unwrap();
    env.timestamp = 50;
    Contract::withdraw(&mut env, account(RECIPIENT), id, 500).unwrap();
    let s = Contract::amend_stream(&mut env, id, 5, 200).unwrap();
    assert_eq!((s.end_time, s.duration, s.last_update), (200, 200, 50));
    assert_eq!(
        env.calls[env.calls.len() - 1],
        HostCall::Publish {
            event: Event::Amended {
                stream_id: id,
                sender: account(SENDER),
                rate_per_second: 5,
                end_time: 200,
                timestamp: 50,
            },
        }
    );
    assert_eq!(Contract::stream_balance(&mut env, id), Ok(500));
    assert_eq!(Contract::withdrawable(&mut env, id), Ok(0));
    env.timestamp = 150;
    assert_eq!(Contract::stream_balance(&mut env, id), Ok(750));
    env.timestamp = 200;
    assert_eq!(Contract::stream_balance(&mut env, id), Ok(1_000));
}

#[test]
fn an_earlier_end_vests_no_less() {
    let mut env = setup(0);
    let id = stream(&mut env, 1_000, 0, 100, 0).unwrap();
    env.timestamp = 20;
    assert_eq!(Contract::stream_balance(&mut env, id), Ok(200));
    Contract::amend_stream(&mut env, id, 1, 40).unwrap();
    assert_eq!(Contract::stream_balance(&mut env, id), Ok(500));
    Contract::admin_override(&mut env, account(ADMIN), 0, id, 20).unwrap();
    assert_eq!(Contract::stream_balance(&mut env, id), Ok(1_000));
}

#[test]
fn an_amendment_must_not_take_back_what_has_vested() {
    let mut env = setup(100);
    let id = stream(&mut env, 1_000, 100, 200, 0).unwrap();
    env.timestamp = 150;
    assert_eq!(Contract::withdrawable(&mut env, id), Ok(500));
    let before = *env.streams.get(id).unwrap();
    let calls = env.calls.len();
    assert_eq!(
        Contract::amend_stream(&mut env, id, 1, 300),
        Err(Error::InvalidTimeRange)
    );
    assert_eq!(*env.streams.get(id).unwrap(), before);
    assert_eq!(env.calls.len(), calls);
    assert_eq!(Contract::withdrawable(&mut env, id), Ok(500));
    Contract::withdraw(&mut env, account(RECIPIENT), id, 499).unwrap();
    assert_eq!(
        Contract::amend_stream(&mut env, id, 1, 300),
        Err(Error::InvalidTimeRange)
    );
    Contract::withdraw(&mut env, account(RECIPIENT), id, 1).unwrap();
    assert!(Contract::amend_stream(&mut env, id, 1, 300).is_ok());
    Contract::cancel_stream(&mut env, id).unwrap();
    assert_eq!(balance(&env, account(RECIPIENT)), 500);
    assert_eq!(balance(&env, account(SENDER)), -500);
}

#[test]
fn an_end_may_be_postponed_before_anything_vests() {
    let mut env = setup(100);
    let id = stream(&mut env, 1_000, 120, 200, 0).unwrap();
    let s = Contract::amend_stream(&mut env, id, 1, 320).unwrap();
    assert_eq!((s.end_time, s.duration), (320, 200));
}

#[test]
fn paused_streams_keep_what_has_vested() {
    let mut env = setup(0);
    let id = stream(&mut env, 1_000, 0, 100, 0).unwrap();
    env.timestamp = 50;
    Contract::pause(&mut env, id).unwrap();
    env.timestamp = 70;
    assert_eq!(
        Contract::amend_stream(&mut env, id, 1, 101),
        Err(Error::InvalidTimeRange)
    );
    assert!(Contract::amend_stream(&mut env, id, 1, 80).is_ok());
    assert_eq!(Contract::stream_balance(&mut env, id), Ok(625));
}

#[test]
fn drafts_are_not_amended() {
    let mut env = setup(0);
    let id = draft(&mut env, 700, 70);
    assert_eq!(
        Contract::amend_stream(&mut env, id, 1, 200),
        Err(Error::InvalidState)
    );
    assert_eq!(Contract::get_stream(&mut env, id).unwrap().duration, 70);
}

#[test]
fn amendment_is_refused_with_its_reason() {
    let mut env = setup(50);
    let id = stream(&mut env, 1_000, 60, 100, 0).unwrap();
    assert_eq!(
        Contract::amend_stream(&mut env, 9, 1, 200),
        Err(Error::NotFound)
    );
    assert_eq!(
        Contract::amend_stream(&mut env, id, 0, 200),
        Err(Error::InvalidAmount)
    );
    assert_eq!(
        Contract::amend_stream(&mut env, id, 1, 50),
        Err(Error::InvalidTimeRange)
    );
    assert_eq!(
        Contract::amend_stream(&mut env, id, 1, 60),
        Err(Error::InvalidTimeRange)
    );
    assert!(Contract::amend_stream(&mut env, id, 1, 61).is_ok());
    let huge = stream(&mut env, i128::MAX, 60, 61, 0).unwrap();
    assert_eq!(
        Contract::amend_stream(&mut env, huge, 1, 62),
        Err(Error::Overflow)
    );
    Contract::cancel_stream(&mut env, id).unwrap();
    assert_eq!(
        Contract::amend_stream(&mut env, id, 1, 200),
        Err(Error::InvalidState)
    );
    Contract::set_paused(&mut env, account(ADMIN), true).unwrap();
    assert_eq!(
        Contract::amend_stream(&mut env, id, 1, 200),
        Err(Error::ContractPaused)
    );
}

#[test]
fn an_amendment_of_an_overpaid_record_is_refused() {
    let mut env = setup(0);
    let id = stream(&mut env, 10, 0, 100, 0).unwrap();
    let mut s: Stream = *env.streams.get(id).unwrap();
    s.released_amount = 11;
    env.streams.set(id, s);
    assert_eq!(
        Contract::amend_stream(&mut env, id, 1, 200),
        Err(Error::Overflow)
    );
}

#[test]
fn terminal_streams_refuse_every_change() {
    let mut env = setup(0);
    let id = stream(&mut env, 1_000, 0, 100, 0).unwrap();
    Contract::cancel_stream(&mut env, id).unwrap();
    let before = *env.streams.get(id).unwrap();
    env.timestamp = 100;
    assert!(Contract::start_stream(&mut env, id).is_err());
    assert!(Contract::pause(&mut env, id).is_err());
    assert!(Contract::resume(&mut env, id).is_err());
    assert!(Contract::settle(&mut env, id).is_err());
    assert!(Contract::cancel_stream(&mut env, id).is_err());
    assert!(Contract::amend_stream(&mut env, id, 1, 200).is_err());
    assert!(Contract::admin_override(&mut env, account(ADMIN), 0, id, 200).is_err());
    assert!(Contract::withdraw(&mut env, account(RECIPIENT), id, 1).is_err());
    assert_eq!(*env.streams.get(id).unwrap(), before);
}
