use streampay_stream::env::Env;
use streampay_stream::error::Error;
use streampay_stream::host::{Address, AddressKind, HostCall};
use streampay_stream::storage::StreamStatus;
use streampay_stream::Contract;

fn account(n: u128) -> Address {
    Address { kind: AddressKind::Account, hi: 0, lo: n }
}

const ADMIN: u128 = 100;
const SENDER: u128 = 1;
const TOKEN: u128 = 50;

/// A running contract at ledger time `now`.
fn setup(now: u64) -> Env {
    let contract = Address { kind: AddressKind::Contract, hi: 0, lo: 1 };
    let mut env = Env::new(contract, now, 1_000);
    Contract::initialize(&mut env, account(ADMIN)).unwrap();
    env
}


fn split(
    env: &mut Env,
    total: i128,
    start: u64,
    end: u64,
    recipients: Vec<Address>,
    weights: Vec<u64>,
) -> Result<u64, Error> {
    Contract::create_split_stream(
        env,
        account(SENDER),
        account(TOKEN),
        total,
        start,
        end,
        recipients,
        weights,
    )
}

/// What the host calls so far give `who` of the token.
fn balance(env: &Env, who: Address) -> i128 {
    let mut sum: i128 = 0;
    for c in env.calls.iter() {
        if let HostCall::Transfer { token, from, to, amount } = *c {
            if token == account(TOKEN) {
                if to == who {
                    sum += amount;
                }
                if from == who {
                    sum -= amount;
                }
            }
        }
    }
    sum
}

#[test]
fn split_streams_share_by_weight() {
    let mut env = setup(0);
    let id = split(&mut env, 1_000, 0, 100, vec![account(2), account(3)], vec![1, 2]).unwrap();
    assert_eq!(id, 1);
    let s = Contract::get_split_stream(&mut env, id).unwrap();
    assert_eq!(s.total_weight, 3);
    assert_eq!(s.status, StreamStatus::Active);
    assert_eq!(s.allocations.len(), 2);
    assert_eq!(s.allocations[1].weight, 2);
    assert_eq!(balance(&env, env.contract_address), 1_000);
    env.timestamp = 50;
    assert_eq!(Contract::split_stream_balance(&mut env, id), Ok(500));
    assert_eq!(Contract::split_withdrawable(&mut env, id, account(2)), Ok(166));
    assert_eq!(Contract::split_withdrawable(&mut env, id, account(3)), Ok(333));
    assert_eq!(Contract::withdraw_split(&mut env, id, account(3), 300), Ok(300));
    assert_eq!(Contract::split_withdrawable(&mut env, id, account(3)), Ok(33));
    assert_eq!(Contract::split_withdrawable(&mut env, id, account(2)), Ok(166));
    assert_eq!(balance(&env, account(3)), 300);
    assert_eq!(env.auths[env.auths.len() - 1], account(3));
}

#[test]
fn split_streams_settle_when_everyone_is_paid() {
    let mut env = setup(0);
    let id = split(&mut env, 1_000, 0, 100, vec![account(2), account(3)], vec![1, 2]).unwrap();
    env.timestamp = 100;
    assert_eq!(Contract::withdraw_split(&mut env, id, account(2), 333), Ok(333));
    assert_eq!(
        Contract::get_split_stream(&mut env, id).unwrap().status,
        StreamStatus::Active
    );
    assert_eq!(Contract::withdraw_split(&mut env, id, account(3), 666), Ok(666));
    assert_eq!(
        Contract::get_split_stream(&mut env, id).unwrap().status,
        StreamStatus::Settled
    );
    assert_eq!(balance(&env, env.contract_address), 1);
    assert_eq!(
        Contract::withdraw_split(&mut env, id, account(2), 1),
        Err(Error::AlreadySettled)
    );
    assert_eq!(
        Contract::cancel_split_stream(&mut env, id).unwrap_err(),
        Error::InvalidState
    );
}

#[test]
fn cancelled_split_streams_pay_every_share() {
    let mut env = setup(0);
    let id = split(
        &mut env,
        1_000,
        0,
        100,
        vec![account(2), account(3), account(4)],
        vec![1, 1, 1],
    )
    .unwrap();
    env.timestamp = 50;
    Contract::withdraw_split(&mut env, id, account(3), 100).unwrap();
    let s = Contract::cancel_split_stream(&mut env, id).unwrap();
    assert_eq!(s.status, StreamStatus::Cancelled);
    assert_eq!(s.allocations[1].released_amount, 166);
    assert_eq!(balance(&env, account(2)), 166);
    assert_eq!(balance(&env, account(3)), 166);
    assert_eq!(balance(&env, account(4)), 166);
    assert_eq!(balance(&env, account(SENDER)), -500);
    assert_eq!(balance(&env, env.contract_address), 2);
    env.timestamp = 90;
    assert_eq!(Contract::split_stream_balance(&mut env, id), Ok(500));
    assert_eq!(Contract::split_withdrawable(&mut env, id, account(2)), Ok(0));
    assert_eq!(
        Contract::withdraw_split(&mut env, id, account(2), 1),
        Err(Error::InvalidState)
    );
}

#[test]
fn repeated_recipients_draw_on_all_their_allocations() {
    let mut env = setup(0);
    let id = split(
        &mut env,
        1_000,
        0,
        100,
        vec![account(2), account(3), account(2)],
        vec![1, 2, 2],
    )
    .unwrap();
    env.timestamp = 50;
    assert_eq!(Contract::split_withdrawable(&mut env, id, account(2)), Ok(300));
    assert_eq!(Contract::withdraw_split(&mut env, id, account(2), 150), Ok(150));
    let s = Contract::get_split_stream(&mut env, id).unwrap();
    assert_eq!(s.allocations[0].released_amount, 100);
    assert_eq!(s.allocations[1].released_amount, 0);
    assert_eq!(s.allocations[2].released_amount, 50);
    assert_eq!(Contract::split_withdrawable(&mut env, id, account(2)), Ok(150));
    assert_eq!(
        Contract::withdraw_split(&mut env, id, account(2), 151),
        Err(Error::OverWithdraw)
    );
    env.timestamp = 100;
    assert_eq!(Contract::withdraw_split(&mut env, id, account(2), 450), Ok(450));
    assert_eq!(Contract::withdraw_split(&mut env, id, account(3), 400), Ok(400));
    assert_eq!(
        Contract::get_split_stream(&mut env, id).unwrap().status,
        StreamStatus::Settled
    );
    assert_eq!(balance(&env, account(2)), 600);
    assert_eq!(balance(&env, env.contract_address), 0);
}

#[test]
fn split_streams_share_the_id_counter() {
    let mut env = setup(0);
    assert_eq!(
        split(&mut env, 10, 0, 100, vec![account(2), account(3)], vec![1, 1]),
        Ok(1)
    );
    assert_eq!(
        Contract::create_draft_stream(
            &mut env,
            account(SENDER),
            account(2),
            account(TOKEN),
            5,
            10
        ),
        Ok(2)
    );
    assert_eq!(Contract::get_stream(&mut env, 1), Err(Error::NotFound));
    assert_eq!(Contract::get_split_stream(&mut env, 2).unwrap_err(), Error::NotFound);
    assert_eq!(Contract::sender_stream_count(&mut env, account(SENDER)), 1);
}

#[test]
fn split_creation_is_refused_with_its_reason() {
    let mut env = setup(10);
    let two = || vec![account(2), account(3)];
    assert_eq!(
        split(&mut env, 0, 10, 20, two(), vec![1, 1]),
        Err(Error::InvalidAmount)
    );
    assert_eq!(
        split(&mut env, 5, 10, 20, vec![account(2)], vec![1]),
        Err(Error::InvalidAmount)
    );
    assert_eq!(
        split(&mut env, 5, 10, 20, two(), vec![1, 1, 1]),
        Err(Error::InvalidAmount)
    );
    assert_eq!(
        split(&mut env, 5, 10, 20, two(), vec![1, 0]),
        Err(Error::InvalidAmount)
    );
    assert_eq!(
        split(&mut env, 5, 10, 20, vec![account(2), account(SENDER)], vec![1, 1]),
        Err(Error::SelfStream)
    );
    assert_eq!(
        split(&mut env, 5, 10, 10, two(), vec![1, 1]),
        Err(Error::InvalidTimeRange)
    );
    assert_eq!(
        split(&mut env, 5, 9, 20, two(), vec![1, 1]),
        Err(Error::InvalidTimeRange)
    );
    assert_eq!(
        split(&mut env, 5, 10, 20, two(), vec![u64::MAX, 1]),
        Err(Error::Overflow)
    );
    Contract::set_token_allowed(&mut env, account(ADMIN), account(TOKEN), false).unwrap();
    assert_eq!(
        split(&mut env, 5, 10, 20, two(), vec![1, 1]),
        Err(Error::TokenNotAllowed)
    );
    Contract::set_paused(&mut env, account(ADMIN), true).unwrap();
    assert_eq!(
        split(&mut env, 5, 10, 20, two(), vec![1, 1]),
        Err(Error::ContractPaused)
    );
    assert_eq!(env.stream_count, None);
}

#[test]
fn split_withdrawal_is_refused_with_its_reason() {
    let mut env = setup(0);
    let id = split(&mut env, 1_000, 0, 100, vec![account(2), account(3)], vec![1, 1]).unwrap();
    env.timestamp = 50;
    assert_eq!(
        Contract::withdraw_split(&mut env, id, account(2), 0),
        Err(Error::InvalidAmount)
    );
    assert_eq!(
        Contract::withdraw_split(&mut env, 9, account(2), 1),
        Err(Error::NotFound)
    );
    assert_eq!(
        Contract::withdraw_split(&mut env, id, account(4), 1),
        Err(Error::InvalidState)
    );
    assert_eq!(
        Contract::withdraw_split(&mut env, id, account(2), 251),
        Err(Error::OverWithdraw)
    );
    assert_eq!(
        Contract::split_withdrawable(&mut env, id, account(4)),
        Err(Error::NotFound)
    );
    assert_eq!(
        Contract::split_withdrawable(&mut env, 9, account(2)),
        Err(Error::NotFound)
    );
    assert_eq!(Contract::split_stream_balance(&mut env, 9), Err(Error::NotFound));
    assert_eq!(
        Contract::cancel_split_stream(&mut env, 9).unwrap_err(),
        Error::NotFound
    );
    Contract::set_paused(&mut env, account(ADMIN), true).unwrap();
    assert_eq!(
        Contract::withdraw_split(&mut env, id, account(2), 1),
        Err(Error::ContractPaused)
    );
    assert_eq!(Contract::split_withdrawable(&mut env, id, account(2)), Ok(250));
}

#[test]
fn huge_split_streams_overflow_inside_the_window() {
    let mut env = setup(0);
    let id = split(
        &mut env,
        i128::MAX,
        0,
        100,
        vec![account(2), account(3)],
        vec![1, 1],
    )
    .unwrap();
    env.timestamp = 50;
    assert_eq!(Contract::split_stream_balance(&mut env, id), Err(Error::Overflow));
    assert_eq!(
        Contract::split_withdrawable(&mut env, id, account(2)),
        Err(Error::Overflow)
    );
    assert_eq!(
        Contract::withdraw_split(&mut env, id, account(2), 1),
        Err(Error::Overflow)
    );
    assert_eq!(
        Contract::cancel_split_stream(&mut env, id).unwrap_err(),
        Error::Overflow
    );
    env.timestamp = 100;
    assert_eq!(
        Contract::split_withdrawable(&mut env, id, account(2)),
        Ok(i128::MAX / 2)
    );
}
