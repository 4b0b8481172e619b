use streampay_stream::env::Env;
use streampay_stream::error::Error;
use streampay_stream::events::Event;
use streampay_stream::fees::{apply_fee, FeeResult};
use streampay_stream::host::{Address, AddressKind, HostCall};
use streampay_stream::storage::StreamStatus;
use streampay_stream::Contract;

fn account(n: u128) -> Address {
    Address { kind: AddressKind::Account, hi: 0, lo: n }
}

const ADMIN: u128 = 100;
const SENDER: u128 = 1;
const RECIPIENT: u128 = 2;
const TOKEN: u128 = 50;

/// A running contract at ledger time `now`.
fn setup(now: u64) -> Env {
    let contract = Address { kind: AddressKind::Contract, hi: 0, lo: 1 };
    let mut env = Env::new(contract, now, 1_000);
    Contract::initialize(&mut env, account(ADMIN)).unwrap();
    env
}

/// A stream of `total` from ledger time `start` to `end`.
fn stream(env: &mut Env, total: i128, start: u64, end: u64, fee_bps: u32) -> Result<u64, Error> {
    Contract::create_stream(
        env,
        account(SENDER),
        account(RECIPIENT),
        account(TOKEN),
        total,
        start,
        end,
        fee_bps,
        0,
    )
}

/// What the host calls so far give `who` of the token.
fn balance(env: &Env, who: Address) -> i128 {
    let mut sum: i128 = 0;
    for c in env.calls.iter() {
        if let HostCall::Transfer { token, from, to, amount } = *c {
            if token == account(TOKEN) {
                if to == who {
                    sum += amount;
                }
                if from == who {
                    sum -= amount;
                }
            }
        }
    }
    sum
}

#[test]
fn accrual_is_linear() {
    let mut env = setup(100);
    let id = stream(&mut env, 1_000, 100, 400, 0).unwrap();
    assert_eq!(Contract::stream_balance(&mut env, id), Ok(0));
    env.timestamp = 101;
    assert_eq!(Contract::stream_balance(&mut env, id), Ok(3));
    env.timestamp = 250;
    assert_eq!(Contract::stream_balance(&mut env, id), Ok(500));
    env.timestamp = 399;
    assert_eq!(Contract::stream_balance(&mut env, id), Ok(996));
    env.timestamp = 400;
    assert_eq!(Contract::stream_balance(&mut env, id), Ok(1_000));
    env.timestamp = u64::MAX;
    assert_eq!(Contract::stream_balance(&mut env, id), Ok(1_000));
}

#[test]
fn nothing_accrues_before_the_start() {
    let mut env = setup(0);
    let id = stream(&mut env, 1_000, 100, 400, 0).unwrap();
    env.timestamp = 50;
    assert_eq!(Contract::withdrawable(&mut env, id), Ok(0));
    assert_eq!(Contract::claim_drip(&mut env, id), Ok(0));
}

#[test]
fn accrual_of_a_huge_escrow_overflows_inside_the_window_only() {
    let mut env = setup(0);
    let id = stream(&mut env, i128::MAX, 0, 10, 0).unwrap();
    env.timestamp = 1;
    assert_eq!(
        Contract::withdrawable(&mut env, id),
        Ok(i128::MAX / 10)
    );
    env.timestamp = 2;
    assert_eq!(Contract::withdrawable(&mut env, id), Err(Error::Overflow));
    assert_eq!(Contract::stream_balance(&mut env, id), Err(Error::Overflow));
    assert_eq!(
        Contract::withdraw(&mut env, account(RECIPIENT), id, 1),
        Err(Error::Overflow)
    );
    assert_eq!(Contract::cancel_stream(&mut env, id).unwrap_err(), Error::Overflow);
    env.timestamp = 10;
    assert_eq!(Contract::withdrawable(&mut env, id), Ok(i128::MAX));
}

#[test]
fn withdrawal_pays_the_recipient() {
    let mut env = setup(0);
    let id = stream(&mut env, 1_000, 0, 100, 0).unwrap();
    env.timestamp = 40;
    assert_eq!(Contract::withdrawable(&mut env, id), Ok(400));
    assert_eq!(
        Contract::withdraw(&mut env, account(RECIPIENT), id, 401),
        Err(Error::OverWithdraw)
    );
    assert_eq!(Contract::withdraw(&mut env, account(RECIPIENT), id, 150), Ok(150));
    assert_eq!(Contract::withdrawable(&mut env, id), Ok(250));
    assert_eq!(Contract::claim_drip(&mut env, id), Ok(250));
    let s = Contract::get_stream(&mut env, id).unwrap();
    assert_eq!(s.released_amount, 150);
    assert_eq!(s.last_update, 40);
    assert_eq!(balance(&env, account(RECIPIENT)), 150);
    assert_eq!(balance(&env, env.contract_address), 850);
    assert_eq!(
        Contract::withdraw(&mut env, account(RECIPIENT), id, 251),
        Err(Error::OverWithdraw)
    );
}

#[test]
fn last_withdrawal_settles() {
    let mut env = setup(0);
    let id = stream(&mut env, 1_000, 0, 100, 0).unwrap();
    env.timestamp = 100;
    assert_eq!(Contract::withdraw(&mut env, account(RECIPIENT), id, 1_000), Ok(1_000));
    let n = env.calls.len();
    assert_eq!(
        &env.calls[n - 2..],
        &[
            HostCall::Publish {
                event: Event::Withdrawn {
                    stream_id: id,
                    recipient: account(RECIPIENT),
                    amount: 1_000,
                    timestamp: 100,
                },
            },
            HostCall::Publish {
                event: Event::Settled {
                    stream_id: id,
                    recipient: account(RECIPIENT),
                    amount: 1_000,
                    timestamp: 100,
                },
            },
        ]
    );
    let s = Contract::get_stream(&mut env, id).unwrap();
    assert_eq!(s.status, StreamStatus::Settled);
    assert_eq!(Contract::sender_stream_count(&mut env, account(SENDER)), 0);
    assert_eq!(balance(&env, env.contract_address), 0);
    assert_eq!(
        Contract::withdraw(&mut env, account(RECIPIENT), id, 1),
        Err(Error::AlreadySettled)
    );
    assert_eq!(Contract::withdrawable(&mut env, id), Ok(0));
}

#[test]
fn withdrawal_is_refused_with_its_reason() {
    let mut env = setup(0);
    let id = stream(&mut env, 1_000, 0, 100, 0).unwrap();
    env.timestamp = 50;
    assert_eq!(
        Contract::withdraw(&mut env, account(RECIPIENT), id, 0),
        Err(Error::InvalidAmount)
    );
    assert_eq!(
        Contract::withdraw(&mut env, account(RECIPIENT), 9, 5),
        Err(Error::NotFound)
    );
    assert_eq!(
        Contract::withdraw(&mut env, account(SENDER), id, 5),
        Err(Error::Unauthorized)
    );
    Contract::cancel_stream(&mut env, id).unwrap();
    assert_eq!(
        Contract::withdraw(&mut env, account(RECIPIENT), id, 5),
        Err(Error::InvalidState)
    );
    Contract::set_paused(&mut env, account(ADMIN), true).unwrap();
    assert_eq!(
        Contract::withdraw(&mut env, account(RECIPIENT), id, 5),
        Err(Error::ContractPaused)
    );
}

#[test]
fn stream_fee_goes_to_the_collector() {
    let mut env = setup(0);
    let collector = account(60);
    Contract::set_fee_collector(&mut env, account(ADMIN), collector).unwrap();
    assert_eq!(Contract::get_fee_collector(&mut env), Some(collector));
    let id = stream(&mut env, 1_000, 0, 100, 333).unwrap();
    env.timestamp = 100;
    assert_eq!(Contract::withdraw(&mut env, account(RECIPIENT), id, 100), Ok(100));
    assert_eq!(balance(&env, collector), 3);
    assert_eq!(balance(&env, account(RECIPIENT)), 97);
    assert!(env.calls.contains(&HostCall::Publish {
        event: Event::FeeCharged {
            stream_id: id,
            fee_amount: 3,
            fee_bps: 333,
            collector,
            timestamp: 100,
        },
    }));
}

#[test]
fn without_a_collector_the_recipient_gets_everything() {
    let mut env = setup(0);
    assert_eq!(Contract::get_fee_collector(&mut env), None);
    let id = stream(&mut env, 1_000, 0, 100, 5_000).unwrap();
    env.timestamp = 100;
    assert_eq!(Contract::withdraw(&mut env, account(RECIPIENT), id, 100), Ok(100));
    assert_eq!(balance(&env, account(RECIPIENT)), 100);
    assert_eq!(balance(&env, env.contract_address), 900);
}

#[test]
fn without_a_collector_a_fee_that_overflows_does_not_matter() {
    let mut env = setup(0);
    let id = stream(&mut env, i128::MAX, 0, 100, 2).unwrap();
    env.timestamp = 100;
    let mut with_collector = env.clone();
    assert_eq!(
        Contract::withdraw(&mut env, account(RECIPIENT), id, i128::MAX),
        Ok(i128::MAX)
    );
    assert_eq!(balance(&env, account(RECIPIENT)), i128::MAX);
    assert_eq!(
        Contract::get_stream(&mut env, id).unwrap().status,
        StreamStatus::Settled
    );
    Contract::set_fee_collector(&mut with_collector, account(ADMIN), account(60)).unwrap();
    assert_eq!(
        Contract::withdraw(&mut with_collector, account(RECIPIENT), id, i128::MAX),
        Err(Error::Overflow)
    );
}

#[test]
fn a_fee_of_everything_still_moves_a_zero_to_the_recipient() {
    let mut env = setup(0);
    Contract::set_fee_collector(&mut env, account(ADMIN), account(60)).unwrap();
    let id = stream(&mut env, 1_000, 0, 100, 10_000).unwrap();
    env.timestamp = 100;
    assert_eq!(Contract::withdraw(&mut env, account(RECIPIENT), id, 10), Ok(10));
    assert_eq!(balance(&env, account(60)), 10);
    assert!(env.calls.contains(&HostCall::Transfer {
        token: account(TOKEN),
        from: env.contract_address,
        to: account(RECIPIENT),
        amount: 0,
    }));
}

#[test]
fn fees_round_down() {
    assert_eq!(apply_fee(9_999, 1), Ok(FeeResult { fee_amount: 0, net_amount: 9_999 }));
    assert_eq!(apply_fee(10_000, 1), Ok(FeeResult { fee_amount: 1, net_amount: 9_999 }));
    assert_eq!(apply_fee(12_345, 250), Ok(FeeResult { fee_amount: 308, net_amount: 12_037 }));
    assert_eq!(apply_fee(7, 10_000), Ok(FeeResult { fee_amount: 7, net_amount: 0 }));
    assert_eq!(apply_fee(7, 0), Ok(FeeResult { fee_amount: 0, net_amount: 7 }));
    assert_eq!(apply_fee(i128::MAX, 2), Err(Error::Overflow));
}

#[test]
fn guarded_withdrawal_pays_the_admin() {
    let mut env = setup(0);
    Contract::set_fee_bps(&mut env, account(ADMIN), 150).unwrap();
    assert_eq!(Contract::fee_bps(&mut env), 150);
    let id = stream(&mut env, 10_000, 0, 100, 0).unwrap();
    env.timestamp = 100;
    assert_eq!(
        Contract::withdraw_with_max_fee_bps(&mut env, id, 1_000, 149),
        Err(Error::FeeTooHigh)
    );
    assert_eq!(
        Contract::withdraw_with_max_fee_bps(&mut env, id, 1_000, 150),
        Ok(1_000)
    );
    assert_eq!(balance(&env, account(ADMIN)), 15);
    assert_eq!(balance(&env, account(RECIPIENT)), 985);
    assert_eq!(Contract::get_stream(&mut env, id).unwrap().released_amount, 1_000);
}

#[test]
fn guarded_withdrawal_without_fee_is_plain() {
    let mut env = setup(0);
    let id = stream(&mut env, 10_000, 0, 100, 0).unwrap();
    env.timestamp = 100;
    let mut plain = env.clone();
    assert_eq!(Contract::withdraw_with_max_fee_bps(&mut env, id, 10_000, 0), Ok(10_000));
    assert_eq!(Contract::withdraw(&mut plain, account(RECIPIENT), id, 10_000), Ok(10_000));
    assert_eq!(env.streams.get(id), plain.streams.get(id));
    assert_eq!(balance(&env, account(RECIPIENT)), balance(&plain, account(RECIPIENT)));
}

#[test]
fn guarded_withdrawal_is_refused_with_its_reason() {
    let mut env = setup(0);
    let id = stream(&mut env, 10_000, 0, 100, 0).unwrap();
    let guarded =
        |env: &mut Env, id: u64, amount: i128| Contract::withdraw_with_max_fee_bps(env, id, amount, 0);
    assert_eq!(guarded(&mut env, id, 0), Err(Error::InvalidAmount));
    assert_eq!(guarded(&mut env, 2, 1), Err(Error::NotFound));
    assert_eq!(guarded(&mut env, id, 1), Err(Error::OverWithdraw));
    env.timestamp = 100;
    guarded(&mut env, id, 10_000).unwrap();
    assert_eq!(guarded(&mut env, id, 1), Err(Error::AlreadySettled));
    let draft = Contract::create_draft_stream(
        &mut env,
        account(SENDER),
        account(RECIPIENT),
        account(TOKEN),
        5,
        10,
    )
    .unwrap();
    assert_eq!(guarded(&mut env, draft, 1), Err(Error::InvalidState));
    Contract::set_paused(&mut env, account(ADMIN), true).unwrap();
    assert_eq!(guarded(&mut env, id, 1), Err(Error::ContractPaused));
}

#[test]
fn a_fee_without_an_admin_is_refused() {
    let contract = Address { kind: AddressKind::Contract, hi: 0, lo: 1 };
    let mut env = Env::new(contract, 0, 0);
    let id = stream(&mut env, 10_000, 0, 100, 0).unwrap();
    env.fee_bps = Some(100);
    env.timestamp = 100;
    let calls = env.calls.len();
    assert_eq!(
        Contract::withdraw_with_max_fee_bps(&mut env, id, 1_000, 100),
        Err(Error::NotFound)
    );
    assert_eq!(env.calls.len(), calls);
    assert_eq!(Contract::withdraw_with_max_fee_bps(&mut env, id, 99, 100), Ok(99));
}

#[test]
fn fee_arithmetic_is_refused_when_it_overflows() {
    let mut env = setup(0);
    Contract::set_fee_bps(&mut env, account(ADMIN), 2).unwrap();
    let id = stream(&mut env, i128::MAX, 0, 1, 0).unwrap();
    env.timestamp = 1;
    assert_eq!(
        Contract::withdraw_with_max_fee_bps(&mut env, id, i128::MAX, 2),
        Err(Error::Overflow)
    );
}

#[test]
fn listed_addresses_withdraw_for_the_recipient() {
    let mut env = setup(0);
    let id = stream(&mut env, 1_000, 0, 100, 0).unwrap();
    let helper = account(70);
    env.timestamp = 50;
    assert_eq!(
        Contract::withdraw(&mut env, helper, id, 5),
        Err(Error::Unauthorized)
    );
    assert_eq!(Contract::get_withdrawer_allowlist(&mut env, id), Ok(vec![]));
    Contract::add_withdrawer(&mut env, id, helper).unwrap();
    Contract::add_withdrawer(&mut env, id, helper).unwrap();
    Contract::add_withdrawer(&mut env, id, account(71)).unwrap();
    assert_eq!(
        Contract::get_withdrawer_allowlist(&mut env, id),
        Ok(vec![helper, account(71)])
    );
    assert_eq!(Contract::withdraw(&mut env, helper, id, 5), Ok(5));
    assert_eq!(env.auths[env.auths.len() - 1], helper);
    assert_eq!(balance(&env, account(RECIPIENT)), 5);
    assert_eq!(balance(&env, helper), 0);
    Contract::remove_withdrawer(&mut env, id, helper).unwrap();
    Contract::remove_withdrawer(&mut env, id, helper).unwrap();
    assert_eq!(
        Contract::get_withdrawer_allowlist(&mut env, id),
        Ok(vec![account(71)])
    );
    assert_eq!(
        Contract::withdraw(&mut env, helper, id, 5),
        Err(Error::Unauthorized)
    );
    assert_eq!(
        Contract::add_withdrawer(&mut env, 9, helper),
        Err(Error::NotFound)
    );
    assert_eq!(
        Contract::remove_withdrawer(&mut env, 9, helper),
        Err(Error::NotFound)
    );
    assert_eq!(
        Contract::get_withdrawer_allowlist(&mut env, 9),
        Err(Error::NotFound)
    );
}
