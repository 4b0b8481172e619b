use streampay_stream::env::Env;
use streampay_stream::error::Error;
use streampay_stream::host::{Address, AddressKind, HostCall};
use streampay_stream::snapshot_diff::{SnapshotDiff, StreamSnapshot};
use streampay_stream::storage::{DataKey, StreamStatus};
use streampay_stream::views::{StreamPage, MAX_PAGE_SIZE};
use streampay_stream::Contract;

fn account(n: u128) -> Address {
    Address { kind: AddressKind::Account, hi: 0, lo: n }
}

const ADMIN: u128 = 100;
const SENDER: u128 = 1;
const RECIPIENT: u128 = 2;
const TOKEN: u128 = 50;

/// A running contract at ledger time `now`.
fn setup(now: u64) -> Env {
    let contract = Address { kind: AddressKind::Contract, hi: 0, lo: 1 };
    let mut env = Env::new(contract, now, 1_000);
    Contract::initialize(&mut env, account(ADMIN)).unwrap();
    env
}

/// A stream of `total` from ledger time `start` to `end`.
fn stream(env: &mut Env, total: i128, start: u64, end: u64, fee_bps: u32) -> Result<u64, Error> {
    Contract::create_stream(
        env,
        account(SENDER),
        account(RECIPIENT),
        account(TOKEN),
        total,
        start,
        end,
        fee_bps,
        0,
    )
}


fn ids(page: &StreamPage) -> Vec<u64> {
    page.streams.iter().map(|s| s.id).collect()
}

/// Five streams; the second is cancelled, and the fourth is for another pair.
fn listed() -> Env {
    let mut env = setup(0);
    for i in 1..6 {
        if i == 4 {
            Contract::create_stream(
                &mut env,
                account(3),
                account(4),
                account(TOKEN),
                10,
                0,
                10,
                0,
                0,
            )
            .unwrap();
        } else {
            stream(&mut env, 10, 0, 10, 0).unwrap();
        }
    }
    Contract::cancel_stream(&mut env, 2).unwrap();
    env
}

#[test]
fn pages_follow_each_other() {
    let mut env = listed();
    let page = Contract::list_streams(&mut env, None, 2);
    assert_eq!(ids(&page), vec![1, 2]);
    assert_eq!(page.next_cursor, Some(2));
    let page = Contract::list_streams(&mut env, page.next_cursor, 2);
    assert_eq!(ids(&page), vec![3, 4]);
    assert_eq!(page.next_cursor, Some(4));
    let page = Contract::list_streams(&mut env, page.next_cursor, 2);
    assert_eq!(ids(&page), vec![5]);
    assert_eq!(page.next_cursor, None);
    let page = Contract::list_streams(&mut env, Some(5), 2);
    assert!(page.streams.is_empty());
    assert_eq!(page.next_cursor, None);
    let page = Contract::list_streams(&mut env, Some(u64::MAX), 2);
    assert!(page.streams.is_empty());
}

#[test]
fn a_page_that_fits_exactly_is_the_last() {
    let mut env = listed();
    let page = Contract::list_streams(&mut env, None, 5);
    assert_eq!(ids(&page), vec![1, 2, 3, 4, 5]);
    assert_eq!(page.next_cursor, None);
}

#[test]
fn an_empty_page_points_back_to_where_it_started() {
    let mut env = listed();
    let page = Contract::list_streams(&mut env, Some(3), 0);
    assert!(page.streams.is_empty());
    assert_eq!(page.next_cursor, Some(3));
    let page = Contract::list_streams(&mut env, None, 0);
    assert_eq!(page.next_cursor, Some(0));
}

#[test]
fn a_full_page_needs_no_later_rows() {
    let mut whole = listed();
    let mut part = whole.clone();
    part.stream_count = Some(4);
    let calls = whole.calls.len();
    let expected = Contract::list_streams(&mut whole, None, 2);
    let page = Contract::list_streams(&mut part, None, 2);
    assert_eq!(page.next_cursor, Some(2));
    assert_eq!(page.next_cursor, expected.next_cursor);
    assert_eq!(page.streams, expected.streams);
    assert_eq!(&part.calls[calls..], &whole.calls[calls..]);
}

#[test]
fn pages_are_capped() {
    let mut env = setup(0);
    Contract::set_max_streams_per_sender(&mut env, account(ADMIN), 1_000).unwrap();
    for _ in 0..105 {
        stream(&mut env, 10, 0, 10, 0).unwrap();
    }
    let page = Contract::list_streams(&mut env, None, 1_000);
    assert_eq!(page.streams.len() as u64, MAX_PAGE_SIZE);
    assert_eq!(page.next_cursor, Some(MAX_PAGE_SIZE));
    let page = Contract::list_streams(&mut env, page.next_cursor, 1_000);
    assert_eq!(page.streams.len() as u64, 105 - MAX_PAGE_SIZE);
}

#[test]
fn lists_are_filtered() {
    let mut env = listed();
    let page = Contract::list_streams_by_sender(&mut env, account(SENDER), None, 10);
    assert_eq!(ids(&page), vec![1, 2, 3, 5]);
    let page = Contract::list_streams_by_sender(&mut env, account(3), None, 10);
    assert_eq!(ids(&page), vec![4]);
    let page = Contract::list_streams_by_recipient(&mut env, account(4), None, 10);
    assert_eq!(ids(&page), vec![4]);
    let page = Contract::list_streams_by_recipient(&mut env, account(RECIPIENT), Some(1), 10);
    assert_eq!(ids(&page), vec![2, 3, 5]);
    let page = Contract::list_streams_by_status(&mut env, StreamStatus::Cancelled, None, 10);
    assert_eq!(ids(&page), vec![2]);
    let page = Contract::list_streams_recipient_status(
        &mut env,
        account(RECIPIENT),
        StreamStatus::Active,
        None,
        2,
    );
    assert_eq!(ids(&page), vec![1, 3]);
    assert_eq!(page.next_cursor, Some(3));
    let page = Contract::list_streams_sender_status(
        &mut env,
        account(3),
        StreamStatus::Cancelled,
        None,
        2,
    );
    assert!(page.streams.is_empty());
    assert_eq!(page.next_cursor, None);
}

#[test]
fn views_only_extend_what_they_read() {
    let mut env = listed();
    Contract::set_paused(&mut env, account(ADMIN), true).unwrap();
    let calls = env.calls.len();
    let auths = env.auths.len();
    Contract::list_streams(&mut env, Some(3), 1);
    assert_eq!(env.auths.len(), auths);
    assert_eq!(
        &env.calls[calls..],
        &[
            HostCall::ExtendRow {
                key: DataKey::Stream(4),
                threshold: 242_920,
                extend_to: 1_556_200,
            },
            HostCall::ExtendRow {
                key: DataKey::Stream(5),
                threshold: 242_920,
                extend_to: 1_556_200,
            },
        ]
    );
    assert_eq!(Contract::get_stream(&mut env, 6), Err(Error::NotFound));
    assert_eq!(Contract::withdrawable(&mut env, 6), Err(Error::NotFound));
    assert_eq!(Contract::stream_balance(&mut env, 6), Err(Error::NotFound));
    assert_eq!(Contract::claim_drip(&mut env, 6), Err(Error::NotFound));
    assert_eq!(env.calls.len(), calls + 2);
}

#[test]
fn snapshots_add_up() {
    let mut env = setup(0);
    let id = stream(&mut env, 1_000, 0, 100, 0).unwrap();
    env.timestamp = 30;
    Contract::withdraw(&mut env, account(RECIPIENT), id, 200).unwrap();
    let before = Contract::stream_snapshot(&mut env, id, 30).unwrap();
    assert_eq!(
        before,
        StreamSnapshot {
            stream_id: id,
            timestamp: 30,
            status: StreamStatus::Active,
            vested_amount: 300,
            released_amount: 200,
            locked_amount: 800,
            withdrawable_amount: 100,
        }
    );
    Contract::withdraw(&mut env, account(RECIPIENT), id, 100).unwrap();
    let after = Contract::stream_snapshot(&mut env, id, 75).unwrap();
    let diff = Contract::diff_snapshots(&env, before, after).unwrap();
    assert_eq!(
        diff,
        SnapshotDiff {
            stream_id: id,
            elapsed_seconds: 45,
            delta_vested: 450,
            delta_released: 100,
            delta_locked: -100,
            delta_withdrawable: 350,
        }
    );
    let back = Contract::diff_snapshots(&env, after, before).unwrap();
    assert_eq!(back.elapsed_seconds, 45);
    assert_eq!(back.delta_vested, -450);
    assert_eq!(back.delta_locked, 100);
    let none = Contract::diff_snapshots(&env, after, after).unwrap();
    assert_eq!(none.elapsed_seconds, 0);
    assert_eq!(none.delta_vested, 0);
}

#[test]
fn snapshots_are_refused_with_their_reason() {
    let mut env = setup(0);
    let a = stream(&mut env, i128::MAX, 0, 100, 0).unwrap();
    let b = stream(&mut env, 10, 0, 100, 0).unwrap();
    assert_eq!(Contract::stream_snapshot(&mut env, 9, 0), Err(Error::NotFound));
    assert_eq!(Contract::stream_snapshot(&mut env, a, 50), Err(Error::Overflow));
    let first = Contract::stream_snapshot(&mut env, a, 100).unwrap();
    let second = Contract::stream_snapshot(&mut env, b, 100).unwrap();
    assert_eq!(
        Contract::diff_snapshots(&env, first, second),
        Err(Error::NotFound)
    );
    let mut low = first;
    low.released_amount = -2;
    let mut high = first;
    high.released_amount = i128::MAX;
    assert_eq!(
        Contract::diff_snapshots(&env, low, high),
        Err(Error::Overflow)
    );
}
