//! Snapshots of a stream's amounts at a point in time, and the differences
//! between two of them.
use vstd::prelude::*;

use crate::env::Env;
use crate::error::Error;
use crate::gates::get_existing_stream;
use crate::release;
use crate::release::{accrual_fits, vested};
use crate::storage::{Stream, StreamStatus};
use crate::Contract;

verus! {

/// The amounts of a stream at one point in time.
#[derive(Copy, Clone, Debug, PartialEq, Eq, Structural)]
pub struct StreamSnapshot {
    pub stream_id: u64,
    pub timestamp: u64,
    pub status: StreamStatus,
    pub vested_amount: i128,
    pub released_amount: i128,
    /// What is left in the escrow.
    pub locked_amount: i128,
    pub withdrawable_amount: i128,
}

/// How a later snapshot differs from an earlier one.
#[derive(Copy, Clone, Debug, PartialEq, Eq, Structural)]
pub struct SnapshotDiff {
    pub stream_id: u64,
    /// Seconds between the two, whichever comes first.
    pub elapsed_seconds: u64,
    pub delta_vested: i128,
    pub delta_released: i128,
    pub delta_locked: i128,
    pub delta_withdrawable: i128,
}

/// Whether an integer is in the range of `i128`.
pub open spec fn fits(n: int) -> bool {
    i128::MIN <= n <= i128::MAX
}

/// The snapshot of a stream at ledger time `at`, or `Overflow`.
pub open spec fn snapshot_result(stream_id: u64, s: Stream, at: u64) -> Result<StreamSnapshot, Error> {
    let open = vested(s, at) - s.released_amount;
    let locked = s.total_amount - s.released_amount;
    if accrual_fits(s, at) && fits(open) && fits(locked) {
        Ok(
            StreamSnapshot {
                stream_id,
                timestamp: at,
                status: s.status,
                vested_amount: vested(s, at) as i128,
                released_amount: s.released_amount,
                locked_amount: locked as i128,
                withdrawable_amount: open as i128,
            },
        )
    } else {
        Err(Error::Overflow)
    }
}

/// The difference `after - before` of two snapshots of one stream, or why there
/// is none.
pub open spec fn diff_result(before: StreamSnapshot, after: StreamSnapshot) -> Result<
    SnapshotDiff,
    Error,
> {
    let vested = after.vested_amount - before.vested_amount;
    let released = after.released_amount - before.released_amount;
    let locked = after.locked_amount - before.locked_amount;
    let open = after.withdrawable_amount - before.withdrawable_amount;
    if before.stream_id != after.stream_id {
        Err(Error::NotFound)
    } else if fits(vested) && fits(released) && fits(locked) && fits(open) {
        Ok(
            SnapshotDiff {
                stream_id: before.stream_id,
                elapsed_seconds: if after.timestamp >= before.timestamp {
                    (after.timestamp - before.timestamp) as u64
                } else {
                    (before.timestamp - after.timestamp) as u64
                },
                delta_vested: vested as i128,
                delta_released: released as i128,
                delta_locked: locked as i128,
                delta_withdrawable: open as i128,
            },
        )
    } else {
        Err(Error::Overflow)
    }
}

/// The parts of a snapshot add up: what has vested is released or open.
pub proof fn snapshot_adds_up(stream_id: u64, s: Stream, at: u64)
    requires
        snapshot_result(stream_id, s, at) is Ok,
    ensures
        ({
            let snapshot = snapshot_result(stream_id, s, at)->Ok_0;
            &&& snapshot.vested_amount == snapshot.released_amount + snapshot.withdrawable_amount
            &&& s.total_amount == snapshot.released_amount + snapshot.locked_amount
        }),
{
    release::lemma_vested_fits(s, at);
}

/// A snapshot tells the record's own released amount and status, what
/// [`release::vested_result`] gives at that time, and the differences to it and to
/// the whole escrow. It is refused only where the vested amount is, or where a
/// difference leaves `i128`.
pub proof fn snapshots_tell_the_record(stream_id: u64, s: Stream, at: u64)
    ensures
        ({
            let r = snapshot_result(stream_id, s, at);
            let vested = release::vested_result(s, at);
            &&& r is Ok ==> {
                let snapshot = r->Ok_0;
                &&& snapshot.stream_id == stream_id
                &&& snapshot.timestamp == at
                &&& snapshot.status == s.status
                &&& vested == Ok::<i128, Error>(snapshot.vested_amount)
                &&& snapshot.released_amount == s.released_amount
                &&& snapshot.locked_amount == s.total_amount - s.released_amount
                &&& snapshot.withdrawable_amount == snapshot.vested_amount - s.released_amount
            }
            &&& r is Err ==> r->Err_0 == Error::Overflow
            &&& r is Err <==> vested is Err || !(i128::MIN <= vested->Ok_0 - s.released_amount
                <= i128::MAX) || !(i128::MIN <= s.total_amount - s.released_amount <= i128::MAX)
        }),
{
    if accrual_fits(s, at) {
        release::lemma_vested_fits(s, at);
    }
}

/// Adding a difference to the earlier snapshot gives the later one, field by
/// field. Snapshots of two streams have no difference (`NotFound`); else it is
/// refused only where a field's difference leaves `i128`.
pub proof fn differences_lead_from_one_to_the_other(before: StreamSnapshot, after: StreamSnapshot)
    ensures
        ({
            let r = diff_result(before, after);
            let within = |a: i128, b: i128| i128::MIN <= a - b <= i128::MAX;
            &&& r is Ok ==> {
                let d = r->Ok_0;
                &&& d.stream_id == before.stream_id == after.stream_id
                &&& before.vested_amount + d.delta_vested == after.vested_amount
                &&& before.released_amount + d.delta_released == after.released_amount
                &&& before.locked_amount + d.delta_locked == after.locked_amount
                &&& before.withdrawable_amount + d.delta_withdrawable == after.withdrawable_amount
                &&& before.timestamp <= after.timestamp ==> before.timestamp + d.elapsed_seconds
                    == after.timestamp
                &&& after.timestamp <= before.timestamp ==> after.timestamp + d.elapsed_seconds
                    == before.timestamp
            }
            &&& r == Err::<SnapshotDiff, Error>(Error::NotFound) <==> before.stream_id
                != after.stream_id
            &&& r is Ok <==> before.stream_id == after.stream_id && within(
                after.vested_amount,
                before.vested_amount,
            ) && within(after.released_amount, before.released_amount) && within(
                after.locked_amount,
                before.locked_amount,
            ) && within(after.withdrawable_amount, before.withdrawable_amount)
            &&& r is Err ==> r->Err_0 == Error::NotFound || r->Err_0 == Error::Overflow
        }),
{
}

/// A snapshot does not differ from itself.
pub proof fn snapshot_equals_itself(snapshot: StreamSnapshot)
    ensures
        diff_result(snapshot, snapshot) == Ok::<SnapshotDiff, Error>(
            SnapshotDiff {
                stream_id: snapshot.stream_id,
                elapsed_seconds: 0,
                delta_vested: 0,
                delta_released: 0,
                delta_locked: 0,
                delta_withdrawable: 0,
            },
        ),
{
}

/// Exchanging two snapshots turns every difference around, and leaves the time
/// between them as it is.
pub proof fn difference_is_antisymmetric(before: StreamSnapshot, after: StreamSnapshot)
    requires
        diff_result(before, after) is Ok,
        diff_result(after, before) is Ok,
    ensures
        ({
            let there = diff_result(before, after)->Ok_0;
            let back = diff_result(after, before)->Ok_0;
            &&& back.stream_id == there.stream_id
            &&& back.elapsed_seconds == there.elapsed_seconds
            &&& back.delta_vested == -there.delta_vested
            &&& back.delta_released == -there.delta_released
            &&& back.delta_locked == -there.delta_locked
            &&& back.delta_withdrawable == -there.delta_withdrawable
        }),
{
}

/// Between two snapshots of one record, the vested amount does not shrink and
/// nothing else than it and the open amount moves.
pub proof fn time_alone_only_vests(stream_id: u64, s: Stream, earlier: u64, later: u64)
    requires
        release::amounts_in_order(s),
        s.status is Draft ==> s.released_amount == 0,
        earlier <= later,
        snapshot_result(stream_id, s, earlier) is Ok,
        snapshot_result(stream_id, s, later) is Ok,
    ensures
        ({
            let diff = diff_result(
                snapshot_result(stream_id, s, earlier)->Ok_0,
                snapshot_result(stream_id, s, later)->Ok_0,
            );
            &&& diff is Ok
            &&& diff->Ok_0.delta_vested >= 0
            &&& diff->Ok_0.delta_withdrawable == diff->Ok_0.delta_vested
            &&& diff->Ok_0.delta_released == 0
            &&& diff->Ok_0.delta_locked == 0
            &&& diff->Ok_0.elapsed_seconds == later - earlier
        }),
{
    release::vested_is_bounded(s, earlier);
    release::vested_is_bounded(s, later);
    release::vested_never_shrinks(s, earlier, later);
}

/// `a - b`, or `Overflow`.
fn difference(a: i128, b: i128) -> (r: Result<i128, Error>)
    ensures
        r == (if fits(a - b) {
            Ok((a - b) as i128)
        } else {
            Err::<i128, Error>(Error::Overflow)
        }),
{
    match a.checked_sub(b) {
        Some(d) => Ok(d),
        None => Err(Error::Overflow),
    }
}

/// The snapshot of a record at ledger time `at`.
pub fn snapshot_of(stream_id: u64, s: &Stream, at: u64) -> (r: Result<StreamSnapshot, Error>)
    ensures
        r == snapshot_result(stream_id, *s, at),
{
    let vested_amount: i128 = release::vested_amount(s, at)?;
    let withdrawable_amount: i128 = difference(vested_amount, s.released_amount)?;
    let locked_amount: i128 = difference(s.total_amount, s.released_amount)?;
    Ok(
        StreamSnapshot {
            stream_id,
            timestamp: at,
            status: s.status,
            vested_amount,
            released_amount: s.released_amount,
            locked_amount,
            withdrawable_amount,
        },
    )
}

/// The difference of two snapshots of one stream.
pub fn diff_snapshots(before: &StreamSnapshot, after: &StreamSnapshot) -> (r: Result<
    SnapshotDiff,
    Error,
>)
    ensures
        r == diff_result(*before, *after),
{
    if before.stream_id != after.stream_id {
        return Err(Error::NotFound);
    }
    let delta_vested: i128 = difference(after.vested_amount, before.vested_amount)?;
    let delta_released: i128 = difference(after.released_amount, before.released_amount)?;
    let delta_locked: i128 = difference(after.locked_amount, before.locked_amount)?;
    let delta_withdrawable: i128 = difference(
        after.withdrawable_amount,
        before.withdrawable_amount,
    )?;
    let elapsed_seconds: u64 = if after.timestamp >= before.timestamp {
        after.timestamp - before.timestamp
    } else {
        before.timestamp - after.timestamp
    };
    Ok(
        SnapshotDiff {
            stream_id: before.stream_id,
            elapsed_seconds,
            delta_vested,
            delta_released,
            delta_locked,
            delta_withdrawable,
        },
    )
}

impl Contract {
    /// The amounts of a stream at ledger time `at_timestamp`.
    pub fn stream_snapshot(env: &mut Env, stream_id: u64, at_timestamp: u64) -> (r: Result<
        StreamSnapshot,
        Error,
    >)
        ensures
            r == (if old(env)@.streams.contains_key(stream_id) {
                snapshot_result(stream_id, old(env)@.streams[stream_id], at_timestamp)
            } else {
                Err::<StreamSnapshot, Error>(Error::NotFound)
            }),
            r is Ok ==> final(env)@ == old(env)@.read_stream(stream_id),
            r is Err ==> final(env)@ == old(env)@,
    {
        broadcast use crate::env::group_calls_added;

        let kept: usize = env.calls.len();
        let stream = get_existing_stream(env, stream_id)?;
        let r = snapshot_of(stream_id, &stream, at_timestamp);
        if r.is_err() {
            proof {
                assert(env@.only_calls_added(old(env)@));
            }
            env.revert(kept);
        }
        r
    }

    /// How `after` differs from `before`. Neither has to be the later one.
    pub fn diff_snapshots(_env: &Env, before: StreamSnapshot, after: StreamSnapshot) -> (r: Result<
        SnapshotDiff,
        Error,
    >)
        ensures
            r == diff_result(before, after),
    {
        diff_snapshots(&before, &after)
    }
}

} // verus!
