//! Entrypoints that move a stream through its life: start, pause, resume,
//! amend, settle and cancel.
use vstd::prelude::*;

use crate::env::{Env, EnvView};
use crate::error::Error;
use crate::events::{publish, Event};
use crate::gates::{get_existing_stream, get_running_stream};
use crate::host::Address;
use crate::limits;
use crate::release;
use crate::release::{vested, vested_result};
use crate::storage;
use crate::storage::{Stream, StreamStatus};
use crate::Contract;

verus! {

/// Why a stream cannot be started at ledger time `now`, if it cannot.
pub open spec fn start_refusal(s: Stream, now: u64) -> Option<Error> {
    if !(s.status is Draft) {
        Some(Error::InvalidState)
    } else if now + s.duration > u64::MAX {
        Some(Error::InvalidTimeRange)
    } else {
        None
    }
}

/// The record of a draft that was started at ledger time `now`.
pub open spec fn started(s: Stream, now: u64) -> Stream {
    Stream {
        status: StreamStatus::Active,
        start_time: now,
        last_update: now,
        end_time: (now + s.duration) as u64,
        ..s
    }
}

/// The record of a stream that was paused at ledger time `now`.
pub open spec fn paused(s: Stream, now: u64) -> Stream {
    Stream { paused_at: now, last_update: now, status: StreamStatus::Paused, ..s }
}

/// Why a stream cannot be resumed at ledger time `now`, if it cannot.
pub open spec fn resume_refusal(s: Stream, now: u64) -> Option<Error> {
    let length = now - s.paused_at;
    if !(s.status is Paused) {
        Some(Error::InvalidState)
    } else if length < 0 || s.total_paused_duration + length > u64::MAX || s.end_time + length
        > u64::MAX {
        Some(Error::InvalidTimeRange)
    } else {
        None
    }
}

/// The record of a stream that was resumed at ledger time `now`: its end moves
/// by the length of the pause.
pub open spec fn resumed(s: Stream, now: u64) -> Stream {
    let length = now - s.paused_at;
    Stream {
        total_paused_duration: (s.total_paused_duration + length) as u64,
        end_time: (s.end_time + length) as u64,
        last_update: now,
        status: StreamStatus::Active,
        paused_at: 0,
        ..s
    }
}

/// What is left in the escrow of `s`.
pub open spec fn unreleased(s: Stream) -> int {
    s.total_amount - s.released_amount
}

/// Why a stream that is not settled yet cannot be settled, if it cannot.
pub open spec fn settle_refusal(s: Stream, now: u64) -> Option<Error> {
    if !s.status.payable() || now < s.end_time {
        Some(Error::InvalidState)
    } else if unreleased(s) < i128::MIN || unreleased(s) > i128::MAX {
        Some(Error::Overflow)
    } else {
        None
    }
}

/// The record of a stream that was settled at ledger time `now`.
pub open spec fn settled(s: Stream, now: u64) -> Stream {
    Stream {
        released_amount: if unreleased(s) > 0 {
            s.total_amount
        } else {
            s.released_amount
        },
        status: StreamStatus::Settled,
        last_update: now,
        ..s
    }
}

/// What the recipient of `s` is still owed at ledger time `now`.
pub open spec fn cancel_payout(s: Stream, now: u64) -> int {
    vested(s, now) - s.released_amount
}

/// What has not vested of `s` at ledger time `now`.
pub open spec fn cancel_refund(s: Stream, now: u64) -> int {
    s.total_amount - vested(s, now)
}

/// Why a stream cannot be cancelled at ledger time `now`, if it cannot.
pub open spec fn cancel_refusal(s: Stream, now: u64) -> Option<Error> {
    if s.status.terminal() {
        Some(Error::InvalidState)
    } else {
        match vested_result(s, now) {
            Err(err) => Some(err),
            Ok(_) => if i128::MIN <= cancel_payout(s, now) <= i128::MAX && i128::MIN
                <= cancel_refund(s, now) <= i128::MAX {
                None
            } else {
                Some(Error::Overflow)
            },
        }
    }
}

/// The record of a stream that was cancelled at ledger time `now`.
pub open spec fn cancelled(s: Stream, now: u64) -> Stream {
    Stream {
        released_amount: if cancel_payout(s, now) > 0 {
            vested(s, now) as i128
        } else {
            s.released_amount
        },
        status: StreamStatus::Cancelled,
        last_update: now,
        ..s
    }
}

/// Why a stream cannot be amended at ledger time `now`, if it cannot. Whatever
/// else is in order, an amendment must not take back what has vested by now.
pub open spec fn amend_refusal(s: Stream, new_rate_per_second: i128, new_end_time: u64, now: u64) -> Option<
    Error,
> {
    if !s.status.payable() {
        Some(Error::InvalidState)
    } else if new_rate_per_second <= 0 {
        Some(Error::InvalidAmount)
    } else if new_end_time <= now || new_end_time <= s.start_time {
        Some(Error::InvalidTimeRange)
    } else if s.released_amount > s.total_amount {
        Some(Error::Overflow)
    } else if s.total_amount * (new_end_time - s.start_time) < i128::MIN || s.total_amount * (
    new_end_time - s.start_time) > i128::MAX {
        Some(Error::Overflow)
    } else if vested(amended(s, new_end_time, now), now) < vested(s, now) {
        Some(Error::InvalidTimeRange)
    } else {
        None
    }
}

/// The record of a stream that was amended at ledger time `now`.
pub open spec fn amended(s: Stream, new_end_time: u64, now: u64) -> Stream {
    Stream {
        end_time: new_end_time,
        duration: (new_end_time - s.start_time) as u64,
        last_update: now,
        ..s
    }
}

impl EnvView {
    /// After the sender of an existing stream was asked to authorise.
    pub open spec fn ask_sender(self, stream_id: u64) -> EnvView {
        if self.streams.contains_key(stream_id) {
            self.demand(self.streams[stream_id].sender)
        } else {
            self
        }
    }

    /// The same, unless the contract is paused.
    pub open spec fn ask_sender_unless_paused(self, stream_id: u64) -> EnvView {
        if self.is_paused() {
            self
        } else {
            self.ask_sender(stream_id)
        }
    }

    /// After `start_stream` succeeded.
    pub open spec fn start(self, stream_id: u64) -> EnvView {
        let s = self.streams[stream_id];
        let after = started(s, self.timestamp);
        self.read_paused().read_stream(stream_id).demand(s.sender).write_stream(
            stream_id,
            after,
        ).publish(
            Event::Started {
                stream_id,
                start_time: after.start_time,
                end_time: after.end_time,
                timestamp: after.start_time,
            },
        )
    }

    /// After `pause` succeeded.
    pub open spec fn pause(self, stream_id: u64) -> EnvView {
        let s = self.streams[stream_id];
        self.read_stream(stream_id).demand(s.sender).write_stream(
            stream_id,
            paused(s, self.timestamp),
        ).publish(
            Event::Paused {
                stream_id,
                sender: s.sender,
                paused_at: self.timestamp,
                timestamp: self.timestamp,
            },
        )
    }

    /// After `resume` succeeded.
    pub open spec fn resume(self, stream_id: u64) -> EnvView {
        let s = self.streams[stream_id];
        let after = resumed(s, self.timestamp);
        self.read_stream(stream_id).demand(s.sender).write_stream(stream_id, after).publish(
            Event::Resumed {
                stream_id,
                sender: s.sender,
                end_time: after.end_time,
                timestamp: self.timestamp,
            },
        )
    }

    /// After `amount` of the escrow of `s` went to `to`, if it is positive.
    pub open spec fn pay_if_positive(self, s: Stream, to: Address, amount: int) -> EnvView {
        if amount > 0 {
            self.transfer(s.token, self.contract_address, to, amount as i128)
        } else {
            self
        }
    }

    /// After `settle` succeeded.
    pub open spec fn settle(self, stream_id: u64) -> EnvView {
        let s = self.streams[stream_id];
        let after = settled(s, self.timestamp);
        let seen = self.read_paused().read_stream(stream_id);
        if s.status is Settled {
            seen
        } else {
            seen.pay_if_positive(s, s.recipient, unreleased(s)).drop_sender_stream(
                s.sender,
            ).write_stream(stream_id, after).publish(
                Event::Settled {
                    stream_id,
                    recipient: s.recipient,
                    amount: after.released_amount,
                    timestamp: self.timestamp,
                },
            )
        }
    }

    /// After `cancel_stream` succeeded.
    pub open spec fn cancel(self, stream_id: u64) -> EnvView {
        let s = self.streams[stream_id];
        let now = self.timestamp;
        self.read_stream(stream_id).demand(s.sender).pay_if_positive(
            s,
            s.recipient,
            cancel_payout(s, now),
        ).pay_if_positive(s, s.sender, cancel_refund(s, now)).drop_sender_stream(
            s.sender,
        ).write_stream(stream_id, cancelled(s, now)).publish(
            Event::Cancelled {
                stream_id,
                sender: s.sender,
                sender_refund: cancel_refund(s, now) as i128,
                recipient_payout: cancel_payout(s, now) as i128,
                timestamp: now,
            },
        )
    }

    /// After `amend_stream` succeeded.
    pub open spec fn amend(self, stream_id: u64, new_rate_per_second: i128, new_end_time: u64) -> EnvView {
        let s = self.streams[stream_id];
        self.read_paused().read_stream(stream_id).demand(s.sender).write_stream(
            stream_id,
            amended(s, new_end_time, self.timestamp),
        ).publish(
            Event::Amended {
                stream_id,
                sender: s.sender,
                rate_per_second: new_rate_per_second,
                end_time: new_end_time,
                timestamp: self.timestamp,
            },
        )
    }
}

// ── Laws of the life cycle ──────────────────────────────────────────────────

/// A pause freezes the vested amount at what it was when the pause began.
pub proof fn pause_freezes_accrual(s: Stream, now: u64, at: u64)
    requires
        s.status is Active,
        now <= at,
    ensures
        vested(paused(s, now), at) == vested(s, now),
{
}

/// Resuming a stream changes nothing of what has vested so far.
pub proof fn resume_keeps_vested_amount(s: Stream, now: u64)
    requires
        resume_refusal(s, now) is None,
    ensures
        vested(resumed(s, now), now) == vested(s, now),
        release::accrual_fits(resumed(s, now), now) == release::accrual_fits(s, now),
{
}

/// A resumed stream accrues as it would have without the pause, only later by
/// the length of the pause.
pub proof fn resume_shifts_the_schedule(s: Stream, now: u64, at: u64)
    requires
        resume_refusal(s, now) is None,
        now <= at,
    ensures
        vested(resumed(s, now), at) == vested(
            (Stream { status: StreamStatus::Active, paused_at: 0, ..s }),
            (at - (now - s.paused_at)) as u64,
        ),
{
}

/// A draft that is started accrues from nothing, and in full within its
/// duration.
pub proof fn started_drafts_accrue_over_their_duration(s: Stream, now: u64)
    requires
        start_refusal(s, now) is None,
        release::amounts_in_order(s),
        s.released_amount == 0,
        s.duration > 0,
    ensures
        vested(started(s, now), now) == 0,
        vested(started(s, now), (now + s.duration) as u64) == s.total_amount,
{
}

/// Cancelling divides what is left in the escrow, without a remainder, between
/// the recipient and the sender. The recipient gets all that has vested.
pub proof fn cancel_divides_the_escrow(s: Stream, now: u64)
    requires
        release::amounts_in_order(s),
        s.status is Draft ==> s.released_amount == 0,
        cancel_refusal(s, now) is None,
    ensures
        cancel_payout(s, now) + cancel_refund(s, now) == unreleased(s),
        0 <= cancel_payout(s, now),
        0 <= cancel_refund(s, now),
        cancelled(s, now).released_amount == vested(s, now),
        s.status is Draft ==> cancel_payout(s, now) == 0 && cancel_refund(s, now)
            == s.total_amount,
{
    release::vested_is_bounded(s, now);
}

/// A settled stream has released its whole escrow.
pub proof fn settle_releases_everything(s: Stream, now: u64)
    requires
        release::amounts_in_order(s),
        settle_refusal(s, now) is None,
    ensures
        settled(s, now).released_amount == s.total_amount,
        settled(s, now).status is Settled,
        0 <= unreleased(s),
{
}

/// An amendment takes back nothing that the recipient has earned: from then on
/// at least what had vested is vested, and the whole escrow still vests by the
/// new end. An earlier end takes nothing away at any time.
pub proof fn amend_claws_nothing_back(
    s: Stream,
    new_rate_per_second: i128,
    new_end_time: u64,
    now: u64,
    at: u64,
)
    requires
        release::amounts_in_order(s),
        amend_refusal(s, new_rate_per_second, new_end_time, now) is None,
    ensures
        vested(amended(s, new_end_time, now), now) >= vested(s, now),
        now <= at ==> vested(amended(s, new_end_time, now), at) >= vested(s, now),
        vested(amended(s, new_end_time, now), at) >= s.released_amount,
        s.status is Active && new_end_time <= at ==> vested(amended(s, new_end_time, now), at)
            == s.total_amount,
        new_end_time <= s.end_time ==> vested(amended(s, new_end_time, now), at) >= vested(s, at),
        amended(s, new_end_time, now).released_amount == s.released_amount,
        amended(s, new_end_time, now).total_amount == s.total_amount,
{
    release::vested_is_bounded(amended(s, new_end_time, now), at);
    if now <= at {
        release::vested_never_shrinks(amended(s, new_end_time, now), now, at);
    }
    if new_end_time <= s.end_time {
        release::earlier_end_vests_no_less(s, new_end_time, at);
    }
}

/// Cancelling right after an amendment pays the recipient no less, and the
/// sender no more, than cancelling before it.
pub proof fn amend_does_not_favour_the_sender(
    s: Stream,
    new_rate_per_second: i128,
    new_end_time: u64,
    now: u64,
)
    requires
        amend_refusal(s, new_rate_per_second, new_end_time, now) is None,
    ensures
        cancel_payout(amended(s, new_end_time, now), now) >= cancel_payout(s, now),
        cancel_refund(amended(s, new_end_time, now), now) <= cancel_refund(s, now),
{
}

/// An end that is not postponed is never refused for what has vested.
pub proof fn earlier_ends_are_not_refused(
    s: Stream,
    new_rate_per_second: i128,
    new_end_time: u64,
    now: u64,
)
    requires
        release::amounts_in_order(s),
        s.status.payable(),
        new_rate_per_second > 0,
        now < new_end_time <= s.end_time,
        s.start_time < new_end_time,
        s.total_amount * (new_end_time - s.start_time) <= i128::MAX,
    ensures
        amend_refusal(s, new_rate_per_second, new_end_time, now) is None,
{
    release::earlier_end_vests_no_less(s, new_end_time, now);
    let total = s.total_amount as int;
    let length = new_end_time - s.start_time;
    assert(0 <= total * length) by (nonlinear_arith)
        requires
            0 <= total,
            0 < length,
    ;
}

/// No call moves a stream out of a terminal status.
pub proof fn terminal_streams_stay(s: Stream, now: u64, new_rate_per_second: i128, new_end_time: u64)
    requires
        s.status.terminal(),
    ensures
        start_refusal(s, now) == Some(Error::InvalidState),
        resume_refusal(s, now) == Some(Error::InvalidState),
        settle_refusal(s, now) == Some(Error::InvalidState),
        cancel_refusal(s, now) == Some(Error::InvalidState),
        amend_refusal(s, new_rate_per_second, new_end_time, now) == Some(Error::InvalidState),
        crate::admin::override_refusal(s, new_end_time) == Some(Error::InvalidState),
        forall|amount: i128|
            #[trigger] crate::withdrawal::draw_refusal(s, amount, now) == (if s.status is Settled {
                Some(Error::AlreadySettled)
            } else {
                Some(Error::InvalidState)
            }),
{
}

/// Starts the record of a draft.
fn start_record(s: Stream, now: u64) -> (r: Result<Stream, Error>)
    ensures
        match start_refusal(s, now) {
            Some(err) => r == Err::<Stream, Error>(err),
            None => r == Ok::<Stream, Error>(started(s, now)),
        },
{
    if s.status != StreamStatus::Draft {
        return Err(Error::InvalidState);
    }
    match now.checked_add(s.duration) {
        Some(end_time) => Ok(
            Stream {
                status: StreamStatus::Active,
                start_time: now,
                last_update: now,
                end_time,
                ..s
            },
        ),
        None => Err(Error::InvalidTimeRange),
    }
}

/// Resumes the record of a paused stream.
fn resume_record(s: Stream, now: u64) -> (r: Result<Stream, Error>)
    ensures
        match resume_refusal(s, now) {
            Some(err) => r == Err::<Stream, Error>(err),
            None => r == Ok::<Stream, Error>(resumed(s, now)),
        },
{
    if s.status != StreamStatus::Paused {
        return Err(Error::InvalidState);
    }
    let paused_duration: u64 = match now.checked_sub(s.paused_at) {
        Some(d) => d,
        None => {
            return Err(Error::InvalidTimeRange);
        },
    };
    let total_paused_duration: u64 = match s.total_paused_duration.checked_add(paused_duration) {
        Some(d) => d,
        None => {
            return Err(Error::InvalidTimeRange);
        },
    };
    let end_time: u64 = match s.end_time.checked_add(paused_duration) {
        Some(t) => t,
        None => {
            return Err(Error::InvalidTimeRange);
        },
    };
    Ok(
        Stream {
            total_paused_duration,
            end_time,
            last_update: now,
            status: StreamStatus::Active,
            paused_at: 0,
            ..s
        },
    )
}

/// Computes what the recipient is owed of a stream that is due for settlement.
fn settle_payout(s: &Stream, now: u64) -> (r: Result<i128, Error>)
    ensures
        match settle_refusal(*s, now) {
            Some(err) => r == Err::<i128, Error>(err),
            None => r is Ok && r->Ok_0 == unreleased(*s),
        },
{
    if s.status != StreamStatus::Active && s.status != StreamStatus::Paused {
        return Err(Error::InvalidState);
    }
    if now < s.end_time {
        return Err(Error::InvalidState);
    }
    match s.total_amount.checked_sub(s.released_amount) {
        Some(payout) => Ok(payout),
        None => Err(Error::Overflow),
    }
}

/// Computes what recipient and sender get of a stream that is cancelled.
fn cancel_shares(s: &Stream, now: u64) -> (r: Result<(i128, i128), Error>)
    ensures
        match cancel_refusal(*s, now) {
            Some(err) => r == Err::<(i128, i128), Error>(err),
            None => {
                &&& r is Ok
                &&& r->Ok_0.0 == cancel_payout(*s, now)
                &&& r->Ok_0.1 == cancel_refund(*s, now)
            },
        },
{
    if s.status == StreamStatus::Settled || s.status == StreamStatus::Cancelled {
        return Err(Error::InvalidState);
    }
    let vested_now: i128 = release::vested_amount(s, now)?;
    let recipient_payout: i128 = match vested_now.checked_sub(s.released_amount) {
        Some(payout) => payout,
        None => {
            return Err(Error::Overflow);
        },
    };
    match s.total_amount.checked_sub(vested_now) {
        Some(sender_refund) => Ok((recipient_payout, sender_refund)),
        None => Err(Error::Overflow),
    }
}

/// An escrow that fits `i128` when multiplied by the time from the start to
/// `end_time` makes no accrual before `end_time` overflow.
pub(crate) proof fn lemma_accrual_fits_before_the_end(s: Stream, end_time: u64, now: u64)
    requires
        now < end_time,
        s.start_time < end_time,
        i128::MIN <= s.total_amount * (end_time - s.start_time) <= i128::MAX,
    ensures
        release::accrual_fits(s, now),
{
    let t = release::accrual_time(s, now);
    if release::inside_window(s, t) {
        let total = s.total_amount as int;
        let a = release::elapsed(s, t);
        let length = end_time - s.start_time;
        assert(total >= 0 ==> 0 <= total * a <= total * length) by (nonlinear_arith)
            requires
                0 < a <= length,
        ;
        assert(total < 0 ==> total * length <= total * a <= 0) by (nonlinear_arith)
            requires
                0 < a <= length,
        ;
    }
}

/// Amends the record of a stream.
fn amend_record(s: Stream, new_rate_per_second: i128, new_end_time: u64, now: u64) -> (r: Result<
    Stream,
    Error,
>)
    ensures
        match amend_refusal(s, new_rate_per_second, new_end_time, now) {
            Some(err) => r == Err::<Stream, Error>(err),
            None => r == Ok::<Stream, Error>(amended(s, new_end_time, now)),
        },
{
    if s.status != StreamStatus::Active && s.status != StreamStatus::Paused {
        return Err(Error::InvalidState);
    }
    if new_rate_per_second <= 0 {
        return Err(Error::InvalidAmount);
    }
    if new_end_time <= now || new_end_time <= s.start_time {
        return Err(Error::InvalidTimeRange);
    }
    let new_duration: u64 = new_end_time - s.start_time;
    if s.released_amount > s.total_amount {
        return Err(Error::Overflow);
    }
    if s.total_amount.checked_mul(new_duration as i128).is_none() {
        return Err(Error::Overflow);
    }
    let after = Stream { end_time: new_end_time, duration: new_duration, last_update: now, ..s };
    proof {
        lemma_accrual_fits_before_the_end(s, new_end_time, now);
        lemma_accrual_fits_before_the_end(after, new_end_time, now);
    }
    let earned: i128 = release::vested_amount(&s, now)?;
    let kept: i128 = release::vested_amount(&after, now)?;
    if kept < earned {
        return Err(Error::InvalidTimeRange);
    }
    Ok(after)
}

impl Contract {
    /// Starts a draft: it accrues from now on, for its duration.
    ///
    /// Needs the authorisation of the stream's sender.
    pub fn start_stream(env: &mut Env, stream_id: u64) -> (r: Result<Stream, Error>)
        ensures
            match old(env)@.running_refusal(
                stream_id,
                start_refusal(old(env)@.streams[stream_id], old(env)@.timestamp),
            ) {
                Some(err) => {
                    &&& r == Err::<Stream, Error>(err)
                    &&& final(env)@ == old(env)@.ask_sender_unless_paused(stream_id)
                },
                None => {
                    &&& r == Ok::<Stream, Error>(
                        started(old(env)@.streams[stream_id], old(env)@.timestamp),
                    )
                    &&& final(env)@ == old(env)@.start(stream_id)
                },
            },
    {
        broadcast use crate::env::group_calls_added;

        let kept: usize = env.calls.len();
        let now: u64 = env.timestamp;
        let stream = get_running_stream(env, stream_id)?;
        env.require_auth(stream.sender);
        let after = match start_record(stream, now) {
            Ok(after) => after,
            Err(err) => {
                proof {
                    assert(env@.only_calls_added(old(env)@.demand(stream.sender)));
                }
                env.revert(kept);
                return Err(err);
            },
        };
        storage::set_stream(env, stream_id, after);
        publish(
            env,
            Event::Started {
                stream_id,
                start_time: after.start_time,
                end_time: after.end_time,
                timestamp: after.start_time,
            },
        );
        Ok(after)
    }

    /// Freezes the accrual of an active stream.
    ///
    /// Needs the authorisation of the stream's sender.
    pub fn pause(env: &mut Env, stream_id: u64) -> (r: Result<Stream, Error>)
        ensures
            if !old(env)@.streams.contains_key(stream_id) {
                &&& r == Err::<Stream, Error>(Error::NotFound)
                &&& final(env)@ == old(env)@
            } else if !(old(env)@.streams[stream_id].status is Active) {
                &&& r == Err::<Stream, Error>(Error::InvalidState)
                &&& final(env)@ == old(env)@.ask_sender(stream_id)
            } else {
                &&& r == Ok::<Stream, Error>(
                    paused(old(env)@.streams[stream_id], old(env)@.timestamp),
                )
                &&& final(env)@ == old(env)@.pause(stream_id)
            },
    {
        broadcast use crate::env::group_calls_added;

        let kept: usize = env.calls.len();
        let now: u64 = env.timestamp;
        let stream = get_existing_stream(env, stream_id)?;
        env.require_auth(stream.sender);
        if stream.status != StreamStatus::Active {
            proof {
                assert(env@.only_calls_added(old(env)@.demand(stream.sender)));
            }
            env.revert(kept);
            return Err(Error::InvalidState);
        }
        let after = Stream {
            paused_at: now,
            last_update: now,
            status: StreamStatus::Paused,
            ..stream
        };
        storage::set_stream(env, stream_id, after);
        publish(
            env,
            Event::Paused { stream_id, sender: stream.sender, paused_at: now, timestamp: now },
        );
        Ok(after)
    }

    /// Lets a paused stream accrue again, and moves its end by the length of
    /// the pause.
    ///
    /// Needs the authorisation of the stream's sender.
    pub fn resume(env: &mut Env, stream_id: u64) -> (r: Result<Stream, Error>)
        ensures
            match old(env)@.stream_refusal(
                stream_id,
                resume_refusal(old(env)@.streams[stream_id], old(env)@.timestamp),
            ) {
                Some(err) => {
                    &&& r == Err::<Stream, Error>(err)
                    &&& final(env)@ == old(env)@.ask_sender(stream_id)
                },
                None => {
                    &&& r == Ok::<Stream, Error>(
                        resumed(old(env)@.streams[stream_id], old(env)@.timestamp),
                    )
                    &&& final(env)@ == old(env)@.resume(stream_id)
                },
            },
    {
        broadcast use crate::env::group_calls_added;

        let kept: usize = env.calls.len();
        let now: u64 = env.timestamp;
        let stream = get_existing_stream(env, stream_id)?;
        env.require_auth(stream.sender);
        let after = match resume_record(stream, now) {
            Ok(after) => after,
            Err(err) => {
                proof {
                    assert(env@.only_calls_added(old(env)@.demand(stream.sender)));
                }
                env.revert(kept);
                return Err(err);
            },
        };
        storage::set_stream(env, stream_id, after);
        publish(
            env,
            Event::Resumed {
                stream_id,
                sender: stream.sender,
                end_time: after.end_time,
                timestamp: now,
            },
        );
        Ok(after)
    }

    /// Pays the rest of the escrow to the recipient once the time window has
    /// elapsed. Anyone may ask for it; on a settled stream it does nothing.
    pub fn settle(env: &mut Env, stream_id: u64) -> (r: Result<(), Error>)
        ensures
            match old(env)@.running_refusal(
                stream_id,
                if old(env)@.streams[stream_id].status is Settled {
                    None
                } else {
                    settle_refusal(old(env)@.streams[stream_id], old(env)@.timestamp)
                },
            ) {
                Some(err) => r == Err::<(), Error>(err) && final(env)@ == old(env)@,
                None => r == Ok::<(), Error>(()) && final(env)@ == old(env)@.settle(stream_id),
            },
    {
        broadcast use crate::env::group_calls_added;

        let kept: usize = env.calls.len();
        let now: u64 = env.timestamp;
        let contract = env.contract_address;
        let stream = get_running_stream(env, stream_id)?;
        if stream.status == StreamStatus::Settled {
            return Ok(());
        }
        let payout_amount: i128 = match settle_payout(&stream, now) {
            Ok(payout) => payout,
            Err(err) => {
                proof {
                    assert(env@.only_calls_added(old(env)@));
                }
                env.revert(kept);
                return Err(err);
            },
        };
        let mut after = Stream { status: StreamStatus::Settled, last_update: now, ..stream };
        if payout_amount > 0 {
            env.transfer(stream.token, contract, stream.recipient, payout_amount);
            after.released_amount = stream.total_amount;
        }
        limits::decrement_sender_stream_count(env, stream.sender);
        storage::set_stream(env, stream_id, after);
        publish(
            env,
            Event::Settled {
                stream_id,
                recipient: stream.recipient,
                amount: after.released_amount,
                timestamp: now,
            },
        );
        Ok(())
    }

    /// Ends a stream that is not over: the recipient gets what has vested and
    /// was not released, the sender what has not vested.
    ///
    /// Needs the authorisation of the stream's sender.
    pub fn cancel_stream(env: &mut Env, stream_id: u64) -> (r: Result<Stream, Error>)
        ensures
            match old(env)@.stream_refusal(
                stream_id,
                cancel_refusal(old(env)@.streams[stream_id], old(env)@.timestamp),
            ) {
                Some(err) => {
                    &&& r == Err::<Stream, Error>(err)
                    &&& final(env)@ == old(env)@.ask_sender(stream_id)
                },
                None => {
                    &&& r == Ok::<Stream, Error>(
                        cancelled(old(env)@.streams[stream_id], old(env)@.timestamp),
                    )
                    &&& final(env)@ == old(env)@.cancel(stream_id)
                },
            },
    {
        broadcast use crate::env::group_calls_added;

        let kept: usize = env.calls.len();
        let now: u64 = env.timestamp;
        let contract = env.contract_address;
        let stream = get_existing_stream(env, stream_id)?;
        env.require_auth(stream.sender);
        let (recipient_payout, sender_refund) = match cancel_shares(&stream, now) {
            Ok(shares) => shares,
            Err(err) => {
                proof {
                    assert(env@.only_calls_added(old(env)@.demand(stream.sender)));
                }
                env.revert(kept);
                return Err(err);
            },
        };
        let mut after = Stream { status: StreamStatus::Cancelled, last_update: now, ..stream };
        if recipient_payout > 0 {
            env.transfer(stream.token, contract, stream.recipient, recipient_payout);
            proof {
                release::lemma_vested_fits(stream, now);
            }
            after.released_amount = stream.released_amount + recipient_payout;
        }
        if sender_refund > 0 {
            env.transfer(stream.token, contract, stream.sender, sender_refund);
        }
        limits::decrement_sender_stream_count(env, stream.sender);
        storage::set_stream(env, stream_id, after);
        publish(
            env,
            Event::Cancelled {
                stream_id,
                sender: stream.sender,
                sender_refund,
                recipient_payout,
                timestamp: now,
            },
        );
        Ok(after)
    }

    /// Moves the end of an active or paused stream, and with it the rate at
    /// which the rest accrues. Refuses an end that is so late that less would be
    /// vested than is vested by now.
    ///
    /// Needs the authorisation of the stream's sender.
    pub fn amend_stream(
        env: &mut Env,
        stream_id: u64,
        new_rate_per_second: i128,
        new_end_time: u64,
    ) -> (r: Result<Stream, Error>)
        ensures
            match old(env)@.running_refusal(
                stream_id,
                amend_refusal(
                    old(env)@.streams[stream_id],
                    new_rate_per_second,
                    new_end_time,
                    old(env)@.timestamp,
                ),
            ) {
                Some(err) => {
                    &&& r == Err::<Stream, Error>(err)
                    &&& final(env)@ == old(env)@.ask_sender_unless_paused(stream_id)
                },
                None => {
                    &&& r == Ok::<Stream, Error>(
                        amended(old(env)@.streams[stream_id], new_end_time, old(env)@.timestamp),
                    )
                    &&& final(env)@ == old(env)@.amend(stream_id, new_rate_per_second, new_end_time)
                },
            },
    {
        broadcast use crate::env::group_calls_added;

        let kept: usize = env.calls.len();
        let now: u64 = env.timestamp;
        let stream = get_running_stream(env, stream_id)?;
        env.require_auth(stream.sender);
        let after = match amend_record(stream, new_rate_per_second, new_end_time, now) {
            Ok(after) => after,
            Err(err) => {
                proof {
                    assert(env@.only_calls_added(old(env)@.demand(stream.sender)));
                }
                env.revert(kept);
                return Err(err);
            },
        };
        storage::set_stream(env, stream_id, after);
        publish(
            env,
            Event::Amended {
                stream_id,
                sender: stream.sender,
                rate_per_second: new_rate_per_second,
                end_time: new_end_time,
                timestamp: now,
            },
        );
        Ok(after)
    }
}

} // verus!
