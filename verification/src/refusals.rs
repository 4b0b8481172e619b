//! When each call is refused, and for which reason: exactly the listed ones, the
//! first that applies, told by the recorded rows and the arguments.
use vstd::prelude::*;

use crate::env::EnvView;
use crate::error::Error;
use crate::host::Address;
use crate::release::{vested_result, withdrawable_is_vested_less_released};
use crate::storage::Stream;

verus! {

/// A stream is created unless the contract is paused, its sender is at the limit,
/// the fee is above 100 %, the amount is not positive, sender and recipient are
/// the same, the token is blocked, the recipient cannot hold it, or the window is
/// empty or begins in the past.
pub proof fn creation_is_refused_only_for_these_reasons(
    e: EnvView,
    sender: Address,
    recipient: Address,
    token: Address,
    total_amount: i128,
    start_time: u64,
    end_time: u64,
    fee_bps: u32,
    recipient_balance: i128,
)
    ensures
        ({
            let r = e.create_refusal(
                sender,
                recipient,
                token,
                total_amount,
                start_time,
                end_time,
                fee_bps,
                recipient_balance,
            );
            let limit = match e.max_streams {
                Some(n) => n,
                None => 10,
            };
            let pause = e.paused == Some(true);
            let full = if e.sender_streams.contains_key(sender) {
                e.sender_streams[sender] >= limit
            } else {
                limit == 0
            };
            let fee = fee_bps > 10_000;
            let amount = total_amount <= 0;
            let itself = sender == recipient;
            let token = e.token_allowed.contains_key(token) && !e.token_allowed[token];
            let trust = recipient_balance < 0;
            let window = end_time <= start_time || start_time < e.timestamp;
            let terms = pause || full || fee || amount || itself || token;
            &&& r is None <==> !terms && !trust && !window
            &&& r == Some(Error::ContractPaused) <==> pause
            &&& r == Some(Error::StreamLimitExceeded) <==> !pause && full
            &&& r == Some(Error::InvalidFeeBps) <==> !pause && !full && fee
            &&& r == Some(Error::InvalidAmount) <==> !pause && !full && !fee && amount
            &&& r == Some(Error::SelfStream) <==> !pause && !full && !fee && !amount && itself
            &&& r == Some(Error::TokenNotAllowed) <==> !pause && !full && !fee && !amount
                && !itself && token
            &&& r == Some(Error::RecipientTrustlineMissing) <==> !terms && trust
            &&& r == Some(Error::InvalidTimeRange) <==> !terms && !trust && window
        }),
        ({
            let t = e.terms_refusal(sender, recipient, token, total_amount, fee_bps);
            let r = e.create_refusal(
                sender,
                recipient,
                token,
                total_amount,
                start_time,
                end_time,
                fee_bps,
                recipient_balance,
            );
            &&& t is Some ==> r == t
            &&& t is None ==> r is None || r == Some(Error::RecipientTrustlineMissing) || r == Some(
                Error::InvalidTimeRange,
            )
        }),
{
}

/// A draft is created unless the contract is paused, the amount is not positive,
/// sender and recipient are the same, the token is blocked, or the duration is
/// zero.
pub proof fn drafts_are_refused_only_for_these_reasons(
    e: EnvView,
    sender: Address,
    recipient: Address,
    token: Address,
    total_amount: i128,
    duration: u64,
)
    ensures
        ({
            let r = e.draft_refusal(sender, recipient, token, total_amount, duration);
            let pause = e.paused == Some(true);
            let amount = total_amount <= 0;
            let itself = sender == recipient;
            let token = e.token_allowed.contains_key(token) && !e.token_allowed[token];
            &&& r is None <==> !pause && !amount && !itself && !token && duration > 0
            &&& r == Some(Error::ContractPaused) <==> pause
            &&& r == Some(Error::InvalidAmount) <==> !pause && amount
            &&& r == Some(Error::InvalidState) <==> !pause && !amount && itself
            &&& r == Some(Error::TokenNotAllowed) <==> !pause && !amount && !itself && token
            &&& r == Some(Error::InvalidTimeRange) <==> !pause && !amount && !itself && !token
                && duration == 0
        }),
{
}

/// A withdrawal succeeds, at every ledger time, unless the contract is paused, the
/// amount is not positive, the stream does not exist, the caller may not
/// withdraw, the stream is settled or neither active nor paused, the amount is
/// above what is open, or an amount cannot be computed. The fee matters only if
/// there is a collector.
pub proof fn withdrawals_are_refused_only_for_these_reasons(
    e: EnvView,
    caller: Address,
    stream_id: u64,
    amount: i128,
)
    requires
        ({
            let s = e.streams[stream_id];
            &&& 0 <= s.released_amount <= s.total_amount
            &&& s.status is Draft ==> s.released_amount == 0
            &&& s.fee_bps <= 10_000
        }),
    ensures
        ({
            let s = e.streams[stream_id];
            let r = e.withdraw_refusal(caller, stream_id, amount);
            let v = vested_result(s, e.timestamp);
            let pause = e.paused == Some(true);
            let bad = amount <= 0;
            let missing = !e.streams.contains_key(stream_id);
            let stranger = caller != s.recipient && !(e.withdrawers.contains_key(stream_id)
                && e.withdrawers[stream_id].contains(caller));
            let early = pause || bad || missing || stranger;
            let settled = s.status is Settled;
            let resting = !(s.status is Active || s.status is Paused);
            let accrual = v is Err;
            let above = v is Ok && amount > v->Ok_0 - s.released_amount;
            let fee = e.fee_collector is Some && amount * s.fee_bps > i128::MAX;
            &&& r is None <==> !early && !resting && !accrual && !above && !fee
            &&& r == Some(Error::ContractPaused) <==> pause
            &&& r == Some(Error::InvalidAmount) <==> !pause && bad
            &&& r == Some(Error::NotFound) <==> !pause && !bad && missing
            &&& r == Some(Error::Unauthorized) <==> !pause && !bad && !missing && stranger
            &&& r == Some(Error::AlreadySettled) <==> !early && settled
            &&& r == Some(Error::InvalidState) <==> !early && !settled && resting
            &&& r == Some(Error::OverWithdraw) <==> !early && !resting && above
            &&& r == Some(Error::Overflow) <==> !early && !resting && (accrual || (!above && fee))
        }),
{
    let s = e.streams[stream_id];
    withdrawable_is_vested_less_released(s, e.timestamp);
    if amount > 0 {
        crate::effects::fees_are_ten_thousandths_rounded_down(amount, s.fee_bps);
    }
}

/// A guarded withdrawal is refused for a protocol fee above what the caller
/// accepts, and else for the reasons of a plain one by the recipient; a fee needs
/// an admin to receive it.
pub proof fn guarded_withdrawals_are_refused_only_for_these_reasons(
    e: EnvView,
    stream_id: u64,
    amount: i128,
    max_fee_bps: u32,
    bps: u32,
)
    requires
        ({
            let s = e.streams[stream_id];
            &&& 0 <= s.released_amount <= s.total_amount
            &&& s.status is Draft ==> s.released_amount == 0
        }),
        e.fee_bps == Some(bps) || (e.fee_bps is None && bps == 0),
        bps <= 10_000,
    ensures
        ({
            let s = e.streams[stream_id];
            let r = e.guarded_refusal(stream_id, amount, max_fee_bps);
            let v = vested_result(s, e.timestamp);
            let guard = bps > max_fee_bps;
            let pause = e.paused == Some(true);
            let bad = amount <= 0;
            let missing = !e.streams.contains_key(stream_id);
            let early = guard || pause || bad || missing;
            let settled = s.status is Settled;
            let resting = !(s.status is Active || s.status is Paused);
            let accrual = v is Err;
            let above = v is Ok && amount > v->Ok_0 - s.released_amount;
            let fee = amount * bps > i128::MAX;
            let nobody = amount * bps >= 10_000 && e.admin is None;
            &&& r is None <==> !early && !resting && !accrual && !above && !fee && !nobody
            &&& r == Some(Error::FeeTooHigh) <==> guard
            &&& r == Some(Error::ContractPaused) <==> !guard && pause
            &&& r == Some(Error::InvalidAmount) <==> !guard && !pause && bad
            &&& r == Some(Error::NotFound) <==> (!guard && !pause && !bad && missing) || (!early
                && !resting && !accrual && !above && !fee && nobody)
            &&& r == Some(Error::AlreadySettled) <==> !early && settled
            &&& r == Some(Error::InvalidState) <==> !early && !settled && resting
            &&& r == Some(Error::OverWithdraw) <==> !early && !resting && above
            &&& r == Some(Error::Overflow) <==> !early && !resting && (accrual || (!above && fee))
        }),
{
    let s = e.streams[stream_id];
    withdrawable_is_vested_less_released(s, e.timestamp);
    if amount > 0 {
        crate::effects::fees_are_ten_thousandths_rounded_down(amount, bps);
    }
}

/// Only a draft is started, and only if its end is a time.
pub proof fn starting_is_refused_only_for_these_reasons(s: Stream, now: u64)
    ensures
        ({
            let r = crate::lifecycle::start_refusal(s, now);
            &&& r is None <==> s.status is Draft && now + s.duration <= u64::MAX
            &&& r == Some(Error::InvalidState) <==> !(s.status is Draft)
            &&& r == Some(Error::InvalidTimeRange) <==> s.status is Draft && now + s.duration
                > u64::MAX
        }),
{
}

/// Only a paused stream is resumed, and only if the pause has a length that can
/// be added to its times.
pub proof fn resuming_is_refused_only_for_these_reasons(s: Stream, now: u64)
    ensures
        ({
            let r = crate::lifecycle::resume_refusal(s, now);
            let fine = s.paused_at <= now && s.end_time + (now - s.paused_at) <= u64::MAX
                && s.total_paused_duration + (now - s.paused_at) <= u64::MAX;
            &&& r is None <==> s.status is Paused && fine
            &&& r == Some(Error::InvalidState) <==> !(s.status is Paused)
            &&& r == Some(Error::InvalidTimeRange) <==> s.status is Paused && !fine
        }),
{
}

/// A stream is settled if it is active or paused and its end has come.
pub proof fn settling_is_refused_only_for_these_reasons(s: Stream, now: u64)
    requires
        0 <= s.released_amount <= s.total_amount,
    ensures
        ({
            let r = crate::lifecycle::settle_refusal(s, now);
            let due = (s.status is Active || s.status is Paused) && s.end_time <= now;
            &&& r is None <==> due
            &&& r == Some(Error::InvalidState) <==> !due
        }),
{
}

/// A stream that is not over is cancelled at any time, if what has vested can be
/// computed.
pub proof fn cancelling_is_refused_only_for_these_reasons(s: Stream, now: u64)
    requires
        0 <= s.released_amount <= s.total_amount,
        s.status is Draft ==> s.released_amount == 0,
    ensures
        ({
            let r = crate::lifecycle::cancel_refusal(s, now);
            let over = s.status is Settled || s.status is Cancelled;
            &&& r is None <==> !over && vested_result(s, now) is Ok
            &&& r == Some(Error::InvalidState) <==> over
            &&& r == Some(Error::Overflow) <==> !over && vested_result(s, now) is Err
        }),
{
    crate::release::vested_is_bounded(s, now);
}

/// An active or paused stream is amended if the rate is positive, the new end
/// lies ahead and after the start, the accrual up to it can be computed, and
/// nothing that has vested is taken back.
pub proof fn amending_is_refused_only_for_these_reasons(
    s: Stream,
    new_rate_per_second: i128,
    new_end_time: u64,
    now: u64,
)
    requires
        0 <= s.released_amount <= s.total_amount,
    ensures
        ({
            let r = crate::lifecycle::amend_refusal(s, new_rate_per_second, new_end_time, now);
            let moved = Stream {
                end_time: new_end_time,
                duration: (new_end_time - s.start_time) as u64,
                last_update: now,
                ..s
            };
            let resting = !(s.status is Active || s.status is Paused);
            let rate = new_rate_per_second <= 0;
            let window = new_end_time <= now || new_end_time <= s.start_time;
            let huge = s.total_amount * (new_end_time - s.start_time) > i128::MAX;
            let early = resting || rate || window || huge;
            let less = vested_result(moved, now)->Ok_0 < vested_result(s, now)->Ok_0;
            &&& !early ==> vested_result(moved, now) is Ok && vested_result(s, now) is Ok
            &&& r is None <==> !early && !less
            &&& r == Some(Error::InvalidState) <==> resting
            &&& r == Some(Error::InvalidAmount) <==> !resting && rate
            &&& r == Some(Error::InvalidTimeRange) <==> !resting && !rate && (window || (!huge
                && less))
            &&& r == Some(Error::Overflow) <==> !resting && !rate && !window && huge
        }),
{
    let moved = Stream {
        end_time: new_end_time,
        duration: (new_end_time - s.start_time) as u64,
        last_update: now,
        ..s
    };
    if s.start_time < new_end_time {
        let total = s.total_amount as int;
        let length = new_end_time - s.start_time;
        assert(0 <= total * length) by (nonlinear_arith)
            requires
                0 <= total,
                0 < length,
        ;
        if now < new_end_time && total * length <= i128::MAX {
            crate::lifecycle::lemma_accrual_fits_before_the_end(s, new_end_time, now);
            crate::lifecycle::lemma_accrual_fits_before_the_end(moved, new_end_time, now);
            crate::release::lemma_vested_fits(s, now);
            crate::release::lemma_vested_fits(moved, now);
        }
    }
}

/// An override is refused to everyone but the admin, for every nonce but the
/// current one, for a stream that does not exist or is over, and for an end that
/// is not after the start.
pub proof fn overriding_is_refused_only_for_these_reasons(
    e: EnvView,
    admin: Address,
    nonce: u64,
    stream_id: u64,
    new_end_time: u64,
    current: u64,
)
    requires
        e.admin_nonce == Some(current) || (e.admin_nonce is None && current == 0),
        current < u64::MAX,
    ensures
        ({
            let s = e.streams[stream_id];
            let r = e.admin_override_refusal(admin, nonce, stream_id, new_end_time);
            let entitled = e.admin == Some(admin);
            let missing = !e.streams.contains_key(stream_id);
            let over = s.status is Settled || s.status is Cancelled;
            let window = new_end_time <= s.start_time;
            &&& r is None <==> entitled && nonce == current && !missing && !over && !window
            &&& r == Some(Error::Unauthorized) <==> e.admin is Some && e.admin->0 != admin
            &&& r == Some(Error::NonceTooLow) <==> entitled && nonce < current
            &&& r == Some(Error::NonceOutOfOrder) <==> entitled && nonce > current
            &&& r == Some(Error::NotFound) <==> e.admin is None || (entitled && nonce == current
                && missing)
            &&& r == Some(Error::InvalidState) <==> entitled && nonce == current && !missing && over
            &&& r == Some(Error::InvalidTimeRange) <==> entitled && nonce == current && !missing
                && !over && window
        }),
{
}

/// A split stream is created unless the contract is paused, the amount is not
/// positive, there are fewer than two recipients, recipients and weights do not
/// pair up, a weight is zero, the sender is a recipient, the token is blocked, the
/// window is empty or begins in the past, or the weights have no sum.
pub proof fn split_creation_is_refused_only_for_these_reasons(
    e: EnvView,
    sender: Address,
    token: Address,
    total_amount: i128,
    start_time: u64,
    end_time: u64,
    recipients: Seq<Address>,
    weights: Seq<u64>,
)
    ensures
        ({
            let r = e.create_split_refusal(
                sender,
                token,
                total_amount,
                start_time,
                end_time,
                recipients,
                weights,
            );
            let pause = e.paused == Some(true);
            let amount = total_amount <= 0 || recipients.len() < 2 || recipients.len()
                != weights.len() || weights.contains(0);
            let itself = recipients.contains(sender);
            let blocked = e.token_allowed.contains_key(token) && !e.token_allowed[token];
            let window = end_time <= start_time || start_time < e.timestamp;
            let sum = crate::multi::sum_weights(weights, weights.len() as int) > u64::MAX;
            &&& r is None <==> !pause && !amount && !itself && !blocked && !window && !sum
            &&& r == Some(Error::ContractPaused) <==> pause
            &&& r == Some(Error::InvalidAmount) <==> !pause && amount
            &&& r == Some(Error::SelfStream) <==> !pause && !amount && itself
            &&& r == Some(Error::TokenNotAllowed) <==> !pause && !amount && !itself && blocked
            &&& r == Some(Error::InvalidTimeRange) <==> !pause && !amount && !itself && !blocked
                && window
            &&& r == Some(Error::Overflow) <==> !pause && !amount && !itself && !blocked && !window
                && sum
        }),
{
}

/// A withdrawal from a split stream is refused for the same kind of reasons as one
/// from a plain stream; the recipient needs an allocation.
pub proof fn split_withdrawals_are_refused_only_for_these_reasons(
    e: EnvView,
    stream_id: u64,
    recipient: Address,
    amount: i128,
)
    ensures
        ({
            let s = e.splits[stream_id];
            let r = e.withdraw_split_refusal(stream_id, recipient, amount);
            let open = s.open_result(recipient, e.timestamp);
            let pause = e.paused == Some(true);
            let bad = amount <= 0;
            let missing = !e.splits.contains_key(stream_id);
            let early = pause || bad || missing;
            let settled = s.status is Settled;
            let stranger = forall|i: int|
                0 <= i < s.allocations.len() ==> (#[trigger] s.allocations[i]).recipient
                    != recipient;
            let resting = !(s.status is Active || s.status is Paused) || stranger;
            &&& r is None <==> !early && !settled && !resting && open is Ok && amount <= open->Ok_0
            &&& r == Some(Error::ContractPaused) <==> pause
            &&& r == Some(Error::InvalidAmount) <==> !pause && bad
            &&& r == Some(Error::NotFound) <==> !pause && !bad && missing
            &&& r == Some(Error::AlreadySettled) <==> !early && settled
            &&& r == Some(Error::InvalidState) <==> !early && !settled && resting
            &&& r == Some(Error::Overflow) <==> !early && !settled && !resting && open is Err
            &&& r == Some(Error::OverWithdraw) <==> !early && !settled && !resting && open is Ok
                && amount > open->Ok_0
        }),
{
}

} // verus!
