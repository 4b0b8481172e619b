//! What each call on a split stream does: how it accrues and is shared, the record
//! that a call leaves, and who is paid, told by the record before it.
use vstd::prelude::*;

use crate::books::lemma_payments_touch_no_row;
use crate::effects::{announced, group_call_effects, moved};
use crate::env::EnvView;
use crate::error::Error;
use crate::escrow::{flow, lemma_flow_push};
use crate::host::{Address, HostCall};
use crate::multi::{sum_weights, RecipientAllocation, SplitStreamView};
use crate::release::lemma_quotient_is_floor;
use crate::shares::{
    allocations_stay_within_their_shares, lemma_weight_is_positive,
    split_vested_is_bounded_and_grows, sum_released,
};

verus! {

// ── Accrual and shares ──────────────────────────────────────────────────────

/// A split stream that is not over accrues linearly, second by second: nothing up
/// to the start, everything from the end on, and between them exactly the whole
/// units that `total_amount` yields for the seconds since the start.
pub proof fn split_accrual_is_linear_per_second(s: SplitStreamView, at: u64)
    requires
        !(s.status is Settled || s.status is Cancelled),
        0 <= s.total_amount,
        s.start_time < s.end_time,
    ensures
        at >= s.end_time ==> s.vested(at) == s.total_amount,
        at <= s.start_time ==> s.vested(at) == 0,
        s.start_time < at < s.end_time ==> s.vested(at) * (s.end_time - s.start_time)
            <= s.total_amount * (at - s.start_time) < (s.vested(at) + 1) * (s.end_time
            - s.start_time),
        s.accrual_fits(at) <==> !(s.start_time < at < s.end_time && s.total_amount * (at
            - s.start_time) > i128::MAX),
{
    if s.start_time < at < s.end_time {
        let total = s.total_amount as int;
        let passed = at - s.start_time;
        assert(0 <= total * passed) by (nonlinear_arith)
            requires
                0 <= total,
                0 < passed,
        ;
        lemma_quotient_is_floor(total * passed, s.end_time - s.start_time);
    }
}

/// The clock of a split stream that is over stopped at its last update.
pub proof fn finished_splits_stand_still(s: SplitStreamView, at: u64)
    requires
        s.status is Settled || s.status is Cancelled,
    ensures
        ({
            let running = SplitStreamView { status: crate::storage::StreamStatus::Active, ..s };
            let then = if at < s.last_update {
                at
            } else {
                s.last_update
            };
            &&& s.vested(at) == running.vested(then)
            &&& s.accrual_fits(at) == running.accrual_fits(then)
        }),
{
}

/// A share is the whole number of units that an allocation's weight is worth.
pub proof fn shares_are_proportional_to_weights(s: SplitStreamView, i: int, amount: int)
    requires
        0 <= amount,
        0 <= i < s.allocations.len(),
        s.total_weight > 0,
    ensures
        s.share(i, amount) * s.total_weight <= amount * s.allocations[i].weight < (s.share(
            i,
            amount,
        ) + 1) * s.total_weight,
{
    let w = s.allocations[i].weight as int;
    assert(0 <= amount * w) by (nonlinear_arith)
        requires
            0 <= amount,
            0 <= w,
    ;
    lemma_quotient_is_floor(amount * w, s.total_weight as int);
}

/// The sum of weights is what its name says.
pub proof fn weights_are_added_up(weights: Seq<u64>, n: int)
    requires
        0 <= n < weights.len(),
    ensures
        sum_weights(weights, 0) == 0,
        sum_weights(weights, n + 1) == sum_weights(weights, n) + weights[n],
{
}

/// The sum of what was released is what its name says.
pub proof fn released_amounts_are_added_up(allocations: Seq<RecipientAllocation>, n: int)
    requires
        0 <= n < allocations.len(),
    ensures
        sum_released(allocations, 0) == 0,
        sum_released(allocations, n + 1) == sum_released(allocations, n)
            + allocations[n].released_amount,
{
}

/// A recipient of a split stream is whoever has an allocation of it.
pub proof fn recipients_have_allocations(s: SplitStreamView, recipient: Address)
    ensures
        !s.has_recipient(recipient) <==> forall|i: int|
            0 <= i < s.allocations.len() ==> (#[trigger] s.allocations[i]).recipient != recipient,
{
}

/// What a recipient has open is summed over its allocations: each adds its share
/// less what it received, and the allocations of others add nothing.
pub proof fn open_amounts_are_added_up(
    s: SplitStreamView,
    recipient: Address,
    amount: int,
    n: int,
)
    requires
        0 <= n < s.allocations.len(),
    ensures
        s.open_sum(recipient, amount, 0) == 0,
        s.allocations[n].recipient == recipient ==> s.open_sum(recipient, amount, n + 1)
            == s.open_sum(recipient, amount, n) + s.share(n, amount)
            - s.allocations[n].released_amount,
        s.allocations[n].recipient != recipient ==> s.open_sum(recipient, amount, n + 1)
            == s.open_sum(recipient, amount, n),
{
}

/// What is open of all allocations is at most what is shared.
proof fn lemma_open_sum_bounded(s: SplitStreamView, recipient: Address, at: u64, n: int)
    requires
        s.in_order(),
        s.updated_by(at),
        0 <= n <= s.allocations.len(),
    ensures
        0 <= s.open_sum(recipient, s.vested(at), n) <= crate::shares::sum_shares(
            s,
            s.vested(at),
            n,
        ),
    decreases n,
{
    if n > 0 {
        lemma_open_sum_bounded(s, recipient, at, n - 1);
        allocations_stay_within_their_shares(s, n - 1, at);
        split_vested_is_bounded_and_grows(s, at, at);
        lemma_weight_is_positive(s);
        crate::shares::lemma_share_grows(s, n - 1, 0, s.vested(at));
        assert(s.allocations[n - 1].released_amount >= 0);
    }
}

/// Sums of shares do not fall.
proof fn lemma_shares_grow(s: SplitStreamView, amount: int, m: int, n: int)
    requires
        s.total_weight > 0,
        0 <= amount,
        0 <= m <= n <= s.allocations.len(),
    ensures
        crate::shares::sum_shares(s, amount, m) <= crate::shares::sum_shares(s, amount, n),
    decreases n - m,
{
    if m < n {
        lemma_shares_grow(s, amount, m, n - 1);
        crate::shares::lemma_share_grows(s, n - 1, 0, amount);
    }
}

/// What a recipient may withdraw is what all its allocations have open of the
/// vested amount. It is refused only where a product leaves `i128`: escrow times
/// seconds, or vested amount times a weight of the recipient.
pub proof fn split_withdrawable_adds_up_the_allocations(
    s: SplitStreamView,
    recipient: Address,
    at: u64,
)
    requires
        s.in_order(),
        s.updated_by(at),
    ensures
        s.open_result(recipient, at) is Ok <==> (s.accrual_fits(at) && forall|i: int|
            0 <= i < s.allocations.len() && (#[trigger] s.allocations[i]).recipient == recipient
                ==> s.vested(at) * s.allocations[i].weight <= i128::MAX),
        s.open_result(recipient, at) is Ok ==> s.open_result(recipient, at)->Ok_0 == s.open_sum(
            recipient,
            s.vested(at),
            s.allocations.len() as int,
        ),
        s.open_result(recipient, at) is Err ==> s.open_result(recipient, at) == Err::<i128, Error>(
            Error::Overflow,
        ),
{
    let v = s.vested(at);
    let n = s.allocations.len() as int;
    lemma_weight_is_positive(s);
    split_vested_is_bounded_and_grows(s, at, at);
    crate::shares::shares_stay_within_the_amount(s, v);
    assert forall|i: int| 0 <= i < n implies s.open_step_fits(recipient, v, i) == (
    s.allocations[i].recipient == recipient ==> v * (#[trigger] s.allocations[i]).weight
        <= i128::MAX) by {
        lemma_open_sum_bounded(s, recipient, at, i + 1);
        lemma_shares_grow(s, v, i + 1, n);
        allocations_stay_within_their_shares(s, i, at);
        let w = s.allocations[i].weight as int;
        assert(0 <= v * w) by (nonlinear_arith)
            requires
                0 <= v,
                0 <= w,
        ;
        crate::shares::lemma_share_grows(s, i, 0, v);
        lemma_one_share(s, v, i);
        assert(s.allocations[i].released_amount >= 0);
    }
    if s.open_sum_fits(recipient, v) {
        assert forall|i: int|
            0 <= i < n && (#[trigger] s.allocations[i]).recipient == recipient implies v
            * s.allocations[i].weight <= i128::MAX by {
            assert(s.open_step_fits(recipient, v, i));
        }
    } else {
        let i = choose|i: int| 0 <= i < n && !#[trigger] s.open_step_fits(recipient, v, i);
        assert(s.allocations[i].recipient == recipient);
    }
    lemma_open_sum_bounded(s, recipient, at, n);
}

/// One share is at most the amount.
proof fn lemma_one_share(s: SplitStreamView, amount: int, i: int)
    requires
        s.in_order(),
        0 <= amount,
        0 <= i < s.allocations.len(),
    ensures
        0 <= s.share(i, amount) <= amount,
{
    lemma_weight_is_positive(s);
    crate::shares::lemma_share_grows(s, i, 0, amount);
    crate::shares::shares_stay_within_the_amount(s, amount);
    let n = s.allocations.len() as int;
    lemma_shares_grow(s, amount, i + 1, n);
    lemma_shares_grow(s, amount, 0, i);
}

// ── Creation ────────────────────────────────────────────────────────────────

/// `create_split_stream` records an active split stream with the given terms under
/// the next id, one allocation for each recipient with its weight, and moves the
/// whole amount from the sender to the contract. Nothing else happens.
pub proof fn create_split_stream_opens_the_stream(
    e: EnvView,
    id: u64,
    sender: Address,
    token: Address,
    total_amount: i128,
    start_time: u64,
    end_time: u64,
    recipients: Seq<Address>,
    weights: Seq<u64>,
)
    requires
        e.stream_count == Some(id) || (e.stream_count is None && id == 1),
        id < u64::MAX,
        recipients.len() == weights.len(),
        sum_weights(weights, weights.len() as int) <= u64::MAX,
    ensures
        ({
            let after = e.create_split(
                sender,
                token,
                total_amount,
                start_time,
                end_time,
                recipients,
                weights,
            );
            let s = after.splits[id];
            &&& after == (EnvView {
                stream_count: Some((id + 1) as u64),
                splits: e.splits.insert(id, s),
                auths: e.auths.push(sender),
                calls: after.calls,
                ..e
            })
            &&& s.id == id && s.sender == sender && s.token == token
            &&& s.total_amount == total_amount
            &&& s.start_time == start_time && s.end_time == end_time && s.last_update == start_time
            &&& s.status is Active
            &&& s.total_weight == sum_weights(weights, weights.len() as int)
            &&& s.allocations.len() == recipients.len()
            &&& forall|i: int|
                0 <= i < recipients.len() ==> #[trigger] s.allocations[i] == (RecipientAllocation {
                    recipient: recipients[i],
                    weight: weights[i],
                    released_amount: 0,
                })
            &&& moved(after.calls) == moved(e.calls).push(
                HostCall::Transfer {
                    token,
                    from: sender,
                    to: e.contract_address,
                    amount: total_amount,
                },
            )
            &&& announced(after.calls) == announced(e.calls)
        }),
{
    broadcast use group_call_effects;

    crate::multi::lemma_sum_grows(weights, 0, weights.len() as int);
}

// ── Withdrawal ──────────────────────────────────────────────────────────────

/// `withdraw_split` pays the recipient exactly the amount, and records it on the
/// recipient's allocations alone, none of them beyond its share of what has
/// vested. The stream is settled once every allocation has its share of the
/// whole amount.
pub proof fn withdraw_split_pays_the_recipient(
    e: EnvView,
    stream_id: u64,
    recipient: Address,
    amount: i128,
)
    requires
        e.splits[stream_id].in_order(),
        e.splits[stream_id].updated_by(e.timestamp),
        e.withdraw_split_refusal(stream_id, recipient, amount) is None,
    ensures
        ({
            let s = e.splits[stream_id];
            let after = e.withdraw_split(stream_id, recipient, amount);
            let t = after.splits[stream_id];
            let n = s.allocations.len() as int;
            &&& after == (EnvView {
                splits: e.splits.insert(stream_id, t),
                auths: e.auths.push(recipient),
                calls: after.calls,
                ..e
            })
            &&& t == (SplitStreamView {
                allocations: t.allocations,
                last_update: e.timestamp,
                status: t.status,
                ..s
            })
            &&& t.allocations.len() == n
            &&& sum_released(t.allocations, n) == sum_released(s.allocations, n) + amount
            &&& forall|i: int|
                0 <= i < n ==> {
                    let a = s.allocations[i];
                    let b = #[trigger] t.allocations[i];
                    &&& b.recipient == a.recipient && b.weight == a.weight
                    &&& a.recipient != recipient ==> b.released_amount == a.released_amount
                    &&& a.released_amount <= b.released_amount <= s.share(i, s.vested(e.timestamp))
                }
            &&& moved(after.calls) == moved(e.calls).push(
                HostCall::Transfer {
                    token: s.token,
                    from: e.contract_address,
                    to: recipient,
                    amount,
                },
            )
            &&& announced(after.calls) == announced(e.calls)
        }),
{
    broadcast use group_call_effects;

    let s = e.splits[stream_id];
    let now = e.timestamp;
    let t = s.drawn(recipient, amount, now);
    let v = s.vested(now);
    crate::shares::draws_keep_splits_in_order(s, recipient, amount, now);
    assert forall|i: int| 0 <= i < s.allocations.len() implies {
        let a = s.allocations[i];
        let b = #[trigger] t.allocations[i];
        &&& b.recipient == a.recipient && b.weight == a.weight
        &&& a.recipient != recipient ==> b.released_amount == a.released_amount
        &&& a.released_amount <= b.released_amount <= s.share(i, v)
    } by {
        allocations_stay_within_their_shares(s, i, now);
        crate::shares::lemma_drawn_allocation(s, recipient, amount as int, v, i);
    }
}

/// What is left of a draw does not grow from one allocation to the next.
proof fn lemma_left_falls(
    s: SplitStreamView,
    recipient: Address,
    amount: int,
    vested: int,
    m: int,
    n: int,
)
    requires
        0 <= amount,
        0 <= m <= n <= s.allocations.len(),
    ensures
        0 <= s.left_to_draw(recipient, amount, vested, n) <= s.left_to_draw(
            recipient,
            amount,
            vested,
            m,
        ),
    decreases n - m,
{
    crate::shares::lemma_left_to_draw(s, recipient, amount, vested, n);
    if m < n {
        lemma_left_falls(s, recipient, amount, vested, m, n - 1);
    }
}

/// The allocations of one recipient are drawn on in their order: one gives
/// something only if those before it have given all their share of what has
/// vested.
pub proof fn allocations_are_drawn_in_order(
    s: SplitStreamView,
    recipient: Address,
    amount: i128,
    now: u64,
    i: int,
    j: int,
)
    requires
        s.in_order(),
        s.updated_by(now),
        amount > 0,
        s.draw_refusal(recipient, amount, now) is None,
        0 <= i < j < s.allocations.len(),
        s.allocations[i].recipient == recipient,
    ensures
        ({
            let t = s.drawn(recipient, amount, now);
            t.allocations[j].released_amount > s.allocations[j].released_amount
                ==> t.allocations[i].released_amount == s.share(i, s.vested(now))
        }),
{
    let v = s.vested(now);
    let a = amount as int;
    allocations_stay_within_their_shares(s, i, now);
    crate::shares::lemma_drawn_allocation(s, recipient, a, v, i);
    crate::shares::lemma_drawn_allocation(s, recipient, a, v, j);
    lemma_left_falls(s, recipient, a, v, i + 1, j);
    lemma_left_falls(s, recipient, a, v, j, j + 1);
    lemma_left_falls(s, recipient, a, v, 0, i);
}

/// After a draw a split stream is settled exactly if every allocation has all of
/// its share of the whole amount; else its status stays.
pub proof fn splits_settle_when_every_share_is_paid(
    s: SplitStreamView,
    recipient: Address,
    amount: i128,
    now: u64,
)
    requires
        s.in_order(),
    ensures
        ({
            let t = s.drawn(recipient, amount, now);
            let paid = forall|i: int|
                0 <= i < t.allocations.len() ==> {
                    let a = #[trigger] t.allocations[i];
                    &&& s.total_amount * a.weight <= i128::MAX
                    &&& a.released_amount * s.total_weight <= s.total_amount * a.weight < (
                    a.released_amount + 1) * s.total_weight
                };
            &&& paid ==> t.status is Settled
            &&& !paid ==> t.status == s.status
        }),
{
    let t = s.drawn(recipient, amount, now);
    lemma_weight_is_positive(s);
    assert forall|i: int| 0 <= i < t.allocations.len() implies (t.share_fits(
        i,
        s.total_amount as int,
    ) && t.share(i, s.total_amount as int) == (#[trigger] t.allocations[i]).released_amount) == {
        let a = t.allocations[i];
        &&& s.total_amount * a.weight <= i128::MAX
        &&& a.released_amount * s.total_weight <= s.total_amount * a.weight < (a.released_amount
            + 1) * s.total_weight
    } by {
        let a = t.allocations[i];
        let w = s.total_weight as int;
        let p = s.total_amount * a.weight;
        let total = s.total_amount as int;
        let x = a.weight as int;
        assert(0 <= total * x) by (nonlinear_arith)
            requires
                0 <= total,
                0 <= x,
        ;
        lemma_quotient_is_floor(p, w);
        let q = t.share(i, total);
        let r = a.released_amount as int;
        if r * w <= p < (r + 1) * w {
            assert(q == r) by (nonlinear_arith)
                requires
                    q * w <= p < (q + 1) * w,
                    r * w <= p < (r + 1) * w,
                    0 < w,
            ;
        }
    }
    let unsettled = SplitStreamView {
        allocations: t.allocations,
        last_update: now,
        ..s
    };
    assert forall|i: int| 0 <= i < t.allocations.len() implies unsettled.share(
        i,
        s.total_amount as int,
    ) == t.share(i, s.total_amount as int) && unsettled.share_fits(i, s.total_amount as int)
        == t.share_fits(i, s.total_amount as int) && #[trigger] unsettled.allocations[i]
        == t.allocations[i] by {}
    if unsettled.fully_paid() {
        assert(t.status is Settled);
        assert forall|i: int| 0 <= i < t.allocations.len() implies {
            let a = #[trigger] t.allocations[i];
            &&& s.total_amount * a.weight <= i128::MAX
            &&& a.released_amount * s.total_weight <= s.total_amount * a.weight < (
            a.released_amount + 1) * s.total_weight
        } by {
            assert(unsettled.allocations[i] == t.allocations[i]);
        }
    } else {
        let i = choose|i: int|
            0 <= i < unsettled.allocations.len() && !(unsettled.share_fits(
                i,
                s.total_amount as int,
            ) && unsettled.share(i, s.total_amount as int) == (
            #[trigger] unsettled.allocations[i]).released_amount);
        assert(unsettled.allocations[i] == t.allocations[i]);
    }
}

// ── Cancellation ────────────────────────────────────────────────────────────

/// What the payments to the first recipients are worth to an account other than
/// the contract: what its allocations among them had open.
proof fn lemma_payments_are_worth_the_open_amounts(
    e: EnvView,
    s: SplitStreamView,
    amount: int,
    account: Address,
    n: int,
)
    requires
        0 <= n <= s.allocations.len(),
        account != e.contract_address,
        s.all_open_fit(amount),
        forall|i: int|
            0 <= i < s.allocations.len() ==> (#[trigger] s.allocations[i]).released_amount
                <= s.share(i, amount),
    ensures
        flow(e.pay_shares(s, amount, n).calls, s.token, account) == flow(e.calls, s.token, account)
            + s.open_sum(account, amount, n),
        announced(e.pay_shares(s, amount, n).calls) == announced(e.calls),
    decreases n,
{
    broadcast use lemma_flow_push, group_call_effects;

    if n > 0 {
        lemma_payments_are_worth_the_open_amounts(e, s, amount, account, n - 1);
        lemma_payments_touch_no_row(e, s, amount, n - 1);
        assert(s.open_fits(n - 1, amount));
        assert(s.allocations[n - 1].released_amount <= s.share(n - 1, amount));
    }
}

/// Cancelling a split stream is worth to its sender exactly what has not vested,
/// and to every other account exactly what its allocations have open of what has
/// vested. The record is cancelled, with every allocation at its share; no other
/// row changes.
pub proof fn cancel_split_pays_recipients_and_sender(e: EnvView, stream_id: u64, account: Address)
    requires
        e.splits[stream_id].in_order(),
        e.splits[stream_id].updated_by(e.timestamp),
        e.splits.contains_key(stream_id),
        e.splits[stream_id].cancel_refusal(e.timestamp) is None,
        e.splits[stream_id].sender != e.contract_address,
    ensures
        ({
            let s = e.splits[stream_id];
            let after = e.cancel_split(stream_id);
            let t = after.splits[stream_id];
            let v = s.vested(e.timestamp);
            let n = s.allocations.len() as int;
            &&& after == (EnvView {
                splits: e.splits.insert(stream_id, t),
                auths: e.auths.push(s.sender),
                calls: after.calls,
                ..e
            })
            &&& t.status is Cancelled && t.last_update == e.timestamp
            &&& t == (SplitStreamView {
                allocations: t.allocations,
                status: t.status,
                last_update: t.last_update,
                ..s
            })
            &&& t == s.cancelled(e.timestamp)
            &&& t.allocations.len() == n
            &&& forall|i: int|
                0 <= i < n ==> #[trigger] t.allocations[i] == (RecipientAllocation {
                    released_amount: s.share(i, v) as i128,
                    ..s.allocations[i]
                }) && i128::MIN <= s.share(i, v) <= i128::MAX
            &&& flow(after.calls, s.token, s.sender) == flow(e.calls, s.token, s.sender)
                + s.total_amount - v
            &&& account != s.sender && account != e.contract_address ==> flow(
                after.calls,
                s.token,
                account,
            ) == flow(e.calls, s.token, account) + s.open_sum(account, v, n)
            &&& announced(after.calls) == announced(e.calls)
        }),
{
    broadcast use lemma_flow_push, group_call_effects;

    let s = e.splits[stream_id];
    let now = e.timestamp;
    let v = s.vested(now);
    let n = s.allocations.len() as int;
    let asked = e.read_split(stream_id).demand(s.sender);
    assert forall|i: int| 0 <= i < n implies (#[trigger] s.allocations[i]).released_amount
        <= s.share(i, v) by {
        allocations_stay_within_their_shares(s, i, now);
    }
    split_vested_is_bounded_and_grows(s, now, now);
    lemma_payments_touch_no_row(asked, s, v, n);
    lemma_payments_are_worth_the_open_amounts(asked, s, v, s.sender, n);
    lemma_sender_has_no_share(s, v, n);
    if account != e.contract_address {
        lemma_payments_are_worth_the_open_amounts(asked, s, v, account, n);
    }
    assert forall|i: int| 0 <= i < n implies #[trigger] s.cancelled(now).allocations[i] == (
    RecipientAllocation { released_amount: s.share(i, v) as i128, ..s.allocations[i] })
        && i128::MIN <= s.share(i, v) <= i128::MAX by {
        lemma_one_share(s, v, i);
        assert(s.allocations[i].released_amount <= s.share(i, v));
    }
}

/// The sender of a split stream has nothing open.
proof fn lemma_sender_has_no_share(s: SplitStreamView, amount: int, n: int)
    requires
        s.in_order(),
        0 <= n <= s.allocations.len(),
    ensures
        s.open_sum(s.sender, amount, n) == 0,
    decreases n,
{
    if n > 0 {
        lemma_sender_has_no_share(s, amount, n - 1);
        assert(s.allocations[n - 1].recipient != s.sender);
    }
}

/// A split stream that is not over is cancelled at any time, unless escrow times
/// seconds or vested amount times a weight leaves `i128`.
pub proof fn split_cancelling_is_refused_only_for_these_reasons(s: SplitStreamView, now: u64)
    requires
        s.in_order(),
        s.updated_by(now),
    ensures
        ({
            let r = s.cancel_refusal(now);
            let over = s.status is Settled || s.status is Cancelled;
            let fine = s.accrual_fits(now) && forall|i: int|
                0 <= i < s.allocations.len() ==> s.vested(now) * (
                #[trigger] s.allocations[i]).weight <= i128::MAX;
            &&& r is None <==> !over && fine
            &&& r == Some(Error::InvalidState) <==> over
            &&& r == Some(Error::Overflow) <==> !over && !fine
        }),
{
    let v = s.vested(now);
    split_vested_is_bounded_and_grows(s, now, now);
    lemma_weight_is_positive(s);
    assert forall|i: int| 0 <= i < s.allocations.len() implies s.open_fits(i, v) == (v * (
    #[trigger] s.allocations[i]).weight <= i128::MAX) by {
        let w = s.allocations[i].weight as int;
        assert(0 <= v * w) by (nonlinear_arith)
            requires
                0 <= v,
                0 <= w,
        ;
        lemma_one_share(s, v, i);
        assert(s.allocations[i].released_amount >= 0);
    }
    if s.all_open_fit(v) {
        assert forall|i: int| 0 <= i < s.allocations.len() implies v * (
        #[trigger] s.allocations[i]).weight <= i128::MAX by {
            assert(s.open_fits(i, v));
        }
    } else {
        let i = choose|i: int| 0 <= i < s.allocations.len() && !#[trigger] s.open_fits(i, v);
        assert(!(v * s.allocations[i].weight <= i128::MAX));
    }
}

} // verus!
