//! What holds of split streams: shares stay within what is shared, records stay
//! in order, and cancelling pays every share.
use vstd::prelude::*;

use crate::env::EnvView;
use crate::error::Error;
use crate::host::Address;
use crate::multi::{
    lemma_sum_grows, new_allocations, new_split, sum_weights, RecipientAllocation, SplitStreamView,
};
use crate::release::{lemma_quotient_bounds, lemma_scaled};

verus! {

/// The sum of the first `n` weights of `allocations`.
pub open spec fn sum_allocated(allocations: Seq<RecipientAllocation>, n: int) -> int
    decreases n,
{
    if n <= 0 {
        0
    } else {
        sum_allocated(allocations, n - 1) + allocations[n - 1].weight
    }
}

/// What the first `n` recipients have received.
pub open spec fn sum_released(allocations: Seq<RecipientAllocation>, n: int) -> int
    decreases n,
{
    if n <= 0 {
        0
    } else {
        sum_released(allocations, n - 1) + allocations[n - 1].released_amount
    }
}

/// The shares of the first `n` recipients in `amount`.
pub open spec fn sum_shares(s: SplitStreamView, amount: int, n: int) -> int
    decreases n,
{
    if n <= 0 {
        0
    } else {
        sum_shares(s, amount, n - 1) + s.share(n - 1, amount)
    }
}

impl SplitStreamView {
    /// Whether the record is in order: a positive escrow, a time window, at
    /// least two recipients other than the sender whose weights add up, and no
    /// recipient ahead of its share at the last update.
    pub open spec fn in_order(self) -> bool {
        &&& self.total_amount > 0
        &&& self.start_time < self.end_time
        &&& self.status is Active || self.status.terminal()
        &&& self.allocations.len() >= 2
        &&& self.total_weight == sum_allocated(self.allocations, self.allocations.len() as int)
        &&& forall|i: int|
            0 <= i < self.allocations.len() ==> {
                let a = #[trigger] self.allocations[i];
                &&& a.weight > 0
                &&& a.recipient != self.sender
                &&& 0 <= a.released_amount <= self.share(i, self.vested(self.last_update))
            }
    }

    /// Whether the last update does not lie ahead of ledger time `now`; before
    /// the first withdrawal it is the start.
    pub open spec fn updated_by(self, now: u64) -> bool {
        self.last_update <= now || self.last_update <= self.start_time
    }
}

/// Sums of weights are at least as large as each of their parts.
proof fn lemma_allocated_grows(allocations: Seq<RecipientAllocation>, n: int)
    ensures
        n >= 1 ==> sum_allocated(allocations, n) >= allocations[n - 1].weight,
        sum_allocated(allocations, n) >= 0,
    decreases n,
{
    if n > 0 {
        lemma_allocated_grows(allocations, n - 1);
    }
}

/// A record in order has a positive total weight.
pub(crate) proof fn lemma_weight_is_positive(s: SplitStreamView)
    requires
        s.in_order(),
    ensures
        s.total_weight > 0,
{
    let n = s.allocations.len() as int;
    lemma_allocated_grows(s.allocations, n);
    assert(s.allocations[n - 1].weight > 0);
}

/// A larger amount gives no smaller shares.
pub(crate) proof fn lemma_share_grows(s: SplitStreamView, i: int, a: int, b: int)
    requires
        s.total_weight > 0,
        0 <= a <= b,
    ensures
        0 <= s.share(i, a) <= s.share(i, b),
{
    let w = s.allocations[i].weight as int;
    let t = s.total_weight as int;
    assert(0 <= a * w <= b * w) by (nonlinear_arith)
        requires
            0 <= a <= b,
            0 <= w,
    ;
    vstd::arithmetic::div_mod::lemma_div_is_ordered(a * w, b * w, t);
    vstd::arithmetic::div_mod::lemma_div_pos_is_pos(a * w, t);
}

/// The vested amount lies between nothing and the escrow, and never shrinks as
/// time passes.
pub proof fn split_vested_is_bounded_and_grows(s: SplitStreamView, earlier: u64, later: u64)
    requires
        0 <= s.total_amount,
        earlier <= later,
    ensures
        0 <= s.vested(earlier) <= s.vested(later) <= s.total_amount,
{
    let t1 = s.accrual_time(earlier);
    let t2 = s.accrual_time(later);
    let total = s.total_amount as int;
    let w = s.end_time - s.start_time;
    if s.start_time < t1 < s.end_time {
        lemma_scaled(total, t1 - s.start_time, t1 - s.start_time, w);
    }
    if s.start_time < t2 < s.end_time {
        lemma_scaled(total, 0, t2 - s.start_time, w);
        if s.start_time < t1 {
            lemma_scaled(total, t1 - s.start_time, t2 - s.start_time, w);
        }
    }
}

/// Scaled down by the weights, the shares of the first recipients stay within
/// what their weights are worth.
proof fn lemma_shares_bounded(s: SplitStreamView, amount: int, n: int)
    requires
        s.total_weight > 0,
        0 <= amount,
        0 <= n <= s.allocations.len(),
    ensures
        s.total_weight * sum_shares(s, amount, n) <= amount * sum_allocated(s.allocations, n),
    decreases n,
{
    let t = s.total_weight as int;
    if n > 0 {
        lemma_shares_bounded(s, amount, n - 1);
        let w = s.allocations[n - 1].weight as int;
        let before = sum_shares(s, amount, n - 1);
        let share = s.share(n - 1, amount);
        let weights = sum_allocated(s.allocations, n - 1);
        assert(0 <= amount * w) by (nonlinear_arith)
            requires
                0 <= amount,
                0 <= w,
        ;
        vstd::arithmetic::div_mod::lemma_fundamental_div_mod(amount * w, t);
        vstd::arithmetic::div_mod::lemma_mod_bound(amount * w, t);
        assert(t * (before + share) == t * before + t * share) by (nonlinear_arith);
        assert(amount * (weights + w) == amount * weights + amount * w) by (nonlinear_arith);
    } else {
        assert(t * 0 == 0 && amount * 0 == 0) by (nonlinear_arith);
    }
}

/// All shares together never exceed the amount that is shared.
pub proof fn shares_stay_within_the_amount(s: SplitStreamView, amount: int)
    requires
        s.in_order(),
        0 <= amount,
    ensures
        sum_shares(s, amount, s.allocations.len() as int) <= amount,
{
    let n = s.allocations.len() as int;
    lemma_weight_is_positive(s);
    lemma_shares_bounded(s, amount, n);
    let t = s.total_weight as int;
    let shares = sum_shares(s, amount, n);
    assert(shares <= amount) by (nonlinear_arith)
        requires
            t > 0,
            t * shares <= amount * t,
    ;
}

/// No allocation is ahead of its share.
pub proof fn allocations_stay_within_their_shares(s: SplitStreamView, i: int, at: u64)
    requires
        s.in_order(),
        s.updated_by(at),
        0 <= i < s.allocations.len(),
    ensures
        s.share(i, s.vested(at)) >= s.allocations[i].released_amount,
{
    lemma_weight_is_positive(s);
    assert(s.allocations[i].released_amount <= s.share(i, s.vested(s.last_update)));
    if s.last_update <= at {
        split_vested_is_bounded_and_grows(s, s.last_update, at);
        lemma_share_grows(s, i, s.vested(s.last_update), s.vested(at));
    } else {
        split_vested_is_bounded_and_grows(s, at, at);
        lemma_share_grows(s, i, 0, s.vested(at));
    }
}

/// Sums of what is open are not negative, and fit if the last one does.
proof fn lemma_open_sum_grows(s: SplitStreamView, recipient: Address, at: u64, m: int, n: int)
    requires
        s.in_order(),
        s.updated_by(at),
        0 <= m <= n <= s.allocations.len(),
    ensures
        0 <= s.open_sum(recipient, s.vested(at), m) <= s.open_sum(recipient, s.vested(at), n),
    decreases n,
{
    if n > 0 {
        allocations_stay_within_their_shares(s, n - 1, at);
        if m < n {
            lemma_open_sum_grows(s, recipient, at, m, n - 1);
        } else {
            lemma_open_sum_grows(s, recipient, at, n - 1, n - 1);
        }
    }
}

/// What a recipient may withdraw is never negative.
pub proof fn split_withdrawable_is_never_negative(s: SplitStreamView, recipient: Address, at: u64)
    requires
        s.in_order(),
        s.updated_by(at),
    ensures
        s.open_sum(recipient, s.vested(at), s.allocations.len() as int) >= 0,
        s.open_result(recipient, at) is Ok ==> s.open_result(recipient, at)->Ok_0 >= 0,
{
    let n = s.allocations.len() as int;
    lemma_open_sum_grows(s, recipient, at, 0, n);
    if s.open_sum_fits(recipient, s.vested(at)) {
        lemma_open_sum_in_range(s, recipient, s.vested(at), n);
    }
}

/// What can be computed of a sum is in range.
proof fn lemma_open_sum_in_range(s: SplitStreamView, recipient: Address, amount: int, n: int)
    requires
        s.open_sum_fits(recipient, amount),
        0 <= n <= s.allocations.len(),
    ensures
        i128::MIN <= s.open_sum(recipient, amount, n) <= i128::MAX,
    decreases n,
{
    if n > 0 {
        lemma_open_sum_in_range(s, recipient, amount, n - 1);
        assert(s.open_step_fits(recipient, amount, n - 1));
    }
}

/// A split stream that was just created is in order.
pub proof fn new_split_is_in_order(
    e: EnvView,
    sender: Address,
    token: Address,
    total_amount: i128,
    start_time: u64,
    end_time: u64,
    recipients: Seq<Address>,
    weights: Seq<u64>,
)
    requires
        e.create_split_refusal(
            sender,
            token,
            total_amount,
            start_time,
            end_time,
            recipients,
            weights,
        ) is None,
    ensures
        new_split(
            e.next_id(),
            sender,
            token,
            total_amount,
            start_time,
            end_time,
            recipients,
            weights,
        ).in_order(),
{
    let s = new_split(
        e.next_id(),
        sender,
        token,
        total_amount,
        start_time,
        end_time,
        recipients,
        weights,
    );
    let n = weights.len() as int;
    lemma_sum_of_new(recipients, weights, n);
    lemma_sum_grows(weights, 0, n);
    assert(weights.contains(weights[n - 1]));
    lemma_sum_grows(weights, 0, n - 1);
    assert forall|i: int| 0 <= i < s.allocations.len() implies {
        let a = #[trigger] s.allocations[i];
        &&& a.weight > 0
        &&& a.recipient != s.sender
        &&& 0 <= a.released_amount <= s.share(i, s.vested(s.last_update))
    } by {
        assert(weights.contains(weights[i]));
        assert(recipients.contains(recipients[i]));
        lemma_share_grows(s, i, 0, 0);
    }
}

/// The weights of new allocations are the given ones.
proof fn lemma_sum_of_new(recipients: Seq<Address>, weights: Seq<u64>, n: int)
    requires
        0 <= n <= weights.len(),
        recipients.len() == weights.len(),
    ensures
        sum_allocated(new_allocations(recipients, weights), n) == sum_weights(weights, n),
    decreases n,
{
    if n > 0 {
        lemma_sum_of_new(recipients, weights, n - 1);
    }
}

/// What is left of a draw after some allocations: it only falls, and reaches
/// nothing once the open amounts cover it.
pub(crate) proof fn lemma_left_to_draw(
    s: SplitStreamView,
    recipient: Address,
    amount: int,
    vested: int,
    n: int,
)
    requires
        0 <= amount,
        0 <= n <= s.allocations.len(),
    ensures
        0 <= s.left_to_draw(recipient, amount, vested, n) <= amount,
        s.left_to_draw(recipient, amount, vested, n) == 0 || s.left_to_draw(
            recipient,
            amount,
            vested,
            n,
        ) <= amount - s.open_sum(recipient, vested, n),
    decreases n,
{
    if n > 0 {
        lemma_left_to_draw(s, recipient, amount, vested, n - 1);
    }
}

/// Sums over allocations after a draw.
proof fn lemma_sums_after_draw(
    s: SplitStreamView,
    recipient: Address,
    amount: int,
    vested: int,
    n: int,
)
    requires
        0 <= amount,
        0 <= n <= s.allocations.len(),
        s.open_sum_fits(recipient, vested),
    ensures
        sum_allocated(s.drawn_from(recipient, amount, vested), n) == sum_allocated(s.allocations, n),
        sum_released(s.drawn_from(recipient, amount, vested), n) == sum_released(s.allocations, n)
            + amount - s.left_to_draw(recipient, amount, vested, n),
    decreases n,
{
    if n > 0 {
        lemma_sums_after_draw(s, recipient, amount, vested, n - 1);
        lemma_drawn_allocation(s, recipient, amount, vested, n - 1);
    }
}

/// One allocation after a draw: it gave no more than it had open.
pub(crate) proof fn lemma_drawn_allocation(
    s: SplitStreamView,
    recipient: Address,
    amount: int,
    vested: int,
    i: int,
)
    requires
        0 <= amount,
        0 <= i < s.allocations.len(),
        s.open_sum_fits(recipient, vested),
    ensures
        ({
            let before = s.allocations[i];
            let after = s.drawn_from(recipient, amount, vested)[i];
            &&& after == (RecipientAllocation { released_amount: after.released_amount, ..before })
            &&& after.released_amount == before.released_amount + s.left_to_draw(
                recipient,
                amount,
                vested,
                i,
            ) - s.left_to_draw(recipient, amount, vested, i + 1)
            &&& before.released_amount <= after.released_amount
            &&& before.recipient != recipient ==> after == before
            &&& before.released_amount <= s.share(i, vested) ==> after.released_amount <= s.share(
                i,
                vested,
            )
        }),
{
    assert(s.open_step_fits(recipient, vested, i));
    lemma_left_to_draw(s, recipient, amount, vested, i);
    if s.allocations[i].recipient == recipient {
        lemma_quotient_bounds(vested * s.allocations[i].weight, s.total_weight as int);
    }
}

/// A draw keeps the record in order, raises what was released by exactly the
/// amount drawn, and touches no other recipient's allocation.
pub proof fn draws_keep_splits_in_order(
    s: SplitStreamView,
    recipient: Address,
    amount: i128,
    now: u64,
)
    requires
        s.in_order(),
        s.updated_by(now),
        amount > 0,
        s.draw_refusal(recipient, amount, now) is None,
    ensures
        s.drawn(recipient, amount, now).in_order(),
        sum_released(
            s.drawn(recipient, amount, now).allocations,
            s.allocations.len() as int,
        ) == sum_released(s.allocations, s.allocations.len() as int) + amount,
        forall|i: int|
            0 <= i < s.allocations.len() && s.allocations[i].recipient != recipient
                ==> #[trigger] s.drawn(recipient, amount, now).allocations[i] == s.allocations[i],
{
    let after = s.drawn(recipient, amount, now);
    let v = s.vested(now);
    let n = s.allocations.len() as int;
    lemma_weight_is_positive(s);
    lemma_open_sum_in_range(s, recipient, v, n);
    lemma_left_to_draw(s, recipient, amount as int, v, n);
    lemma_sums_after_draw(s, recipient, amount as int, v, n);
    assert(after.vested(now) == v);
    assert forall|i: int| 0 <= i < n implies {
        let b = #[trigger] after.allocations[i];
        &&& b.weight > 0
        &&& b.recipient != after.sender
        &&& 0 <= b.released_amount <= after.share(i, after.vested(after.last_update))
        &&& s.allocations[i].recipient != recipient ==> b == s.allocations[i]
    } by {
        assert(s.allocations[i].weight > 0);
        allocations_stay_within_their_shares(s, i, now);
        lemma_drawn_allocation(s, recipient, amount as int, v, i);
        assert(after.share(i, v) == s.share(i, v));
    }
}

/// What a recipient has open after a draw, in the first allocations.
proof fn lemma_open_after_draw(
    s: SplitStreamView,
    after: SplitStreamView,
    recipient: Address,
    amount: int,
    vested: int,
    n: int,
)
    requires
        0 <= amount,
        0 <= n <= s.allocations.len(),
        s.open_sum_fits(recipient, vested),
        after.allocations == s.drawn_from(recipient, amount, vested),
        after.total_weight == s.total_weight,
    ensures
        after.open_sum(recipient, vested, n) == s.open_sum(recipient, vested, n) - amount
            + s.left_to_draw(recipient, amount, vested, n),
    decreases n,
{
    if n > 0 {
        lemma_open_after_draw(s, after, recipient, amount, vested, n - 1);
        lemma_drawn_allocation(s, recipient, amount, vested, n - 1);
    }
}

/// What a recipient has open of a split stream falls by exactly what it draws,
/// so nothing can be drawn twice.
pub proof fn split_draws_use_up_the_open_amount(
    s: SplitStreamView,
    recipient: Address,
    amount: i128,
    now: u64,
)
    requires
        amount > 0,
        s.draw_refusal(recipient, amount, now) is None,
    ensures
        ({
            let n = s.allocations.len() as int;
            let v = s.vested(now);
            s.drawn(recipient, amount, now).open_sum(recipient, v, n) == s.open_sum(
                recipient,
                v,
                n,
            ) - amount
        }),
        s.drawn(recipient, amount, now).vested(now) == s.vested(now),
{
    let n = s.allocations.len() as int;
    let v = s.vested(now);
    lemma_open_sum_in_range(s, recipient, v, n);
    lemma_left_to_draw(s, recipient, amount as int, v, n);
    lemma_open_after_draw(s, s.drawn(recipient, amount, now), recipient, amount as int, v, n);
}

/// What was released of paid-up allocations is the sum of the shares.
proof fn lemma_sums_after_payment(s: SplitStreamView, amount: int, n: int)
    requires
        0 <= n <= s.allocations.len(),
        s.all_open_fit(amount),
        forall|i: int|
            0 <= i < s.allocations.len() ==> (#[trigger] s.allocations[i]).released_amount
                <= s.share(i, amount),
    ensures
        sum_allocated(s.paid_up(amount), n) == sum_allocated(s.allocations, n),
        sum_released(s.paid_up(amount), n) == sum_shares(s, amount, n),
    decreases n,
{
    if n > 0 {
        lemma_sums_after_payment(s, amount, n - 1);
        assert(s.open_fits(n - 1, amount));
        assert(s.allocations[n - 1].released_amount <= s.share(n - 1, amount));
        lemma_quotient_bounds(amount * s.allocations[n - 1].weight, s.total_weight as int);
    }
}

/// Cancelling keeps the record in order, gives every allocation its share of
/// what has vested, and leaves nothing to withdraw.
pub proof fn cancellation_pays_every_share(
    s: SplitStreamView,
    now: u64,
    recipient: Address,
    at: u64,
)
    requires
        s.in_order(),
        s.updated_by(now),
        s.cancel_refusal(now) is None,
        now <= at,
    ensures
        s.cancelled(now).in_order(),
        forall|i: int|
            0 <= i < s.allocations.len() ==> (
            #[trigger] s.cancelled(now).allocations[i]).released_amount == s.share(
                i,
                s.vested(now),
            ),
        sum_released(s.cancelled(now).allocations, s.allocations.len() as int) == sum_shares(
            s,
            s.vested(now),
            s.allocations.len() as int,
        ),
        s.cancelled(now).open_result(recipient, at) == Ok::<i128, Error>(0),
{
    let after = s.cancelled(now);
    let v = s.vested(now);
    assert forall|j: int| 0 <= j < s.allocations.len() implies (
    #[trigger] s.allocations[j]).released_amount <= s.share(j, v) by {
        allocations_stay_within_their_shares(s, j, now);
    }
    lemma_sums_after_payment(s, v, s.allocations.len() as int);
    assert(after.vested(now) == v);
    assert(after.vested(at) == v);
    assert forall|j: int| 0 <= j < after.allocations.len() implies {
        let b = #[trigger] after.allocations[j];
        &&& b.weight > 0
        &&& b.recipient != after.sender
        &&& 0 <= b.released_amount <= after.share(j, after.vested(after.last_update))
        &&& b.released_amount == s.share(j, v)
    } by {
        assert(s.allocations[j].weight > 0);
        assert(s.open_fits(j, v));
        lemma_quotient_bounds(v * s.allocations[j].weight, s.total_weight as int);
        assert(after.share(j, v) == s.share(j, v));
    }
    assert forall|i: int| 0 <= i < s.allocations.len() implies after.share(i, v)
        == #[trigger] after.allocations[i].released_amount && after.open_fits(i, v) by {
        assert(s.open_fits(i, v));
        assert(after.share(i, v) == s.share(i, v));
    }
    lemma_nothing_open(after, recipient, v, s.allocations.len() as int);
    assert forall|i: int| 0 <= i < after.allocations.len() implies
        #[trigger] after.open_step_fits(recipient, v, i) by {
        lemma_nothing_open(after, recipient, v, i + 1);
        assert(after.allocations[i].released_amount == after.share(i, v));
    }
}

/// Nothing is open where every allocation has its share.
proof fn lemma_nothing_open(s: SplitStreamView, recipient: Address, amount: int, n: int)
    requires
        0 <= n <= s.allocations.len(),
        forall|i: int|
            0 <= i < s.allocations.len() ==> s.share(i, amount) == (
            #[trigger] s.allocations[i]).released_amount,
    ensures
        s.open_sum(recipient, amount, n) == 0,
    decreases n,
{
    if n > 0 {
        lemma_nothing_open(s, recipient, amount, n - 1);
        assert(s.allocations[n - 1].released_amount == s.share(n - 1, amount));
    }
}

} // verus!
