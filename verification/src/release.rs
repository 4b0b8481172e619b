//! Linear accrual: how much of a stream has vested at a given time.
use vstd::prelude::*;

use crate::error::Error;
use crate::storage::{Stream, StreamStatus};

verus! {

/// `a / b` rounded towards zero, for a positive `b`.
pub open spec fn quotient(a: int, b: int) -> int {
    if a >= 0 {
        a / b
    } else {
        -((-a) / b)
    }
}

/// The time at which accrual is evaluated: a running pause stops the clock.
pub open spec fn accrual_time(s: Stream, at: u64) -> u64 {
    if s.status is Paused && at > s.paused_at {
        s.paused_at
    } else {
        at
    }
}

/// Seconds of accrual behind time `t`: the time since the start, less the pauses.
pub open spec fn elapsed(s: Stream, t: u64) -> int {
    t - s.start_time - s.total_paused_duration
}

/// Seconds of accrual in the whole window.
pub open spec fn window(s: Stream) -> int {
    s.end_time - s.start_time - s.total_paused_duration
}

/// Whether time `t` lies strictly inside the accrual window.
pub open spec fn inside_window(s: Stream, t: u64) -> bool {
    t < s.end_time && elapsed(s, t) > 0
}

/// The share of `total_amount` that the schedule alone has released at time `t`:
/// nothing up to the start, everything from `end_time` on, and linear between.
pub open spec fn scheduled(s: Stream, t: u64) -> int {
    if t >= s.end_time {
        s.total_amount as int
    } else if elapsed(s, t) <= 0 {
        0
    } else {
        quotient(s.total_amount * elapsed(s, t), window(s))
    }
}

/// The vested amount at ledger time `at`. A draft has none, a stream that is
/// over has what it paid out, and what was released stays vested whatever the
/// schedule becomes.
pub open spec fn vested(s: Stream, at: u64) -> int {
    let due = scheduled(s, accrual_time(s, at));
    if s.status is Draft {
        0
    } else if s.status.terminal() || due < s.released_amount {
        s.released_amount as int
    } else {
        due
    }
}

/// Whether the product in [`scheduled`] stays within `i128`.
pub open spec fn accrual_fits(s: Stream, at: u64) -> bool {
    let t = accrual_time(s, at);
    (!(s.status is Draft) && !s.status.terminal() && inside_window(s, t)) ==> i128::MIN
        <= s.total_amount * elapsed(s, t) <= i128::MAX
}

/// What [`vested_amount`] returns.
pub open spec fn vested_result(s: Stream, at: u64) -> Result<i128, Error> {
    if accrual_fits(s, at) {
        Ok(vested(s, at) as i128)
    } else {
        Err(Error::Overflow)
    }
}

/// What [`withdrawable`] returns.
pub open spec fn withdrawable_result(s: Stream, at: u64) -> Result<i128, Error> {
    if accrual_fits(s, at) && vested(s, at) - s.released_amount <= i128::MAX {
        Ok((vested(s, at) - s.released_amount) as i128)
    } else {
        Err(Error::Overflow)
    }
}

/// A quotient by a positive number is no larger in magnitude than what is divided.
pub(crate) proof fn lemma_quotient_bounds(a: int, b: int)
    requires
        b > 0,
    ensures
        a >= 0 ==> 0 <= quotient(a, b) <= a,
        a < 0 ==> a <= quotient(a, b) <= 0,
{
    if a >= 0 {
        assert(0 <= a / b <= a) by (nonlinear_arith)
            requires
                a >= 0,
                b > 0,
        ;
    } else {
        let m = -a;
        assert(0 <= m / b <= m) by (nonlinear_arith)
            requires
                m >= 0,
                b > 0,
        ;
    }
}

/// When the product fits, so does the vested amount.
pub proof fn lemma_vested_fits(s: Stream, at: u64)
    requires
        accrual_fits(s, at),
    ensures
        i128::MIN <= vested(s, at) <= i128::MAX,
{
    let t = accrual_time(s, at);
    if inside_window(s, t) {
        lemma_quotient_bounds(s.total_amount * elapsed(s, t), window(s));
    }
}

// ── Laws of accrual ─────────────────────────────────────────────────────────

/// Whether the amounts of a stream are in order: nothing negative, and no more
/// released than was escrowed.
pub open spec fn amounts_in_order(s: Stream) -> bool {
    0 <= s.released_amount <= s.total_amount
}

/// A quotient grows with what is divided, and stays below the factor that is
/// scaled down.
pub(crate) proof fn lemma_scaled(total: int, a: int, b: int, c: int)
    requires
        0 <= total,
        0 <= a <= b <= c,
        0 < c,
    ensures
        0 <= quotient(total * a, c) <= quotient(total * b, c) <= total,
{
    assert(0 <= total * a <= total * b <= total * c) by (nonlinear_arith)
        requires
            0 <= total,
            0 <= a <= b <= c,
    ;
    vstd::arithmetic::div_mod::lemma_div_is_ordered(0, total * a, c);
    vstd::arithmetic::div_mod::lemma_div_is_ordered(total * a, total * b, c);
    vstd::arithmetic::div_mod::lemma_div_is_ordered(total * b, total * c, c);
    vstd::arithmetic::div_mod::lemma_div_multiples_vanish(total, c);
    assert(total * c == c * total) by (nonlinear_arith);
    assert(0int / c == 0) by (nonlinear_arith)
        requires
            0 < c,
    ;
}

/// The schedule stays within the escrow and never runs backwards.
proof fn lemma_schedule_grows(s: Stream, t1: u64, t2: u64)
    requires
        0 <= s.total_amount,
        t1 <= t2,
    ensures
        0 <= scheduled(s, t1) <= scheduled(s, t2) <= s.total_amount,
{
    if inside_window(s, t1) {
        lemma_scaled(s.total_amount as int, elapsed(s, t1), elapsed(s, t1), window(s));
    }
    if inside_window(s, t2) {
        lemma_scaled(s.total_amount as int, 0, elapsed(s, t2), window(s));
        if inside_window(s, t1) {
            lemma_scaled(s.total_amount as int, elapsed(s, t1), elapsed(s, t2), window(s));
        }
    }
}

/// The vested amount lies between what was released and what was escrowed,
/// except that a draft has vested nothing. So what can be withdrawn is never
/// negative.
pub proof fn vested_is_bounded(s: Stream, at: u64)
    requires
        amounts_in_order(s),
    ensures
        0 <= vested(s, at) <= s.total_amount,
        !(s.status is Draft) ==> s.released_amount <= vested(s, at),
        s.released_amount == 0 ==> s.released_amount <= vested(s, at),
{
    let t = accrual_time(s, at);
    lemma_schedule_grows(s, t, t);
}

/// The vested amount never shrinks as time passes.
pub proof fn vested_never_shrinks(s: Stream, earlier: u64, later: u64)
    requires
        0 <= s.total_amount,
        earlier <= later,
    ensures
        vested(s, earlier) <= vested(s, later),
{
    lemma_schedule_grows(s, accrual_time(s, earlier), accrual_time(s, later));
}

/// From its end on, an active stream has vested its whole escrow.
pub proof fn everything_vests_by_the_end(s: Stream, at: u64)
    requires
        amounts_in_order(s),
        s.status is Active,
        s.end_time <= at,
    ensures
        vested(s, at) == s.total_amount,
{
}

/// Up to its start, an active stream has vested nothing but what was released.
pub proof fn nothing_vests_before_the_start(s: Stream, at: u64)
    requires
        amounts_in_order(s),
        s.status is Active,
        at <= s.start_time,
        at < s.end_time,
    ensures
        vested(s, at) == s.released_amount,
{
}

/// A draft accrues nothing, however long it waits.
pub proof fn drafts_do_not_accrue(s: Stream, at: u64)
    requires
        s.status is Draft,
    ensures
        vested(s, at) == 0,
{
}

/// Of a stream that is over, nothing is left to withdraw.
pub proof fn nothing_is_open_after_the_end(s: Stream, at: u64)
    requires
        s.status.terminal(),
    ensures
        withdrawable_result(s, at) == Ok::<i128, Error>(0),
{
}

/// An earlier end takes nothing away of what has vested, at any time.
pub proof fn earlier_end_vests_no_less(s: Stream, end_time: u64, at: u64)
    requires
        0 <= s.total_amount,
        end_time <= s.end_time,
    ensures
        vested((Stream { end_time, ..s }), at) >= vested(s, at),
{
    let moved = Stream { end_time, ..s };
    let t = accrual_time(s, at);
    lemma_schedule_grows(s, t, t);
    if inside_window(moved, t) {
        let product = s.total_amount * elapsed(s, t);
        let total = s.total_amount as int;
        let passed = elapsed(s, t);
        assert(0 <= total * passed) by (nonlinear_arith)
            requires
                0 <= total,
                0 < passed,
        ;
        vstd::arithmetic::div_mod::lemma_div_is_ordered_by_denominator(
            product,
            window(moved),
            window(s),
        );
    }
}

/// An escrow that fits `i128` when multiplied by the length of the window never
/// makes the accrual overflow.
pub proof fn accrual_of_moderate_streams_fits(s: Stream, at: u64)
    requires
        amounts_in_order(s),
        s.total_amount * window(s) <= i128::MAX,
    ensures
        accrual_fits(s, at),
        vested_result(s, at) is Ok,
{
    let t = accrual_time(s, at);
    if inside_window(s, t) {
        let total = s.total_amount as int;
        let a = elapsed(s, t);
        let w = window(s);
        assert(0 <= total * a <= total * w) by (nonlinear_arith)
            requires
                0 <= total,
                0 <= a <= w,
        ;
    }
}

/// A quotient is the whole number of times that `b` goes into `a`.
pub(crate) proof fn lemma_quotient_is_floor(a: int, b: int)
    requires
        0 <= a,
        0 < b,
    ensures
        quotient(a, b) * b <= a < (quotient(a, b) + 1) * b,
{
    vstd::arithmetic::div_mod::lemma_fundamental_div_mod(a, b);
    vstd::arithmetic::div_mod::lemma_mod_bound(a, b);
    let q = a / b;
    assert(q * b == b * q && (q + 1) * b == b * q + b) by (nonlinear_arith);
}

/// Accrual is linear in time, second by second. Of an active stream that is
/// strictly inside its window, exactly the whole units have vested that
/// `total_amount` yields for the seconds since the start, not counting pauses.
/// Only what was released before can make it more.
pub proof fn accrual_is_linear_per_second(s: Stream, at: u64, v: i128)
    requires
        s.status is Active || s.status is Ended,
        0 <= s.released_amount <= s.total_amount,
        vested_result(s, at) == Ok::<i128, Error>(v),
    ensures
        s.released_amount <= v <= s.total_amount,
        at >= s.end_time ==> v == s.total_amount,
        at < s.end_time && at <= s.start_time + s.total_paused_duration ==> v == s.released_amount,
        s.start_time + s.total_paused_duration < at < s.end_time ==> {
            &&& s.total_amount * (at - s.start_time - s.total_paused_duration) < (v + 1) * (
            s.end_time - s.start_time - s.total_paused_duration)
            &&& v > s.released_amount ==> v * (s.end_time - s.start_time - s.total_paused_duration)
                <= s.total_amount * (at - s.start_time - s.total_paused_duration)
        },
{
    vested_is_bounded(s, at);
    if s.start_time + s.total_paused_duration < at < s.end_time {
        let passed = at - s.start_time - s.total_paused_duration;
        let span = s.end_time - s.start_time - s.total_paused_duration;
        let total = s.total_amount as int;
        assert(0 <= total * passed) by (nonlinear_arith)
            requires
                0 <= total,
                0 < passed,
        ;
        lemma_quotient_is_floor(total * passed, span);
        let q = quotient(total * passed, span);
        assert(q <= v);
        assert((q + 1) * span <= (v + 1) * span) by (nonlinear_arith)
            requires
                q <= v,
                0 < span,
        ;
    }
}

/// Of an active stream that was never paused and has released nothing, the
/// vested amount is `total_amount` times the seconds since the start, divided by
/// the seconds of the window and rounded down.
pub proof fn undisturbed_accrual_is_a_straight_line(s: Stream, at: u64, v: i128)
    requires
        s.status is Active,
        0 <= s.total_amount,
        s.released_amount == 0,
        s.total_paused_duration == 0,
        s.start_time < at < s.end_time,
        vested_result(s, at) == Ok::<i128, Error>(v),
    ensures
        v * (s.end_time - s.start_time) <= s.total_amount * (at - s.start_time) < (v + 1) * (
        s.end_time - s.start_time),
{
    accrual_is_linear_per_second(s, at, v);
    let total = s.total_amount as int;
    let passed = at - s.start_time;
    assert(0 <= total * passed) by (nonlinear_arith)
        requires
            0 <= total,
            0 < passed,
    ;
}

/// A running pause stops the clock where it began: a paused stream has vested
/// what it would have vested, unpaused, when the pause began or now, whichever
/// comes first.
pub proof fn paused_streams_stand_still(s: Stream, at: u64)
    requires
        s.status is Paused,
    ensures
        vested_result(s, at) == vested_result(
            (Stream { status: StreamStatus::Active, ..s }),
            if at < s.paused_at {
                at
            } else {
                s.paused_at
            },
        ),
{
}

/// Drafts have vested nothing, and streams that are over what they released.
pub proof fn streams_at_rest_do_not_accrue(s: Stream, at: u64)
    ensures
        s.status is Draft ==> vested_result(s, at) == Ok::<i128, Error>(0),
        s.status is Settled || s.status is Cancelled ==> vested_result(s, at) == Ok::<i128, Error>(
            s.released_amount,
        ),
{
}

/// The vested amount is refused in one case only: the stream runs, the time is
/// strictly inside the window, and escrow times seconds leaves `i128`.
pub proof fn accrual_overflows_only_inside_the_window(s: Stream, at: u64)
    requires
        0 <= s.total_amount,
    ensures
        s.status is Active || s.status is Ended ==> (vested_result(s, at) == Err::<i128, Error>(
            Error::Overflow,
        ) <==> s.start_time + s.total_paused_duration < at < s.end_time && s.total_amount * (at
            - s.start_time - s.total_paused_duration) > i128::MAX),
        vested_result(s, at) is Err ==> vested_result(s, at) == Err::<i128, Error>(Error::Overflow),
{
    if s.start_time + s.total_paused_duration < at {
        let total = s.total_amount as int;
        let passed = at - s.start_time - s.total_paused_duration;
        assert(0 <= total * passed) by (nonlinear_arith)
            requires
                0 <= total,
                0 < passed,
        ;
    }
}

/// What can be withdrawn is what has vested less what was released.
pub proof fn withdrawable_is_vested_less_released(s: Stream, at: u64)
    requires
        0 <= s.released_amount <= s.total_amount,
        s.status is Draft ==> s.released_amount == 0,
    ensures
        vested_result(s, at) is Err <==> withdrawable_result(s, at) is Err,
        vested_result(s, at) is Ok ==> {
            &&& vested_result(s, at)->Ok_0 == vested(s, at)
            &&& withdrawable_result(s, at)->Ok_0 == vested_result(s, at)->Ok_0 - s.released_amount
            &&& withdrawable_result(s, at)->Ok_0 >= 0
        },
        withdrawable_result(s, at) is Err ==> withdrawable_result(s, at) == Err::<i128, Error>(
            Error::Overflow,
        ),
{
    vested_is_bounded(s, at);
}

/// The vested amount of `stream` at ledger time `at`.
pub fn vested_amount(stream: &Stream, at: u64) -> (r: Result<i128, Error>)
    ensures
        r == vested_result(*stream, at),
        r is Ok ==> r->Ok_0 == vested(*stream, at),
{
    proof {
        if accrual_fits(*stream, at) {
            lemma_vested_fits(*stream, at);
        }
    }
    if stream.status == StreamStatus::Draft {
        return Ok(0);
    }
    if stream.status == StreamStatus::Settled || stream.status == StreamStatus::Cancelled {
        return Ok(stream.released_amount);
    }
    let t: u64 = if stream.status == StreamStatus::Paused && at > stream.paused_at {
        stream.paused_at
    } else {
        at
    };
    let due: i128 = if t >= stream.end_time {
        stream.total_amount
    } else {
        let passed: i128 = t as i128 - stream.start_time as i128
            - stream.total_paused_duration as i128;
        if passed <= 0 {
            0
        } else {
            let span: i128 = stream.end_time as i128 - stream.start_time as i128
                - stream.total_paused_duration as i128;
            proof {
                assert(inside_window(*stream, t));
            }
            match stream.total_amount.checked_mul(passed) {
                Some(product) => match product.checked_div(span) {
                    Some(q) => q,
                    None => {
                        proof {
                            lemma_quotient_bounds(product as int, span as int);
                        }
                        return Err(Error::Overflow);
                    },
                },
                None => {
                    return Err(Error::Overflow);
                },
            }
        }
    };
    if due < stream.released_amount {
        Ok(stream.released_amount)
    } else {
        Ok(due)
    }
}

/// What has vested of `stream` at ledger time `at` and was not released yet.
pub fn withdrawable(stream: &Stream, at: u64) -> (r: Result<i128, Error>)
    ensures
        r == withdrawable_result(*stream, at),
        r is Ok ==> r->Ok_0 == vested(*stream, at) - stream.released_amount,
{
    match vested_amount(stream, at) {
        Ok(amount) => match amount.checked_sub(stream.released_amount) {
            Some(open) => Ok(open),
            None => Err(Error::Overflow),
        },
        Err(e) => Err(e),
    }
}

} // verus!
