//! What each call on a stream does: the record that it leaves, who is paid, and
//! what is announced, told by the record before it.
use vstd::prelude::*;

use crate::env::EnvView;
use crate::error::Error;
use crate::escrow::{flow, lemma_flow_push};
use crate::events::Event;
use crate::host::{Address, HostCall};
use crate::release::{lemma_quotient_is_floor, vested_is_bounded, vested_result};
use crate::storage::Stream;

verus! {

/// The transfers among host calls, in their order.
pub open spec fn moved(calls: Seq<HostCall>) -> Seq<HostCall>
    decreases calls.len(),
{
    if calls.len() == 0 {
        Seq::empty()
    } else if calls.last() is Transfer {
        moved(calls.drop_last()).push(calls.last())
    } else {
        moved(calls.drop_last())
    }
}

/// The events among host calls, in their order.
pub open spec fn announced(calls: Seq<HostCall>) -> Seq<Event>
    decreases calls.len(),
{
    if calls.len() == 0 {
        Seq::empty()
    } else {
        match calls.last() {
            HostCall::Publish { event } => announced(calls.drop_last()).push(event),
            _ => announced(calls.drop_last()),
        }
    }
}

/// One more call adds itself, if it is a transfer.
pub broadcast proof fn lemma_moved_push(calls: Seq<HostCall>, c: HostCall)
    ensures
        #[trigger] moved(calls.push(c)) == (if c is Transfer {
            moved(calls).push(c)
        } else {
            moved(calls)
        }),
{
    assert(calls.push(c).drop_last() =~= calls);
}

/// One more call adds its event, if it publishes one.
pub broadcast proof fn lemma_announced_push(calls: Seq<HostCall>, c: HostCall)
    ensures
        #[trigger] announced(calls.push(c)) == (match c {
            HostCall::Publish { event } => announced(calls).push(event),
            _ => announced(calls),
        }),
{
    assert(calls.push(c).drop_last() =~= calls);
}

pub broadcast group group_call_effects {
    lemma_announced_push,
    lemma_moved_push,
}

/// The flow of a token to an account grows by what is transferred to the account
/// and falls by what is transferred from it. No other call changes it.
pub proof fn transfers_make_up_the_flow(
    calls: Seq<HostCall>,
    c: HostCall,
    token: Address,
    account: Address,
)
    ensures
        flow(Seq::empty(), token, account) == 0,
        match c {
            HostCall::Transfer { token: other, from, to, amount } => {
                let change = flow(calls.push(c), token, account) - flow(calls, token, account);
                &&& other != token ==> change == 0
                &&& other == token && to == account && from != account ==> change == amount
                &&& other == token && from == account && to != account ==> change == -amount
                &&& other == token && to == from ==> change == 0
                &&& to != account && from != account ==> change == 0
            },
            _ => flow(calls.push(c), token, account) == flow(calls, token, account),
        },
{
    broadcast use lemma_flow_push;

}

// ── Creation ────────────────────────────────────────────────────────────────

/// `create_stream` records an active stream with the given terms under the next
/// id, moves the whole amount from the sender to the contract, counts the stream
/// for its sender, and announces it. Nothing else happens.
pub proof fn create_stream_opens_the_stream(
    e: EnvView,
    id: u64,
    sender: Address,
    recipient: Address,
    token: Address,
    total_amount: i128,
    start_time: u64,
    end_time: u64,
    fee_bps: u32,
)
    requires
        start_time < end_time,
        e.stream_count == Some(id) || (e.stream_count is None && id == 1),
        id < u64::MAX,
        e.sender_streams.contains_key(sender) ==> e.sender_streams[sender] < u64::MAX,
    ensures
        ({
            let after = e.create(
                sender,
                recipient,
                token,
                total_amount,
                start_time,
                end_time,
                fee_bps,
            );
            let s = after.streams[id];
            &&& after == (EnvView {
                stream_count: Some((id + 1) as u64),
                streams: e.streams.insert(id, s),
                stream_fees: e.stream_fees.insert(id, fee_bps),
                sender_streams: e.sender_streams.insert(
                    sender,
                    if e.sender_streams.contains_key(sender) {
                        (e.sender_streams[sender] + 1) as u64
                    } else {
                        1
                    },
                ),
                auths: e.auths.push(sender),
                calls: after.calls,
                ..e
            })
            &&& s.id == id && s.sender == sender && s.recipient == recipient && s.token == token
            &&& s.total_amount == total_amount && s.released_amount == 0
            &&& s.start_time == start_time && s.end_time == end_time
            &&& s.start_time + s.duration == s.end_time && s.last_update == start_time
            &&& s.status is Active && s.paused_at == 0 && s.total_paused_duration == 0
            &&& s.fee_bps == fee_bps
            &&& moved(after.calls) == moved(e.calls).push(
                HostCall::Transfer {
                    token,
                    from: sender,
                    to: e.contract_address,
                    amount: total_amount,
                },
            )
            &&& announced(after.calls) == announced(e.calls).push(
                Event::Created {
                    stream_id: id,
                    sender,
                    recipient,
                    token,
                    total_amount,
                    timestamp: e.timestamp,
                },
            )
        }),
{
    broadcast use group_call_effects;

}

/// `create_draft_stream` does the same, but the stream waits as a draft without
/// times, and its fee is the default fee of the moment.
pub proof fn create_draft_stream_opens_a_draft(
    e: EnvView,
    id: u64,
    sender: Address,
    recipient: Address,
    token: Address,
    total_amount: i128,
    duration: u64,
)
    requires
        e.stream_count == Some(id) || (e.stream_count is None && id == 1),
        id < u64::MAX,
        e.sender_streams.contains_key(sender) ==> e.sender_streams[sender] < u64::MAX,
    ensures
        ({
            let after = e.create_draft(sender, recipient, token, total_amount, duration);
            let s = after.streams[id];
            &&& after == (EnvView {
                stream_count: Some((id + 1) as u64),
                streams: e.streams.insert(id, s),
                stream_fees: e.stream_fees.insert(id, s.fee_bps),
                sender_streams: e.sender_streams.insert(
                    sender,
                    if e.sender_streams.contains_key(sender) {
                        (e.sender_streams[sender] + 1) as u64
                    } else {
                        1
                    },
                ),
                auths: e.auths.push(sender),
                calls: after.calls,
                ..e
            })
            &&& s.id == id && s.sender == sender && s.recipient == recipient && s.token == token
            &&& s.total_amount == total_amount && s.released_amount == 0
            &&& s.start_time == 0 && s.end_time == 0 && s.last_update == 0
            &&& s.duration == duration
            &&& s.status is Draft && s.paused_at == 0 && s.total_paused_duration == 0
            &&& e.default_fee_bps is Some ==> s.fee_bps == e.default_fee_bps->0
            &&& e.default_fee_bps is None ==> s.fee_bps == 0
            &&& moved(after.calls) == moved(e.calls).push(
                HostCall::Transfer {
                    token,
                    from: sender,
                    to: e.contract_address,
                    amount: total_amount,
                },
            )
            &&& announced(after.calls) == announced(e.calls).push(
                Event::Created {
                    stream_id: id,
                    sender,
                    recipient,
                    token,
                    total_amount,
                    timestamp: e.timestamp,
                },
            )
        }),
{
    broadcast use group_call_effects;

}

// ── Withdrawal ──────────────────────────────────────────────────────────────

/// The fee on an amount is the whole number of ten-thousandths of it, and never
/// more than the amount.
pub proof fn fees_are_ten_thousandths_rounded_down(amount: i128, fee_bps: u32)
    requires
        0 <= amount,
        fee_bps <= 10_000,
    ensures
        crate::fees::fee_split(amount, fee_bps) is Err <==> amount * fee_bps > i128::MAX,
        crate::fees::fee_split(amount, fee_bps) is Err ==> crate::fees::fee_split(amount, fee_bps)
            == Err::<crate::fees::FeeResult, Error>(Error::Overflow),
        crate::fees::fee_split(amount, fee_bps) is Ok ==> {
            let split = crate::fees::fee_split(amount, fee_bps)->Ok_0;
            &&& split.fee_amount * 10_000 <= amount * fee_bps < (split.fee_amount + 1) * 10_000
            &&& split.fee_amount + split.net_amount == amount
            &&& 0 <= split.fee_amount <= amount
        },
{
    crate::fees::fee_and_net_make_up_the_amount(amount, fee_bps);
    let a = amount as int;
    let b = fee_bps as int;
    assert(0 <= a * b) by (nonlinear_arith)
        requires
            0 <= a,
            0 <= b,
    ;
    lemma_quotient_is_floor(a * b, 10_000);
}

/// A withdrawal releases exactly its amount: the record grows by it, and is
/// settled when nothing is left. A settled stream no longer counts for its
/// sender. No other row changes.
pub proof fn withdraw_releases_the_amount(
    e: EnvView,
    caller: Address,
    stream_id: u64,
    amount: i128,
)
    requires
        e.withdraw_refusal(caller, stream_id, amount) is None,
        0 <= e.streams[stream_id].released_amount <= e.streams[stream_id].total_amount,
        e.streams[stream_id].fee_bps <= 10_000,
    ensures
        ({
            let s = e.streams[stream_id];
            let after = e.withdraw(caller, stream_id, amount);
            let t = after.streams[stream_id];
            let emptied = s.released_amount + amount == s.total_amount;
            &&& after == (EnvView {
                streams: e.streams.insert(stream_id, t),
                sender_streams: after.sender_streams,
                auths: e.auths.push(caller),
                calls: after.calls,
                ..e
            })
            &&& t.released_amount == s.released_amount + amount
            &&& t.released_amount <= t.total_amount
            &&& t.last_update == e.timestamp
            &&& emptied ==> t.status is Settled
            &&& !emptied ==> t.status == s.status
            &&& t == (Stream {
                released_amount: t.released_amount,
                last_update: t.last_update,
                status: t.status,
                ..s
            })
            &&& !emptied ==> after.sender_streams == e.sender_streams
            &&& emptied ==> after.sender_streams == e.sender_streams.insert(
                s.sender,
                if e.sender_streams.contains_key(s.sender) && e.sender_streams[s.sender] > 0 {
                    (e.sender_streams[s.sender] - 1) as u64
                } else {
                    0
                },
            )
        }),
{
    vested_is_bounded(e.streams[stream_id], e.timestamp);
}

/// A withdrawal pays the recipient, and the fee collector if there is one. The
/// collector's part is the stream's fee on the amount; the recipient gets the
/// rest, and without a collector everything. All of it comes from the contract.
pub proof fn withdraw_pays_recipient_and_collector(
    e: EnvView,
    caller: Address,
    stream_id: u64,
    amount: i128,
    fee: i128,
)
    requires
        e.withdraw_refusal(caller, stream_id, amount) is None,
        0 <= e.streams[stream_id].released_amount <= e.streams[stream_id].total_amount,
        e.streams[stream_id].fee_bps <= 10_000,
        amount * e.streams[stream_id].fee_bps <= i128::MAX,
        fee * 10_000 <= amount * e.streams[stream_id].fee_bps < (fee + 1) * 10_000,
    ensures
        ({
            let s = e.streams[stream_id];
            let before = moved(e.calls);
            let after = moved(e.withdraw(caller, stream_id, amount).calls);
            let to_recipient = HostCall::Transfer {
                token: s.token,
                from: e.contract_address,
                to: s.recipient,
                amount: (amount - fee) as i128,
            };
            let the_fee_to = |a: Address|
                HostCall::Transfer {
                    token: s.token,
                    from: e.contract_address,
                    to: a,
                    amount: fee,
                };
            &&& fee == 0 ==> after == before.push(to_recipient)
            &&& fee > 0 && e.fee_collector is Some ==> after == before.push(to_recipient).push(
                the_fee_to(e.fee_collector->0),
            )
            &&& fee > 0 && e.fee_collector is None ==> after == before.push(to_recipient).push(
                the_fee_to(s.recipient),
            )
        }),
{
    broadcast use group_call_effects;

    fees_are_ten_thousandths_rounded_down(amount, e.streams[stream_id].fee_bps);
    let split = crate::fees::fee_split(amount, e.streams[stream_id].fee_bps)->Ok_0;
    let x = split.fee_amount as int;
    let p = amount * e.streams[stream_id].fee_bps;
    assert(x == fee);
}

/// A fee that cannot be computed is not taken: without a collector the recipient
/// gets the whole amount at once.
pub proof fn withdraw_without_collector_skips_a_huge_fee(
    e: EnvView,
    caller: Address,
    stream_id: u64,
    amount: i128,
)
    requires
        e.withdraw_refusal(caller, stream_id, amount) is None,
        0 <= e.streams[stream_id].released_amount <= e.streams[stream_id].total_amount,
        e.streams[stream_id].fee_bps <= 10_000,
        amount * e.streams[stream_id].fee_bps > i128::MAX,
    ensures
        e.fee_collector is None,
        moved(e.withdraw(caller, stream_id, amount).calls) == moved(e.calls).push(
            HostCall::Transfer {
                token: e.streams[stream_id].token,
                from: e.contract_address,
                to: e.streams[stream_id].recipient,
                amount,
            },
        ),
{
    broadcast use group_call_effects;

    fees_are_ten_thousandths_rounded_down(amount, e.streams[stream_id].fee_bps);
}

/// A withdrawal announces the fee that went to a collector, the amount, and the
/// settlement if it emptied the escrow.
pub proof fn withdraw_is_announced(
    e: EnvView,
    caller: Address,
    stream_id: u64,
    amount: i128,
    fee: i128,
)
    requires
        e.withdraw_refusal(caller, stream_id, amount) is None,
        0 <= e.streams[stream_id].released_amount <= e.streams[stream_id].total_amount,
        e.streams[stream_id].fee_bps <= 10_000,
        amount * e.streams[stream_id].fee_bps <= i128::MAX,
        fee * 10_000 <= amount * e.streams[stream_id].fee_bps < (fee + 1) * 10_000,
    ensures
        ({
            let s = e.streams[stream_id];
            let charged = if fee > 0 && e.fee_collector is Some {
                announced(e.calls).push(
                    Event::FeeCharged {
                        stream_id,
                        fee_amount: fee,
                        fee_bps: s.fee_bps,
                        collector: e.fee_collector->0,
                        timestamp: e.timestamp,
                    },
                )
            } else {
                announced(e.calls)
            };
            let paid = charged.push(
                Event::Withdrawn {
                    stream_id,
                    recipient: s.recipient,
                    amount,
                    timestamp: e.timestamp,
                },
            );
            announced(e.withdraw(caller, stream_id, amount).calls) == (if s.released_amount + amount
                == s.total_amount {
                paid.push(
                    Event::Settled {
                        stream_id,
                        recipient: s.recipient,
                        amount: s.total_amount,
                        timestamp: e.timestamp,
                    },
                )
            } else {
                paid
            })
        }),
{
    broadcast use group_call_effects;

    fees_are_ten_thousandths_rounded_down(amount, e.streams[stream_id].fee_bps);
    vested_is_bounded(e.streams[stream_id], e.timestamp);
    let split = crate::fees::fee_split(amount, e.streams[stream_id].fee_bps)->Ok_0;
    let p = amount * e.streams[stream_id].fee_bps;
    assert(split.fee_amount == fee);
}

/// A guarded withdrawal releases exactly its amount, as a plain one does, on the
/// authorisation of the recipient.
pub proof fn guarded_withdraw_releases_the_amount(
    e: EnvView,
    stream_id: u64,
    amount: i128,
    max_fee_bps: u32,
)
    requires
        e.guarded_refusal(stream_id, amount, max_fee_bps) is None,
        0 <= e.streams[stream_id].released_amount <= e.streams[stream_id].total_amount,
    ensures
        ({
            let s = e.streams[stream_id];
            let after = e.withdraw_guarded(stream_id, amount);
            let t = after.streams[stream_id];
            let emptied = s.released_amount + amount == s.total_amount;
            &&& after == (EnvView {
                streams: e.streams.insert(stream_id, t),
                sender_streams: after.sender_streams,
                auths: e.auths.push(s.recipient),
                calls: after.calls,
                ..e
            })
            &&& t.released_amount == s.released_amount + amount
            &&& t.released_amount <= t.total_amount
            &&& t.last_update == e.timestamp
            &&& emptied ==> t.status is Settled
            &&& !emptied ==> t.status == s.status
            &&& t == (Stream {
                released_amount: t.released_amount,
                last_update: t.last_update,
                status: t.status,
                ..s
            })
            &&& !emptied ==> after.sender_streams == e.sender_streams
            &&& emptied ==> after.sender_streams == e.sender_streams.insert(
                s.sender,
                if e.sender_streams.contains_key(s.sender) && e.sender_streams[s.sender] > 0 {
                    (e.sender_streams[s.sender] - 1) as u64
                } else {
                    0
                },
            )
        }),
{
    vested_is_bounded(e.streams[stream_id], e.timestamp);
}

/// A guarded withdrawal pays the recipient and the admin. The admin's part is
/// the protocol fee on the amount; the recipient gets the rest. Empty transfers
/// are left out.
pub proof fn guarded_withdraw_pays_recipient_and_admin(
    e: EnvView,
    stream_id: u64,
    amount: i128,
    max_fee_bps: u32,
    bps: u32,
    fee: i128,
)
    requires
        e.guarded_refusal(stream_id, amount, max_fee_bps) is None,
        0 <= e.streams[stream_id].released_amount <= e.streams[stream_id].total_amount,
        e.fee_bps == Some(bps) || (e.fee_bps is None && bps == 0),
        bps <= 10_000,
        fee * 10_000 <= amount * bps < (fee + 1) * 10_000,
    ensures
        ({
            let s = e.streams[stream_id];
            let before = moved(e.calls);
            let after = moved(e.withdraw_guarded(stream_id, amount).calls);
            let net = HostCall::Transfer {
                token: s.token,
                from: e.contract_address,
                to: s.recipient,
                amount: (amount - fee) as i128,
            };
            let charge = HostCall::Transfer {
                token: s.token,
                from: e.contract_address,
                to: e.admin->0,
                amount: fee,
            };
            &&& fee > 0 ==> e.admin is Some
            &&& fee == 0 ==> after == before.push(net)
            &&& 0 < fee < amount ==> after == before.push(net).push(charge)
            &&& fee == amount ==> after == before.push(charge)
        }),
        ({
            let s = e.streams[stream_id];
            let paid = announced(e.calls).push(
                Event::Withdrawn {
                    stream_id,
                    recipient: s.recipient,
                    amount,
                    timestamp: e.timestamp,
                },
            );
            announced(e.withdraw_guarded(stream_id, amount).calls) == (if s.released_amount + amount
                == s.total_amount {
                paid.push(
                    Event::Settled {
                        stream_id,
                        recipient: s.recipient,
                        amount: s.total_amount,
                        timestamp: e.timestamp,
                    },
                )
            } else {
                paid
            })
        }),
{
    broadcast use group_call_effects;

    fees_are_ten_thousandths_rounded_down(amount, bps);
    vested_is_bounded(e.streams[stream_id], e.timestamp);
    let split = crate::fees::fee_split(amount, bps)->Ok_0;
    let p = amount * bps;
    assert(split.fee_amount == fee);
}

// ── Life cycle ──────────────────────────────────────────────────────────────

/// Starting a draft gives it the window from now over its duration, and changes
/// nothing else. No funds move.
pub proof fn start_opens_the_window_now(e: EnvView, stream_id: u64)
    requires
        e.streams[stream_id].status is Draft,
        e.timestamp + e.streams[stream_id].duration <= u64::MAX,
    ensures
        ({
            let s = e.streams[stream_id];
            let after = e.start(stream_id);
            let t = after.streams[stream_id];
            &&& after == (EnvView {
                streams: e.streams.insert(stream_id, t),
                auths: e.auths.push(s.sender),
                calls: after.calls,
                ..e
            })
            &&& t.status is Active && t.start_time == e.timestamp && t.last_update == e.timestamp
            &&& t.end_time == e.timestamp + s.duration
            &&& t == (Stream {
                status: t.status,
                start_time: t.start_time,
                end_time: t.end_time,
                last_update: t.last_update,
                ..s
            })
            &&& crate::lifecycle::started(s, e.timestamp) == t
            &&& moved(after.calls) == moved(e.calls)
            &&& announced(after.calls) == announced(e.calls).push(
                Event::Started {
                    stream_id,
                    start_time: t.start_time,
                    end_time: t.end_time,
                    timestamp: e.timestamp,
                },
            )
        }),
{
    broadcast use group_call_effects;

}

/// Pausing notes when the pause began, and changes nothing else. No funds move.
pub proof fn pause_notes_the_time(e: EnvView, stream_id: u64)
    ensures
        ({
            let s = e.streams[stream_id];
            let after = e.pause(stream_id);
            let t = after.streams[stream_id];
            &&& after == (EnvView {
                streams: e.streams.insert(stream_id, t),
                auths: e.auths.push(s.sender),
                calls: after.calls,
                ..e
            })
            &&& t.status is Paused && t.paused_at == e.timestamp && t.last_update == e.timestamp
            &&& t == (Stream {
                status: t.status,
                paused_at: t.paused_at,
                last_update: t.last_update,
                ..s
            })
            &&& crate::lifecycle::paused(s, e.timestamp) == t
            &&& moved(after.calls) == moved(e.calls)
            &&& announced(after.calls) == announced(e.calls).push(
                Event::Paused {
                    stream_id,
                    sender: s.sender,
                    paused_at: e.timestamp,
                    timestamp: e.timestamp,
                },
            )
        }),
{
    broadcast use group_call_effects;

}

/// Resuming adds the length of the pause to the end and to the paused time, and
/// changes nothing else. No funds move.
pub proof fn resume_extends_by_the_pause(e: EnvView, stream_id: u64)
    requires
        e.streams[stream_id].paused_at <= e.timestamp,
        e.streams[stream_id].end_time + (e.timestamp - e.streams[stream_id].paused_at) <= u64::MAX,
        e.streams[stream_id].total_paused_duration + (e.timestamp
            - e.streams[stream_id].paused_at) <= u64::MAX,
    ensures
        ({
            let s = e.streams[stream_id];
            let after = e.resume(stream_id);
            let t = after.streams[stream_id];
            let length = e.timestamp - s.paused_at;
            &&& after == (EnvView {
                streams: e.streams.insert(stream_id, t),
                auths: e.auths.push(s.sender),
                calls: after.calls,
                ..e
            })
            &&& t.status is Active && t.paused_at == 0 && t.last_update == e.timestamp
            &&& t.end_time == s.end_time + length
            &&& t.total_paused_duration == s.total_paused_duration + length
            &&& t == (Stream {
                status: t.status,
                paused_at: t.paused_at,
                last_update: t.last_update,
                end_time: t.end_time,
                total_paused_duration: t.total_paused_duration,
                ..s
            })
            &&& crate::lifecycle::resumed(s, e.timestamp) == t
            &&& moved(after.calls) == moved(e.calls)
            &&& announced(after.calls) == announced(e.calls).push(
                Event::Resumed {
                    stream_id,
                    sender: s.sender,
                    end_time: t.end_time,
                    timestamp: e.timestamp,
                },
            )
        }),
{
    broadcast use group_call_effects;

}

/// Settling pays everything that was not released to the recipient, and leaves a
/// settled record that released the whole escrow. It demands no authorisation.
pub proof fn settle_pays_the_recipient_the_rest(e: EnvView, stream_id: u64)
    requires
        !(e.streams[stream_id].status is Settled),
        0 <= e.streams[stream_id].released_amount <= e.streams[stream_id].total_amount,
    ensures
        ({
            let s = e.streams[stream_id];
            let after = e.settle(stream_id);
            let t = after.streams[stream_id];
            let rest = s.total_amount - s.released_amount;
            &&& after == (EnvView {
                streams: e.streams.insert(stream_id, t),
                sender_streams: after.sender_streams,
                calls: after.calls,
                ..e
            })
            &&& t.status is Settled && t.released_amount == s.total_amount && t.last_update
                == e.timestamp
            &&& t == (Stream {
                status: t.status,
                released_amount: t.released_amount,
                last_update: t.last_update,
                ..s
            })
            &&& after.sender_streams == e.sender_streams.insert(
                s.sender,
                if e.sender_streams.contains_key(s.sender) && e.sender_streams[s.sender] > 0 {
                    (e.sender_streams[s.sender] - 1) as u64
                } else {
                    0
                },
            )
            &&& rest > 0 ==> moved(after.calls) == moved(e.calls).push(
                HostCall::Transfer {
                    token: s.token,
                    from: e.contract_address,
                    to: s.recipient,
                    amount: rest as i128,
                },
            )
            &&& rest == 0 ==> moved(after.calls) == moved(e.calls)
            &&& announced(after.calls) == announced(e.calls).push(
                Event::Settled {
                    stream_id,
                    recipient: s.recipient,
                    amount: s.total_amount,
                    timestamp: e.timestamp,
                },
            )
        }),
{
    broadcast use group_call_effects;

}

/// Settling a settled stream again only extends what it reads.
pub proof fn settling_again_does_nothing(e: EnvView, stream_id: u64)
    requires
        e.streams[stream_id].status is Settled,
    ensures
        e.settle(stream_id) == (EnvView { calls: e.settle(stream_id).calls, ..e }),
        moved(e.settle(stream_id).calls) == moved(e.calls),
        announced(e.settle(stream_id).calls) == announced(e.calls),
{
    broadcast use group_call_effects;

}

/// Cancelling pays the recipient what has vested and was not released, and the
/// sender what has not vested. The record is cancelled, with all that has vested
/// released.
pub proof fn cancel_pays_recipient_and_sender(e: EnvView, stream_id: u64, v: i128)
    requires
        !(e.streams[stream_id].status is Settled || e.streams[stream_id].status is Cancelled),
        0 <= e.streams[stream_id].released_amount <= e.streams[stream_id].total_amount,
        e.streams[stream_id].status is Draft ==> e.streams[stream_id].released_amount == 0,
        vested_result(e.streams[stream_id], e.timestamp) == Ok::<i128, Error>(v),
    ensures
        ({
            let s = e.streams[stream_id];
            let after = e.cancel(stream_id);
            let t = after.streams[stream_id];
            let to_recipient = HostCall::Transfer {
                token: s.token,
                from: e.contract_address,
                to: s.recipient,
                amount: (v - s.released_amount) as i128,
            };
            let to_sender = HostCall::Transfer {
                token: s.token,
                from: e.contract_address,
                to: s.sender,
                amount: (s.total_amount - v) as i128,
            };
            let first = if v > s.released_amount {
                moved(e.calls).push(to_recipient)
            } else {
                moved(e.calls)
            };
            &&& after == (EnvView {
                streams: e.streams.insert(stream_id, t),
                sender_streams: after.sender_streams,
                auths: e.auths.push(s.sender),
                calls: after.calls,
                ..e
            })
            &&& t.status is Cancelled && t.released_amount == v && t.last_update == e.timestamp
            &&& t == (Stream {
                status: t.status,
                released_amount: t.released_amount,
                last_update: t.last_update,
                ..s
            })
            &&& crate::lifecycle::cancelled(s, e.timestamp) == t
            &&& after.sender_streams == e.sender_streams.insert(
                s.sender,
                if e.sender_streams.contains_key(s.sender) && e.sender_streams[s.sender] > 0 {
                    (e.sender_streams[s.sender] - 1) as u64
                } else {
                    0
                },
            )
            &&& v < s.total_amount ==> moved(after.calls) == first.push(to_sender)
            &&& v == s.total_amount ==> moved(after.calls) == first
            &&& announced(after.calls) == announced(e.calls).push(
                Event::Cancelled {
                    stream_id,
                    sender: s.sender,
                    sender_refund: (s.total_amount - v) as i128,
                    recipient_payout: (v - s.released_amount) as i128,
                    timestamp: e.timestamp,
                },
            )
        }),
{
    broadcast use group_call_effects;

    vested_is_bounded(e.streams[stream_id], e.timestamp);
}

/// By a cancellation the recipient gains exactly what has vested and was not
/// released, and the sender exactly what has not vested.
pub proof fn cancel_is_worth_vested_and_unvested(e: EnvView, stream_id: u64, v: i128)
    requires
        !(e.streams[stream_id].status is Settled || e.streams[stream_id].status is Cancelled),
        0 <= e.streams[stream_id].released_amount <= e.streams[stream_id].total_amount,
        e.streams[stream_id].status is Draft ==> e.streams[stream_id].released_amount == 0,
        vested_result(e.streams[stream_id], e.timestamp) == Ok::<i128, Error>(v),
        e.streams[stream_id].recipient != e.streams[stream_id].sender,
        e.streams[stream_id].recipient != e.contract_address,
        e.streams[stream_id].sender != e.contract_address,
    ensures
        ({
            let s = e.streams[stream_id];
            let after = e.cancel(stream_id).calls;
            &&& flow(after, s.token, s.recipient) == flow(e.calls, s.token, s.recipient) + (v
                - s.released_amount)
            &&& flow(after, s.token, s.sender) == flow(e.calls, s.token, s.sender) + (s.total_amount
                - v)
            &&& flow(after, s.token, e.contract_address) == flow(
                e.calls,
                s.token,
                e.contract_address,
            ) - (s.total_amount - s.released_amount)
        }),
{
    broadcast use lemma_flow_push;

    vested_is_bounded(e.streams[stream_id], e.timestamp);
}

/// By a settlement the recipient gains exactly what was not released.
pub proof fn settle_is_worth_the_rest(e: EnvView, stream_id: u64)
    requires
        !(e.streams[stream_id].status is Settled),
        0 <= e.streams[stream_id].released_amount <= e.streams[stream_id].total_amount,
        e.streams[stream_id].recipient != e.contract_address,
    ensures
        ({
            let s = e.streams[stream_id];
            let after = e.settle(stream_id).calls;
            &&& flow(after, s.token, s.recipient) == flow(e.calls, s.token, s.recipient)
                + s.total_amount - s.released_amount
            &&& flow(after, s.token, e.contract_address) == flow(
                e.calls,
                s.token,
                e.contract_address,
            ) - (s.total_amount - s.released_amount)
        }),
{
    broadcast use lemma_flow_push;

}

/// By a withdrawal the contract loses exactly the amount.
pub proof fn withdraw_costs_the_amount(e: EnvView, caller: Address, stream_id: u64, amount: i128)
    requires
        e.withdraw_refusal(caller, stream_id, amount) is None,
        e.streams[stream_id].fee_bps <= 10_000,
        e.streams[stream_id].recipient != e.contract_address,
        e.fee_collector != Some(e.contract_address),
    ensures
        flow(
            e.withdraw(caller, stream_id, amount).calls,
            e.streams[stream_id].token,
            e.contract_address,
        ) == flow(e.calls, e.streams[stream_id].token, e.contract_address) - amount,
{
    broadcast use lemma_flow_push;

    crate::fees::stream_split_makes_up_the_amount(
        amount,
        e.streams[stream_id].fee_bps,
        e.fee_collector,
    );
}

/// Amending moves the end and the duration with it, and changes nothing else. No
/// funds move.
pub proof fn amend_moves_the_end_alone(
    e: EnvView,
    stream_id: u64,
    new_rate_per_second: i128,
    new_end_time: u64,
)
    requires
        e.streams[stream_id].start_time < new_end_time,
    ensures
        ({
            let s = e.streams[stream_id];
            let after = e.amend(stream_id, new_rate_per_second, new_end_time);
            let t = after.streams[stream_id];
            &&& after == (EnvView {
                streams: e.streams.insert(stream_id, t),
                auths: e.auths.push(s.sender),
                calls: after.calls,
                ..e
            })
            &&& t.end_time == new_end_time && t.start_time + t.duration == t.end_time
            &&& t.last_update == e.timestamp
            &&& t == (Stream {
                end_time: t.end_time,
                duration: t.duration,
                last_update: t.last_update,
                ..s
            })
            &&& crate::lifecycle::amended(s, new_end_time, e.timestamp) == t
            &&& moved(after.calls) == moved(e.calls)
            &&& announced(after.calls) == announced(e.calls).push(
                Event::Amended {
                    stream_id,
                    sender: s.sender,
                    rate_per_second: new_rate_per_second,
                    end_time: new_end_time,
                    timestamp: e.timestamp,
                },
            )
        }),
{
    broadcast use group_call_effects;

}

/// An override moves the end alone, uses up the nonce, and announces nothing. No
/// funds move.
pub proof fn override_moves_the_end_and_the_nonce(
    e: EnvView,
    admin: Address,
    nonce: u64,
    stream_id: u64,
    new_end_time: u64,
)
    requires
        nonce < u64::MAX,
    ensures
        ({
            let s = e.streams[stream_id];
            let after = e.admin_override(admin, nonce, stream_id, new_end_time);
            let t = after.streams[stream_id];
            &&& after == (EnvView {
                streams: e.streams.insert(stream_id, t),
                admin_nonce: Some((nonce + 1) as u64),
                auths: e.auths.push(admin),
                calls: after.calls,
                ..e
            })
            &&& t == (Stream { end_time: new_end_time, last_update: e.timestamp, ..s })
            &&& crate::admin::overridden(s, new_end_time, e.timestamp) == t
            &&& moved(after.calls) == moved(e.calls)
            &&& announced(after.calls) == announced(e.calls)
        }),
{
    broadcast use group_call_effects;

}

// ── Withdrawers, tokens and migration ───────────────────────────────────────

/// An address that is not on a list is added at its end; one that is on it
/// stays where it is.
pub proof fn withdrawers_are_listed_once(e: EnvView, id: u64, withdrawer: Address)
    ensures
        ({
            let after = e.add_withdrawer(id, withdrawer);
            let list = if e.withdrawers.contains_key(id) {
                e.withdrawers[id]
            } else {
                Seq::empty()
            };
            &&& list.contains(withdrawer) ==> after == (EnvView { calls: after.calls, ..e })
            &&& !list.contains(withdrawer) ==> after == (EnvView {
                withdrawers: e.withdrawers.insert(id, list.push(withdrawer)),
                calls: after.calls,
                ..e
            })
            &&& moved(after.calls) == moved(e.calls)
            &&& announced(after.calls) == announced(e.calls)
        }),
{
    broadcast use group_call_effects;

}

/// An address is taken off a list where it first stands, and the others close
/// up; an address that is not on it changes nothing.
pub proof fn withdrawers_are_taken_off(e: EnvView, id: u64, withdrawer: Address, i: int)
    requires
        e.withdrawers.contains_key(id),
        0 <= i < e.withdrawers[id].len(),
        e.withdrawers[id][i] == withdrawer,
        forall|j: int| 0 <= j < i ==> #[trigger] e.withdrawers[id][j] != withdrawer,
    ensures
        ({
            let after = e.remove_withdrawer(id, withdrawer);
            &&& after == (EnvView {
                withdrawers: e.withdrawers.insert(id, e.withdrawers[id].remove(i)),
                calls: after.calls,
                ..e
            })
            &&& moved(after.calls) == moved(e.calls)
            &&& announced(after.calls) == announced(e.calls)
        }),
{
    broadcast use group_call_effects;

    let list = e.withdrawers[id];
    assert(list[i] == withdrawer);
    assert(list.contains(withdrawer));
    list.index_of_first_ensures(withdrawer);
    let k = list.index_of_first(withdrawer)->0;
    if k < i {
        assert(list[k] != withdrawer);
    }
    assert(k == i);
}

/// Taking off an address that is not on the list changes no row.
pub proof fn strangers_are_not_taken_off(e: EnvView, id: u64, withdrawer: Address)
    requires
        e.withdrawers.contains_key(id) ==> !e.withdrawers[id].contains(withdrawer),
    ensures
        e.remove_withdrawer(id, withdrawer) == (EnvView {
            calls: e.remove_withdrawer(id, withdrawer).calls,
            ..e
        }),
{
}

/// Allowing a list of tokens touches token rules alone: those of the list say
/// yes, the others stay.
pub proof fn token_lists_touch_token_rules_alone(e: EnvView, tokens: Seq<Address>, token: Address)
    ensures
        ({
            let after = e.allow_tokens(tokens);
            &&& after == (EnvView { token_allowed: after.token_allowed, calls: after.calls, ..e })
            &&& tokens.contains(token) ==> after.token_allowed.contains_key(token)
                && after.token_allowed[token]
            &&& !tokens.contains(token) ==> after.token_allowed.contains_key(token)
                == e.token_allowed.contains_key(token) && after.token_allowed[token]
                == e.token_allowed[token]
            &&& moved(after.calls) == moved(e.calls)
            &&& announced(after.calls) == announced(e.calls)
        }),
    decreases tokens.len(),
{
    broadcast use group_call_effects;

    if tokens.len() > 0 {
        let rest = tokens.drop_last();
        token_lists_touch_token_rules_alone(e, rest, token);
        lemma_last_or_rest(tokens, token);
    }
}

/// Granting a list of tokens to an organisation touches its rules alone: those of
/// the list say yes, the others stay, and a list that is not empty restricts it.
pub proof fn grants_touch_organisation_rules_alone(
    e: EnvView,
    org: Address,
    tokens: Seq<Address>,
    rule: crate::host::OrgToken,
)
    ensures
        ({
            let after = e.allow_org_tokens(org, tokens);
            &&& after == (EnvView {
                org_tokens: after.org_tokens,
                org_restricted: if tokens.len() > 0 {
                    e.org_restricted.insert(org, true)
                } else {
                    e.org_restricted
                },
                calls: after.calls,
                ..e
            })
            &&& rule.org == org && tokens.contains(rule.token) ==> after.org_tokens.contains_key(
                rule,
            ) && after.org_tokens[rule]
            &&& !(rule.org == org && tokens.contains(rule.token)) ==> after.org_tokens.contains_key(
                rule,
            ) == e.org_tokens.contains_key(rule) && after.org_tokens[rule] == e.org_tokens[rule]
            &&& moved(after.calls) == moved(e.calls)
            &&& announced(after.calls) == announced(e.calls)
        }),
    decreases tokens.len(),
{
    broadcast use group_call_effects;

    if tokens.len() > 0 {
        let rest = tokens.drop_last();
        grants_touch_organisation_rules_alone(e, org, rest, rule);
        lemma_last_or_rest(tokens, rule.token);
        assert(e.org_restricted.insert(org, true).insert(org, true) =~= e.org_restricted.insert(
            org,
            true,
        ));
    }
}

/// What a list holds is its last entry or in the rest.
proof fn lemma_last_or_rest(tokens: Seq<Address>, token: Address)
    requires
        tokens.len() > 0,
    ensures
        tokens.contains(token) == (tokens.drop_last().contains(token) || tokens.last() == token),
{
    let rest = tokens.drop_last();
    if rest.contains(token) {
        let i = choose|i: int| 0 <= i < rest.len() && rest[i] == token;
        assert(tokens[i] == token);
    }
    if tokens.last() == token {
        assert(tokens[tokens.len() - 1] == token);
    }
    if tokens.contains(token) {
        let i = choose|i: int| 0 <= i < tokens.len() && tokens[i] == token;
        if i < rest.len() {
            assert(rest[i] == token);
        }
    }
}

/// Meeting the conditions of a new stream, and being let through to a withdrawal,
/// takes one authorisation. No row is written, and nothing moves or is announced.
pub proof fn conditions_are_only_read(
    e: EnvView,
    sender: Address,
    token: Address,
    stream_id: u64,
    caller: Address,
    recipient: Address,
)
    ensures
        ({
            let created = e.pass_create(sender, token);
            let drafted = e.pass_draft(sender, token);
            let checked = e.check_withdrawer(stream_id, caller, recipient);
            &&& created == (EnvView { auths: e.auths.push(sender), calls: created.calls, ..e })
            &&& moved(created.calls) == moved(e.calls)
            &&& announced(created.calls) == announced(e.calls)
            &&& drafted == (EnvView { auths: e.auths.push(sender), calls: drafted.calls, ..e })
            &&& moved(drafted.calls) == moved(e.calls)
            &&& announced(drafted.calls) == announced(e.calls)
            &&& checked == (EnvView { auths: e.auths.push(caller), calls: checked.calls, ..e })
            &&& moved(checked.calls) == moved(e.calls)
            &&& announced(checked.calls) == announced(e.calls)
        }),
{
    broadcast use group_call_effects;

}

/// A sender's count goes up and down by one, and stops at its ends. No other row
/// changes.
pub proof fn sender_counts_go_by_one(e: EnvView, sender: Address, count: u64)
    requires
        e.sender_streams.contains_key(sender) ==> e.sender_streams[sender] == count,
        !e.sender_streams.contains_key(sender) ==> count == 0,
    ensures
        ({
            let more = e.add_sender_stream(sender);
            let fewer = e.drop_sender_stream(sender);
            &&& more == (EnvView {
                sender_streams: e.sender_streams.insert(sender, more.sender_streams[sender]),
                calls: more.calls,
                ..e
            })
            &&& count < u64::MAX ==> more.sender_streams[sender] == count + 1
            &&& count == u64::MAX ==> more.sender_streams[sender] == count
            &&& moved(more.calls) == moved(e.calls)
            &&& announced(more.calls) == announced(e.calls)
            &&& fewer == (EnvView {
                sender_streams: e.sender_streams.insert(sender, fewer.sender_streams[sender]),
                calls: fewer.calls,
                ..e
            })
            &&& count > 0 ==> fewer.sender_streams[sender] == count - 1
            &&& count == 0 ==> fewer.sender_streams[sender] == 0
            &&& moved(fewer.calls) == moved(e.calls)
            &&& announced(fewer.calls) == announced(e.calls)
        }),
{
    broadcast use group_call_effects;

}

/// Migration records the first version on a contract without one, and leaves a
/// contract that has one as it is.
pub proof fn migration_records_the_version(e: EnvView, admin: Address)
    ensures
        ({
            let after = e.migrate(admin);
            &&& after == (EnvView {
                version: after.version,
                auths: e.auths.push(admin),
                calls: after.calls,
                ..e
            })
            &&& e.version is None || e.version->0.version == 0 ==> after.version is Some
                && after.version->0.version == 1
            &&& e.version is Some && e.version->0.version >= 1 ==> after.version == e.version
            &&& moved(after.calls) == moved(e.calls)
            &&& announced(after.calls) == announced(e.calls)
        }),
{
    broadcast use group_call_effects;

}

} // verus!
