//! How calls keep rows alive: every row that a call writes is extended by it, the
//! full length ahead of the current ledger.
use vstd::prelude::*;

use crate::env::EnvView;
use crate::host::{Address, HostCall};
use crate::multi::SplitStreamView;
use crate::storage::DataKey;

verus! {

/// How often a host call was asked for.
pub open spec fn times_asked(calls: Seq<HostCall>, c: HostCall) -> nat
    decreases calls.len(),
{
    if calls.len() == 0 {
        0
    } else if calls.last() == c {
        times_asked(calls.drop_last(), c) + 1
    } else {
        times_asked(calls.drop_last(), c)
    }
}

/// One more call counts if it is the same.
pub broadcast proof fn lemma_times_asked_push(calls: Seq<HostCall>, d: HostCall, c: HostCall)
    ensures
        #[trigger] times_asked(calls.push(d), c) == times_asked(calls, c) + (if d == c {
            1nat
        } else {
            0nat
        }),
{
    assert(calls.push(d).drop_last() =~= calls);
}

/// The host call that extends the row of a stream: from two weeks to three months
/// ahead of the current ledger, and not past the last one.
pub open spec fn row_extension(sequence: u32, key: DataKey) -> HostCall {
    HostCall::ExtendRow {
        key,
        threshold: if sequence + 241_920 > u32::MAX {
            u32::MAX
        } else {
            (sequence + 241_920) as u32
        },
        extend_to: if sequence + 1_555_200 > u32::MAX {
            u32::MAX
        } else {
            (sequence + 1_555_200) as u32
        },
    }
}

/// Reading a stream extends its row, and so does every change of its times.
pub proof fn changes_of_a_stream_extend_its_row(
    e: EnvView,
    stream_id: u64,
    rate: i128,
    end_time: u64,
)
    ensures
        ({
            let c = row_extension(e.sequence, DataKey::Stream(stream_id));
            let before = times_asked(e.calls, c);
            &&& times_asked(e.start(stream_id).calls, c) > before
            &&& times_asked(e.pause(stream_id).calls, c) > before
            &&& times_asked(e.resume(stream_id).calls, c) > before
            &&& times_asked(e.amend(stream_id, rate, end_time).calls, c) > before
            &&& e.streams.contains_key(stream_id) ==> times_asked(e.read_stream(stream_id).calls, c)
                == before + 1
        }),
{
    broadcast use lemma_times_asked_push;

}

/// An override extends the row of its stream.
pub proof fn overrides_extend_the_row(
    e: EnvView,
    admin: Address,
    nonce: u64,
    stream_id: u64,
    end_time: u64,
)
    ensures
        ({
            let c = row_extension(e.sequence, DataKey::Stream(stream_id));
            times_asked(e.admin_override(admin, nonce, stream_id, end_time).calls, c) > times_asked(
                e.calls,
                c,
            )
        }),
{
    broadcast use lemma_times_asked_push;

}

/// A cancellation and a settlement extend the row of their stream.
pub proof fn endings_extend_the_row(e: EnvView, stream_id: u64)
    ensures
        ({
            let c = row_extension(e.sequence, DataKey::Stream(stream_id));
            let before = times_asked(e.calls, c);
            &&& times_asked(e.cancel(stream_id).calls, c) > before
            &&& e.streams.contains_key(stream_id) ==> times_asked(e.settle(stream_id).calls, c)
                > before
        }),
{
    broadcast use lemma_times_asked_push;

}

/// A withdrawal extends the row of its stream.
pub proof fn withdrawals_extend_the_row(e: EnvView, caller: Address, stream_id: u64, amount: i128)
    ensures
        ({
            let c = row_extension(e.sequence, DataKey::Stream(stream_id));
            times_asked(e.withdraw(caller, stream_id, amount).calls, c) > times_asked(e.calls, c)
        }),
{
    let c = row_extension(e.sequence, DataKey::Stream(stream_id));
    let s = e.streams[stream_id];
    let after = crate::withdrawal::drawn(s, amount, e.timestamp);
    let split = crate::fees::stream_split(amount, s.fee_bps, e.fee_collector)->Ok_0;
    let checked = e.read_paused().read_stream(stream_id).check_withdrawer(
        stream_id,
        caller,
        s.recipient,
    );
    let dropped = checked.drop_if_settled(after);
    let paid = dropped.pay_with_stream_fee(stream_id, after, split);
    let recorded = paid.record_draw(stream_id, after, amount);
    assert(times_asked(checked.calls, c) >= times_asked(e.calls, c)) by {
        broadcast use lemma_times_asked_push;

    }
    assert(times_asked(dropped.calls, c) >= times_asked(checked.calls, c)) by {
        broadcast use lemma_times_asked_push;

    }
    assert(times_asked(paid.calls, c) >= times_asked(dropped.calls, c)) by {
        broadcast use lemma_times_asked_push;

    }
    assert(paid.sequence == e.sequence);
    assert(times_asked(recorded.calls, c) > times_asked(paid.calls, c)) by {
        broadcast use lemma_times_asked_push;

    }
}

/// A guarded withdrawal extends the row of its stream.
pub proof fn guarded_withdrawals_extend_the_row(e: EnvView, stream_id: u64, amount: i128)
    ensures
        ({
            let c = row_extension(e.sequence, DataKey::Stream(stream_id));
            times_asked(e.withdraw_guarded(stream_id, amount).calls, c) > times_asked(e.calls, c)
        }),
{
    let c = row_extension(e.sequence, DataKey::Stream(stream_id));
    let s = e.streams[stream_id];
    let after = crate::withdrawal::drawn(s, amount, e.timestamp);
    let split = crate::fees::fee_split(amount, e.protocol_fee())->Ok_0;
    let asked = e.read_fee_bps().read_paused().read_stream(stream_id).demand(s.recipient);
    let dropped = asked.drop_if_settled(after);
    let paid = dropped.pay_with_protocol_fee(after, split);
    let recorded = paid.record_draw(stream_id, after, amount);
    assert(times_asked(asked.calls, c) >= times_asked(e.calls, c)) by {
        broadcast use lemma_times_asked_push;

    }
    assert(times_asked(dropped.calls, c) >= times_asked(asked.calls, c)) by {
        broadcast use lemma_times_asked_push;

    }
    assert(times_asked(paid.calls, c) >= times_asked(dropped.calls, c)) by {
        broadcast use lemma_times_asked_push;

    }
    assert(paid.sequence == e.sequence);
    assert(times_asked(recorded.calls, c) > times_asked(paid.calls, c)) by {
        broadcast use lemma_times_asked_push;

    }
}

/// A new stream's row is extended, and with it the rows of its fee and of its
/// sender's count.
pub proof fn creation_extends_the_new_rows(
    e: EnvView,
    sender: Address,
    recipient: Address,
    token: Address,
    total_amount: i128,
    start_time: u64,
    end_time: u64,
    fee_bps: u32,
    id: u64,
    key: DataKey,
)
    requires
        e.stream_count == Some(id) || (e.stream_count is None && id == 1),
        key == DataKey::Stream(id) || key == DataKey::StreamFeeBps(id) || key
            == DataKey::SenderStreamCount(sender),
    ensures
        ({
            let c = row_extension(e.sequence, key);
            times_asked(
                e.create(
                    sender,
                    recipient,
                    token,
                    total_amount,
                    start_time,
                    end_time,
                    fee_bps,
                ).calls,
                c,
            ) > times_asked(e.calls, c)
        }),
{
    let c = row_extension(e.sequence, key);
    let passed = e.pass_create(sender, token);
    let s = crate::create::new_stream(
        id,
        sender,
        recipient,
        token,
        total_amount,
        start_time,
        end_time,
        fee_bps,
    );
    assert(passed.sequence == e.sequence);
    assert(times_asked(passed.calls, c) >= times_asked(e.calls, c)) by {
        broadcast use lemma_times_asked_push;

    }
    assert(times_asked(passed.open_stream(s).calls, c) > times_asked(passed.calls, c)) by {
        broadcast use lemma_times_asked_push;

    }
}

/// A new draft's row is extended.
pub proof fn drafting_extends_the_new_row(
    e: EnvView,
    sender: Address,
    recipient: Address,
    token: Address,
    total_amount: i128,
    duration: u64,
    id: u64,
)
    requires
        e.stream_count == Some(id) || (e.stream_count is None && id == 1),
    ensures
        ({
            let c = row_extension(e.sequence, DataKey::Stream(id));
            times_asked(
                e.create_draft(sender, recipient, token, total_amount, duration).calls,
                c,
            ) > times_asked(e.calls, c)
        }),
{
    broadcast use lemma_times_asked_push;

}

/// Paying shares asks for transfers alone.
proof fn lemma_paying_extends_nothing(
    e: EnvView,
    s: SplitStreamView,
    amount: int,
    n: int,
    c: HostCall,
)
    requires
        !(c is Transfer),
    ensures
        times_asked(e.pay_shares(s, amount, n).calls, c) == times_asked(e.calls, c),
    decreases n,
{
    broadcast use lemma_times_asked_push;

    if n > 0 {
        lemma_paying_extends_nothing(e, s, amount, n - 1, c);
    }
}

/// Every successful call on a split stream extends the row of the split stream.
pub proof fn calls_on_a_split_stream_extend_its_row(
    e: EnvView,
    stream_id: u64,
    recipient: Address,
    amount: i128,
)
    ensures
        ({
            let c = row_extension(e.sequence, DataKey::SplitStream(stream_id));
            let before = times_asked(e.calls, c);
            &&& times_asked(e.withdraw_split(stream_id, recipient, amount).calls, c) > before
            &&& times_asked(e.cancel_split(stream_id).calls, c) > before
        }),
{
    broadcast use lemma_times_asked_push;

    let c = row_extension(e.sequence, DataKey::SplitStream(stream_id));
    let s = e.splits[stream_id];
    let asked = e.read_split(stream_id).demand(s.sender);
    let n = s.allocations.len() as int;
    lemma_paying_extends_nothing(asked, s, s.vested(e.timestamp), n, c);
    crate::books::lemma_payments_touch_no_row(asked, s, s.vested(e.timestamp), n);
}

/// A new split stream's row is extended.
pub proof fn split_creation_extends_the_new_row(
    e: EnvView,
    sender: Address,
    token: Address,
    total_amount: i128,
    start_time: u64,
    end_time: u64,
    recipients: Seq<Address>,
    weights: Seq<u64>,
    id: u64,
)
    requires
        e.stream_count == Some(id) || (e.stream_count is None && id == 1),
    ensures
        ({
            let c = row_extension(e.sequence, DataKey::SplitStream(id));
            times_asked(
                e.create_split(
                    sender,
                    token,
                    total_amount,
                    start_time,
                    end_time,
                    recipients,
                    weights,
                ).calls,
                c,
            ) > times_asked(e.calls, c)
        }),
{
    broadcast use lemma_times_asked_push;

}

/// Every call that changes the configuration extends the instance, a week or a
/// month ahead; taking an id does so too.
pub proof fn configuration_extends_the_instance(
    e: EnvView,
    a: Address,
    flag: bool,
    n: u64,
    bps: u32,
    threshold: u32,
    extend_to: u32,
)
    requires
        threshold == (if e.sequence + 120_960 > u32::MAX {
            u32::MAX as int
        } else {
            e.sequence + 120_960
        }),
        extend_to == (if e.sequence + 518_400 > u32::MAX {
            u32::MAX as int
        } else {
            e.sequence + 518_400
        }),
    ensures
        ({
            let c = HostCall::ExtendInstance { threshold, extend_to };
            let once = times_asked(e.calls, c) + 1;
            &&& times_asked(e.write_admin(a).calls, c) == once
            &&& times_asked(e.write_paused(flag).calls, c) == once
            &&& times_asked(e.write_fee_bps(bps).calls, c) == once
            &&& times_asked(e.write_default_fee(bps).calls, c) == once
            &&& times_asked(e.write_fee_collector(a).calls, c) == once
            &&& times_asked(e.write_stream_limit(n).calls, c) == once
            &&& times_asked(e.write_nonce(n).calls, c) == once
            &&& times_asked(e.take_stream_id().calls, c) == once
        }),
{
    broadcast use lemma_times_asked_push;

}

} // verus!
