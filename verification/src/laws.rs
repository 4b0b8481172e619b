//! Laws that span several entrypoints: the global pause, refused calls, read-only
//! calls, who is paid by a withdrawal, and the limit on live streams.
use vstd::prelude::*;

use crate::books::{lemma_live_count_bounds, live, live_count};
use crate::env::EnvView;
use crate::error::Error;
use crate::escrow::{flow, lemma_flow_push};
use crate::fees::{
    fee_and_net_make_up_the_amount, fee_split, stream_split_makes_up_the_amount,
};
use crate::host::{Address, HostCall, WasmHash};
use crate::release::vested;
use crate::storage::Stream;
use crate::views::StreamFilter;
use crate::withdrawal::{draw_refusal, drawn};

verus! {

// ── The global pause ────────────────────────────────────────────────────────

/// While the pause is on, no stream is created, whatever the terms.
pub proof fn pause_blocks_creation(
    e: EnvView,
    sender: Address,
    recipient: Address,
    token: Address,
    total_amount: i128,
    start_time: u64,
    end_time: u64,
    fee_bps: u32,
    recipient_balance: i128,
    recipients: Seq<Address>,
    weights: Seq<u64>,
)
    requires
        e.is_paused(),
    ensures
        e.create_refusal(
            sender,
            recipient,
            token,
            total_amount,
            start_time,
            end_time,
            fee_bps,
            recipient_balance,
        ) == Some(Error::ContractPaused),
        e.draft_refusal(sender, recipient, token, total_amount, start_time) == Some(
            Error::ContractPaused,
        ),
        e.create_split_refusal(
            sender,
            token,
            total_amount,
            start_time,
            end_time,
            recipients,
            weights,
        ) == Some(Error::ContractPaused),
{
}

/// While the pause is on, nothing is withdrawn, and no stream is started,
/// settled or amended: the entrypoints that need a running contract refuse
/// whatever else they would find.
pub proof fn pause_blocks_payment_and_change(
    e: EnvView,
    caller: Address,
    stream_id: u64,
    amount: i128,
    max_fee_bps: u32,
    why: Option<Error>,
)
    requires
        e.is_paused(),
    ensures
        e.withdraw_refusal(caller, stream_id, amount) == Some(Error::ContractPaused),
        e.withdraw_split_refusal(stream_id, caller, amount) == Some(Error::ContractPaused),
        e.guarded_refusal(stream_id, amount, max_fee_bps) == (if e.protocol_fee() > max_fee_bps {
            Some(Error::FeeTooHigh)
        } else {
            Some(Error::ContractPaused)
        }),
        e.running_refusal(stream_id, why) == Some(Error::ContractPaused),
{
}

/// The pause makes no difference to the checks of the other entrypoints: those
/// of the admin, and pausing, resuming and cancelling a stream.
pub proof fn pause_spares_the_rest(
    e: EnvView,
    paused: bool,
    admin: Address,
    stream_id: u64,
    why: Option<Error>,
)
    ensures
        e.write_paused(paused).admin_refusal(admin) == e.admin_refusal(admin),
        e.write_paused(paused).stream_refusal(stream_id, why) == e.stream_refusal(stream_id, why),
        e.write_paused(paused).streams == e.streams,
        e.write_paused(paused).splits == e.splits,
{
}

// ── Refused and read-only calls ─────────────────────────────────────────────

/// A refused call writes nothing and asks nothing of the host. At most it has
/// demanded an authorisation.
pub proof fn refused_calls_leave_no_trace(
    e: EnvView,
    a: Address,
    stream_id: u64,
    amount: i128,
    max_fee_bps: u32,
)
    ensures
        e.fail_create(a) == (EnvView { auths: e.fail_create(a).auths, ..e }),
        e.fail_withdraw(a, stream_id, amount) == (EnvView {
            auths: e.fail_withdraw(a, stream_id, amount).auths,
            ..e
        }),
        e.fail_guarded(stream_id, amount, max_fee_bps) == (EnvView {
            auths: e.fail_guarded(stream_id, amount, max_fee_bps).auths,
            ..e
        }),
        e.fail_withdraw_split(stream_id, a, amount) == (EnvView {
            auths: e.fail_withdraw_split(stream_id, a, amount).auths,
            ..e
        }),
        e.ask_sender(stream_id) == (EnvView { auths: e.ask_sender(stream_id).auths, ..e }),
        e.ask_sender_unless_paused(stream_id) == (EnvView {
            auths: e.ask_sender_unless_paused(stream_id).auths,
            ..e
        }),
{
}

/// Read-only calls write nothing and demand no authorisation; they only extend
/// what they read.
pub proof fn views_write_nothing(
    e: EnvView,
    a: Address,
    b: Address,
    stream_id: u64,
    filter: StreamFilter,
    start_after: Option<u64>,
    limit: u64,
)
    ensures
        e.read_stream(stream_id).only_calls_added(e),
        e.read_split(stream_id).only_calls_added(e),
        e.read_stream(stream_id).read_withdrawers(stream_id).only_calls_added(e),
        e.read_stream(stream_id).read_stream_fee(stream_id).only_calls_added(e),
        e.read_paused().only_calls_added(e),
        e.read_fee_bps().only_calls_added(e),
        e.read_fee_collector().only_calls_added(e),
        e.read_default_fee().only_calls_added(e),
        e.read_nonce().only_calls_added(e),
        e.read_stream_limit().read_sender_count(a).only_calls_added(e),
        e.read_org_token(a, b).read_token(b).only_calls_added(e),
        e.list(filter, start_after, limit).only_calls_added(e),
{
    broadcast use crate::env::group_calls_added;

    crate::views::lemma_read_streams(
        e,
        crate::views::first_after(start_after),
        if e.listed_ids(filter, start_after).len() > crate::views::page_room(limit) {
            e.listed_ids(filter, start_after)[crate::views::page_room(limit)] + 1
        } else {
            e.next_id() as int
        },
    );
}

/// An upgrade keeps every storage row.
pub proof fn upgrade_keeps_storage(e: EnvView, admin: Address, hash: WasmHash)
    ensures
        e.pass_admin(admin).call(HostCall::ReplaceCode { hash }).only_calls_added(e.demand(admin)),
{
    broadcast use crate::env::group_calls_added;

}

// ── Who is paid by a withdrawal ─────────────────────────────────────────────

/// What is open of a stream falls by exactly what is drawn, so nothing can be
/// drawn twice.
pub proof fn draws_use_up_the_open_amount(s: Stream, amount: i128, now: u64)
    requires
        crate::books::record_in_order(s),
        amount > 0,
        draw_refusal(s, amount, now) is None,
    ensures
        drawn(s, amount, now).released_amount == s.released_amount + amount,
        vested(drawn(s, amount, now), now) == vested(s, now),
        drawn(s, amount, now).released_amount <= vested(s, now),
        drawn(s, amount, now).status is Settled <==> s.released_amount + amount == s.total_amount,
{
    crate::release::vested_is_bounded(s, now);
}

/// Without a fee collector the recipient gets the whole amount, whatever the fee
/// of the stream is.
pub proof fn recipient_gets_everything_without_a_collector(
    e: EnvView,
    caller: Address,
    stream_id: u64,
    amount: i128,
)
    requires
        e.books_in_order(),
        e.withdraw_refusal(caller, stream_id, amount) is None,
        e.fee_collector is None,
        e.streams[stream_id].recipient != e.contract_address,
    ensures
        flow(
            e.withdraw(caller, stream_id, amount).calls,
            e.streams[stream_id].token,
            e.streams[stream_id].recipient,
        ) == flow(e.calls, e.streams[stream_id].token, e.streams[stream_id].recipient) + amount,
{
    broadcast use lemma_flow_push;

    assert(e.stream_in_order(stream_id));
    stream_split_makes_up_the_amount(amount, e.streams[stream_id].fee_bps, e.fee_collector);
}

/// Without a fee collector the fee of a stream is no reason to refuse a
/// withdrawal, however large the amount is.
pub proof fn fees_refuse_nothing_without_a_collector(
    e: EnvView,
    caller: Address,
    stream_id: u64,
    amount: i128,
)
    requires
        e.fee_collector is None,
        !e.is_paused(),
        amount > 0,
        e.streams.contains_key(stream_id),
        e.may_withdraw(stream_id, caller, e.streams[stream_id].recipient),
    ensures
        e.withdraw_refusal(caller, stream_id, amount) == draw_refusal(
            e.streams[stream_id],
            amount,
            e.timestamp,
        ),
{
}

/// With a fee collector the fee goes to it, and the rest to the recipient.
pub proof fn collector_gets_the_fee(
    e: EnvView,
    caller: Address,
    stream_id: u64,
    amount: i128,
    collector: Address,
)
    requires
        e.books_in_order(),
        e.withdraw_refusal(caller, stream_id, amount) is None,
        e.fee_collector == Some(collector),
        e.streams[stream_id].recipient != e.contract_address,
        collector != e.contract_address,
        collector != e.streams[stream_id].recipient,
    ensures
        ({
            let s = e.streams[stream_id];
            let split = fee_split(amount, s.fee_bps)->Ok_0;
            let calls = e.withdraw(caller, stream_id, amount).calls;
            &&& flow(calls, s.token, collector) == flow(e.calls, s.token, collector)
                + split.fee_amount
            &&& flow(calls, s.token, s.recipient) == flow(e.calls, s.token, s.recipient)
                + split.net_amount
            &&& split.fee_amount + split.net_amount == amount
        }),
{
    broadcast use lemma_flow_push;

    assert(e.stream_in_order(stream_id));
    stream_split_makes_up_the_amount(amount, e.streams[stream_id].fee_bps, e.fee_collector);
}

/// A guarded withdrawal is refused for its fee exactly when the protocol fee is
/// above what the caller accepts, and then nothing has happened at all.
pub proof fn fee_guard_is_exact(e: EnvView, stream_id: u64, amount: i128, max_fee_bps: u32)
    ensures
        e.guarded_refusal(stream_id, amount, max_fee_bps) == Some(Error::FeeTooHigh)
            <==> e.protocol_fee() > max_fee_bps,
        e.protocol_fee() > max_fee_bps ==> e.fail_guarded(stream_id, amount, max_fee_bps) == e,
{
}

/// With a protocol fee the admin gets it, and the recipient the rest.
pub proof fn admin_gets_the_protocol_fee(
    e: EnvView,
    stream_id: u64,
    amount: i128,
    max_fee_bps: u32,
    admin: Address,
)
    requires
        e.books_in_order(),
        e.guarded_refusal(stream_id, amount, max_fee_bps) is None,
        e.admin == Some(admin),
        e.streams[stream_id].recipient != e.contract_address,
        admin != e.contract_address,
        admin != e.streams[stream_id].recipient,
    ensures
        ({
            let s = e.streams[stream_id];
            let split = fee_split(amount, e.protocol_fee())->Ok_0;
            let calls = e.withdraw_guarded(stream_id, amount).calls;
            &&& flow(calls, s.token, admin) == flow(e.calls, s.token, admin) + split.fee_amount
            &&& flow(calls, s.token, s.recipient) == flow(e.calls, s.token, s.recipient)
                + split.net_amount
            &&& split.fee_amount + split.net_amount == amount
        }),
{
    broadcast use lemma_flow_push;

    assert(e.stream_in_order(stream_id));
    fee_and_net_make_up_the_amount(amount, e.protocol_fee());
}

/// Without a protocol fee a guarded withdrawal does what a plain one without a
/// stream fee does: the same rows, and the same funds for everyone.
pub proof fn guarded_withdraw_without_fee_is_plain(
    e: EnvView,
    stream_id: u64,
    amount: i128,
    max_fee_bps: u32,
    account: Address,
    asset: Address,
)
    requires
        e.protocol_fee() == 0,
        e.streams[stream_id].fee_bps == 0,
        e.guarded_refusal(stream_id, amount, max_fee_bps) is None,
    ensures
        e.withdraw_refusal(e.streams[stream_id].recipient, stream_id, amount) is None,
        ({
            let plain = e.withdraw(e.streams[stream_id].recipient, stream_id, amount);
            let guarded = e.withdraw_guarded(stream_id, amount);
            &&& guarded == (EnvView { calls: guarded.calls, ..plain })
            &&& flow(guarded.calls, asset, account) == flow(plain.calls, asset, account)
        }),
{
    broadcast use lemma_flow_push;

    crate::fees::no_fee_takes_nothing(amount);
}

// ── The limit on live streams ───────────────────────────────────────────────

/// A stream that ends makes room: its sender has one live stream less, and a
/// sender who was at the limit may create one again.
pub proof fn ended_streams_make_room(e: EnvView, stream_id: u64)
    requires
        e.books_in_order(),
        e.streams.contains_key(stream_id),
        !e.streams[stream_id].status.terminal(),
    ensures
        e.cancel(stream_id).sender_count(e.streams[stream_id].sender) == e.sender_count(
            e.streams[stream_id].sender,
        ) - 1,
        e.settle(stream_id).sender_count(e.streams[stream_id].sender) == e.sender_count(
            e.streams[stream_id].sender,
        ) - 1,
        e.sender_count(e.streams[stream_id].sender) == e.stream_limit() ==> e.cancel(
            stream_id,
        ).sender_count(e.streams[stream_id].sender) < e.cancel(stream_id).stream_limit(),
{
    let sender = e.streams[stream_id].sender;
    assert(e.stream_in_order(stream_id));
    assert(e.sender_count(sender) == live_count(e.streams, sender, e.next_id() as int));
    lemma_live_stream_is_counted(e.streams, stream_id, e.next_id() as int);
}

/// A live stream is counted for its sender.
proof fn lemma_live_stream_is_counted(streams: Map<u64, Stream>, id: u64, n: int)
    requires
        streams.contains_key(id),
        !streams[id].status.terminal(),
        1 <= id < n <= u64::MAX,
    ensures
        live_count(streams, streams[id].sender, n) >= 1,
    decreases n,
{
    let sender = streams[id].sender;
    if id < n - 1 {
        lemma_live_stream_is_counted(streams, id, n - 1);
    } else {
        lemma_live_count_bounds(streams, sender, n - 1);
        assert(live(streams[id], sender) == 1);
    }
}

/// A sender without a live stream counts none.
pub proof fn senders_without_live_streams_count_none(e: EnvView, sender: Address)
    requires
        e.books_in_order(),
        forall|id: u64| #[trigger]
            e.streams.contains_key(id) && e.streams[id].sender == sender
                ==> e.streams[id].status.terminal(),
    ensures
        e.sender_count(sender) == 0,
{
    assert(e.sender_count(sender) == live_count(e.streams, sender, e.next_id() as int));
    lemma_no_live_stream(e.streams, sender, e.next_id() as int);
}

/// Without a live stream the count is zero.
proof fn lemma_no_live_stream(streams: Map<u64, Stream>, sender: Address, n: int)
    requires
        forall|id: u64| #[trigger]
            streams.contains_key(id) && streams[id].sender == sender
                ==> streams[id].status.terminal(),
    ensures
        live_count(streams, sender, n) == 0,
    decreases n,
{
    if n > 1 {
        lemma_no_live_stream(streams, sender, n - 1);
    }
}

} // verus!
