//! What holds of the contract's rows at all times: every record is in order, the
//! recorded fees and counts agree with the records, and every entrypoint keeps
//! it so.
use vstd::prelude::*;

use crate::env::EnvView;
use crate::fees::MAX_FEE_BPS;
use crate::host::Address;
use crate::release::amounts_in_order;
use crate::storage::Stream;

verus! {

/// 1 if `s` is a stream of `sender` that is not over, else 0.
pub open spec fn live(s: Stream, sender: Address) -> int {
    if s.sender == sender && !s.status.terminal() {
        1
    } else {
        0
    }
}

/// The number of streams of `sender` below id `n` that are not over.
pub open spec fn live_count(streams: Map<u64, Stream>, sender: Address, n: int) -> int
    decreases n,
{
    if n <= 1 {
        0
    } else {
        let id = (n - 1) as u64;
        live_count(streams, sender, n - 1) + if streams.contains_key(id) {
            live(streams[id], sender)
        } else {
            0
        }
    }
}

/// Whether a record makes sense by itself.
pub open spec fn record_in_order(s: Stream) -> bool {
    &&& s.total_amount > 0
    &&& amounts_in_order(s)
    &&& s.sender != s.recipient
    &&& s.fee_bps <= MAX_FEE_BPS
    &&& s.status is Draft ==> s.released_amount == 0 && s.duration > 0
    &&& s.status is Settled ==> s.released_amount == s.total_amount
    &&& s.status.payable() ==> s.start_time < s.end_time && s.released_amount < s.total_amount
    &&& !(s.status is Ended)
}

impl EnvView {
    /// Whether the row of a stream is in order: it stands under its own id, the
    /// id was handed out, and its fee is recorded.
    pub open spec fn stream_in_order(self, id: u64) -> bool {
        let s = self.streams[id];
        &&& record_in_order(s)
        &&& s.id == id
        &&& 1 <= id < self.next_id()
        &&& self.stream_fees.contains_key(id)
        &&& self.stream_fees[id] == s.fee_bps
    }

    /// The same for the row of a split stream; no id belongs to both.
    pub open spec fn split_in_order(self, id: u64) -> bool {
        let s = self.splits[id];
        &&& s.in_order()
        &&& s.updated_by(self.timestamp)
        &&& s.id == id
        &&& 1 <= id < self.next_id()
        &&& !self.streams.contains_key(id)
    }

    /// Whether every row is in order, fees are at most 100 %, no withdrawer is
    /// listed twice, and the recorded number of live streams of each sender is
    /// the true one.
    pub open spec fn books_in_order(self) -> bool {
        &&& self.next_id() >= 1
        &&& forall|id: u64| #[trigger] self.streams.contains_key(id) ==> self.stream_in_order(id)
        &&& forall|id: u64| #[trigger] self.splits.contains_key(id) ==> self.split_in_order(id)
        &&& forall|id: u64| #[trigger]
            self.withdrawers.contains_key(id) ==> self.withdrawers[id].no_duplicates()
        &&& self.protocol_fee() <= MAX_FEE_BPS
        &&& self.default_fee() <= MAX_FEE_BPS
        &&& forall|a: Address| #[trigger]
            self.sender_count(a) == live_count(self.streams, a, self.next_id() as int)
    }

    /// Whether `self` and `before` agree on everything that
    /// [`EnvView::books_in_order`] speaks of, apart from streams and counts.
    spec fn same_frame(self, before: EnvView) -> bool {
        &&& self.timestamp == before.timestamp
        &&& self.stream_count == before.stream_count
        &&& self.stream_fees == before.stream_fees
        &&& self.splits == before.splits
        &&& self.withdrawers == before.withdrawers
        &&& self.fee_bps == before.fee_bps
        &&& self.default_fee_bps == before.default_fee_bps
    }
}

/// How the number of live streams changes with one row.
proof fn lemma_live_count_insert(
    streams: Map<u64, Stream>,
    id: u64,
    s: Stream,
    sender: Address,
    n: int,
)
    requires
        1 <= id,
        n <= u64::MAX,
    ensures
        live_count(streams.insert(id, s), sender, n) == live_count(streams, sender, n) + (if id
            < n {
            live(s, sender) - if streams.contains_key(id) {
                live(streams[id], sender)
            } else {
                0
            }
        } else {
            0
        }),
    decreases n,
{
    if n > 1 {
        lemma_live_count_insert(streams, id, s, sender, n - 1);
    }
}

/// There are no more live streams than ids.
pub(crate) proof fn lemma_live_count_bounds(streams: Map<u64, Stream>, sender: Address, n: int)
    ensures
        0 <= live_count(streams, sender, n),
        n >= 1 ==> live_count(streams, sender, n) < n,
    decreases n,
{
    if n > 1 {
        lemma_live_count_bounds(streams, sender, n - 1);
    }
}

/// The books stay in order when the record of a live stream is replaced by
/// another live one of the same sender.
proof fn lemma_replace_live(e: EnvView, after: EnvView, id: u64, s: Stream)
    requires
        e.books_in_order(),
        e.streams.contains_key(id),
        !e.streams[id].status.terminal(),
        after.same_frame(e),
        after.streams == e.streams.insert(id, s),
        after.sender_streams == e.sender_streams,
        record_in_order(s),
        s.id == id,
        s.sender == e.streams[id].sender,
        s.fee_bps == e.streams[id].fee_bps,
        !s.status.terminal(),
    ensures
        after.books_in_order(),
{
    assert(e.stream_in_order(id));
    assert forall|other: u64| #[trigger] after.streams.contains_key(other) implies
        after.stream_in_order(other) by {
        if other != id {
            assert(e.streams.contains_key(other));
        }
    }
    assert forall|other: u64| #[trigger] after.splits.contains_key(other) implies
        after.split_in_order(other) by {
        assert(e.splits.contains_key(other));
        assert(e.split_in_order(other));
    }
    assert forall|a: Address| #[trigger]
        after.sender_count(a) == live_count(after.streams, a, after.next_id() as int) by {
        assert(e.sender_count(a) == live_count(e.streams, a, e.next_id() as int));
        lemma_live_count_insert(e.streams, id, s, a, e.next_id() as int);
    }
}

/// The books stay in order when a live stream ends and its sender's count is
/// lowered.
proof fn lemma_replace_ended(e: EnvView, after: EnvView, id: u64, s: Stream)
    requires
        e.books_in_order(),
        e.streams.contains_key(id),
        !e.streams[id].status.terminal(),
        after.same_frame(e),
        after.streams == e.streams.insert(id, s),
        after.sender_streams == e.drop_sender_stream(s.sender).sender_streams,
        record_in_order(s),
        s.id == id,
        s.sender == e.streams[id].sender,
        s.fee_bps == e.streams[id].fee_bps,
        s.status.terminal(),
    ensures
        after.books_in_order(),
{
    assert(e.stream_in_order(id));
    assert forall|other: u64| #[trigger] after.streams.contains_key(other) implies
        after.stream_in_order(other) by {
        if other != id {
            assert(e.streams.contains_key(other));
        }
    }
    assert forall|other: u64| #[trigger] after.splits.contains_key(other) implies
        after.split_in_order(other) by {
        assert(e.splits.contains_key(other));
        assert(e.split_in_order(other));
    }
    assert forall|a: Address| #[trigger]
        after.sender_count(a) == live_count(after.streams, a, after.next_id() as int) by {
        assert(e.sender_count(a) == live_count(e.streams, a, e.next_id() as int));
        lemma_live_count_insert(e.streams, id, s, a, e.next_id() as int);
        lemma_live_count_bounds(after.streams, a, e.next_id() as int);
    }
}

/// Split streams stay in order when neither they nor the ids change, and the
/// clock does not run backwards.
proof fn lemma_splits_stay(e: EnvView, after: EnvView)
    requires
        e.books_in_order(),
        after.splits == e.splits,
        after.streams == e.streams,
        after.stream_count == e.stream_count,
        e.timestamp <= after.timestamp,
    ensures
        forall|id: u64| #[trigger] after.splits.contains_key(id) ==> after.split_in_order(id),
{
    assert forall|id: u64| #[trigger] after.splits.contains_key(id) implies after.split_in_order(
        id,
    ) by {
        assert(e.splits.contains_key(id));
        assert(e.split_in_order(id));
    }
}

/// The books stay in order when streams, their fees and the counts do not
/// change, and everything else is in order.
proof fn lemma_same_streams(e: EnvView, after: EnvView)
    requires
        e.books_in_order(),
        after.streams == e.streams,
        after.stream_fees == e.stream_fees,
        after.stream_count == e.stream_count,
        after.sender_streams == e.sender_streams,
        forall|id: u64| #[trigger] after.splits.contains_key(id) ==> after.split_in_order(id),
        forall|id: u64| #[trigger]
            after.withdrawers.contains_key(id) ==> after.withdrawers[id].no_duplicates(),
        after.protocol_fee() <= MAX_FEE_BPS,
        after.default_fee() <= MAX_FEE_BPS,
    ensures
        after.books_in_order(),
{
    assert forall|id: u64| #[trigger] after.streams.contains_key(id) implies
        after.stream_in_order(id) by {
        assert(e.stream_in_order(id));
    }
    assert forall|a: Address| #[trigger]
        after.sender_count(a) == live_count(after.streams, a, after.next_id() as int) by {
        assert(e.sender_count(a) == live_count(e.streams, a, e.next_id() as int));
    }
}

/// The books stay in order when nothing changes that they speak of.
proof fn lemma_unchanged(e: EnvView, after: EnvView)
    requires
        e.books_in_order(),
        after.same_frame(e),
        after.streams == e.streams,
        after.sender_streams == e.sender_streams,
    ensures
        after.books_in_order(),
{
    lemma_splits_stay(e, after);
    lemma_same_streams(e, after);
}

// ── Laws ────────────────────────────────────────────────────────────────────

/// The books of a contract that was just deployed are in order.
pub proof fn fresh_books_are_in_order(contract_address: Address, timestamp: u64, sequence: u32)
    ensures
        EnvView::fresh(contract_address, timestamp, sequence).books_in_order(),
{
    let e = EnvView::fresh(contract_address, timestamp, sequence);
    assert forall|a: Address| #[trigger]
        e.sender_count(a) == live_count(e.streams, a, e.next_id() as int) by {}
}

/// Books in order stay so until a later invocation.
pub proof fn time_keeps_books_in_order(
    e: EnvView,
    timestamp: u64,
    sequence: u32,
    auths: Seq<Address>,
    calls: Seq<crate::host::HostCall>,
)
    requires
        e.books_in_order(),
        e.timestamp <= timestamp,
    ensures
        (EnvView { timestamp, sequence, auths, calls, ..e }).books_in_order(),
{
    let after = EnvView { timestamp, sequence, auths, calls, ..e };
    lemma_splits_stay(e, after);
    lemma_same_streams(e, after);
}

/// Calls that write nothing keep the books in order: read-only ones, and those
/// that are refused.
pub proof fn reading_keeps_books_in_order(e: EnvView, after: EnvView)
    requires
        e.books_in_order(),
        after == (EnvView { auths: after.auths, calls: after.calls, ..e }),
    ensures
        after.books_in_order(),
{
    lemma_unchanged(e, after);
}

/// Opening an admitted stream under an id that is left keeps the books in
/// order, and the id is new.
proof fn lemma_open_stream(e: EnvView, stream: Stream)
    requires
        e.books_in_order(),
        e.next_id() < u64::MAX,
        stream.id == e.next_id(),
        record_in_order(stream),
        !stream.status.terminal(),
    ensures
        e.open_stream(stream).books_in_order(),
        !e.streams.contains_key(stream.id),
        !e.splits.contains_key(stream.id),
{
    let after = e.open_stream(stream);
    let n = e.next_id();
    if e.streams.contains_key(n) {
        assert(e.stream_in_order(n));
    }
    if e.splits.contains_key(n) {
        assert(e.split_in_order(n));
    }
    assert forall|id: u64| #[trigger] after.streams.contains_key(id) implies
        after.stream_in_order(id) by {
        if id != n {
            assert(e.streams.contains_key(id));
            assert(e.stream_in_order(id));
        }
    }
    assert forall|id: u64| #[trigger] after.splits.contains_key(id) implies after.split_in_order(
        id,
    ) by {
        assert(e.splits.contains_key(id));
        assert(e.split_in_order(id));
    }
    assert forall|a: Address| #[trigger]
        after.sender_count(a) == live_count(after.streams, a, after.next_id() as int) by {
        assert(e.sender_count(a) == live_count(e.streams, a, n as int));
        lemma_live_count_insert(e.streams, n, stream, a, n + 1);
        lemma_live_count_bounds(e.streams, a, n as int);
        assert(live_count(e.streams, a, n + 1) == live_count(e.streams, a, n as int));
    }
}

/// `create_stream` keeps the books in order, and its id is new. The id counter
/// must not have reached its last value.
pub proof fn create_keeps_books_in_order(
    e: EnvView,
    sender: Address,
    recipient: Address,
    token: Address,
    total_amount: i128,
    start_time: u64,
    end_time: u64,
    fee_bps: u32,
    recipient_balance: i128,
)
    requires
        e.books_in_order(),
        e.next_id() < u64::MAX,
        e.create_refusal(
            sender,
            recipient,
            token,
            total_amount,
            start_time,
            end_time,
            fee_bps,
            recipient_balance,
        ) is None,
    ensures
        e.create(
            sender,
            recipient,
            token,
            total_amount,
            start_time,
            end_time,
            fee_bps,
        ).books_in_order(),
        !e.streams.contains_key(e.next_id()),
        !e.splits.contains_key(e.next_id()),
{
    let passed = e.pass_create(sender, token);
    lemma_unchanged(e, passed);
    lemma_open_stream(
        passed,
        crate::create::new_stream(
            e.next_id(),
            sender,
            recipient,
            token,
            total_amount,
            start_time,
            end_time,
            fee_bps,
        ),
    );
}

/// The same holds of `create_stream_for_org`, whose first step only reads.
pub proof fn org_create_keeps_books_in_order(e: EnvView, org: Address, token: Address)
    requires
        e.books_in_order(),
    ensures
        e.read_org_token(org, token).books_in_order(),
        e.read_org_token(org, token).only_calls_added(e),
{
    broadcast use crate::env::group_calls_added;

    lemma_unchanged(e, e.read_org_token(org, token));
}

/// `create_draft_stream` keeps the books in order, and its id is new.
pub proof fn create_draft_keeps_books_in_order(
    e: EnvView,
    sender: Address,
    recipient: Address,
    token: Address,
    total_amount: i128,
    duration: u64,
)
    requires
        e.books_in_order(),
        e.next_id() < u64::MAX,
        e.draft_refusal(sender, recipient, token, total_amount, duration) is None,
    ensures
        e.create_draft(sender, recipient, token, total_amount, duration).books_in_order(),
        !e.streams.contains_key(e.next_id()),
        !e.splits.contains_key(e.next_id()),
{
    let passed = e.pass_draft(sender, token).read_default_fee();
    lemma_unchanged(e, passed);
    lemma_open_stream(
        passed,
        crate::create::new_draft(
            e.next_id(),
            sender,
            recipient,
            token,
            total_amount,
            duration,
            e.default_fee(),
        ),
    );
}

/// A draw keeps a record in order and counts what it released.
proof fn lemma_drawn(s: Stream, amount: i128, now: u64)
    requires
        record_in_order(s),
        amount > 0,
        crate::withdrawal::draw_refusal(s, amount, now) is None,
    ensures
        record_in_order(crate::withdrawal::drawn(s, amount, now)),
        crate::withdrawal::drawn(s, amount, now).released_amount == s.released_amount + amount,
        !s.status.terminal(),
{
    crate::release::vested_is_bounded(s, now);
}

/// `withdraw` keeps the books in order.
pub proof fn withdraw_keeps_books_in_order(
    e: EnvView,
    caller: Address,
    stream_id: u64,
    amount: i128,
)
    requires
        e.books_in_order(),
        e.withdraw_refusal(caller, stream_id, amount) is None,
    ensures
        e.withdraw(caller, stream_id, amount).books_in_order(),
{
    let s = e.streams[stream_id];
    assert(e.stream_in_order(stream_id));
    lemma_drawn(s, amount, e.timestamp);
    let after = crate::withdrawal::drawn(s, amount, e.timestamp);
    if after.status is Settled {
        lemma_replace_ended(e, e.withdraw(caller, stream_id, amount), stream_id, after);
    } else {
        lemma_replace_live(e, e.withdraw(caller, stream_id, amount), stream_id, after);
    }
}

/// `withdraw_with_max_fee_bps` keeps the books in order.
pub proof fn guarded_withdraw_keeps_books_in_order(
    e: EnvView,
    stream_id: u64,
    amount: i128,
    max_fee_bps: u32,
)
    requires
        e.books_in_order(),
        e.guarded_refusal(stream_id, amount, max_fee_bps) is None,
    ensures
        e.withdraw_guarded(stream_id, amount).books_in_order(),
{
    let s = e.streams[stream_id];
    assert(e.stream_in_order(stream_id));
    lemma_drawn(s, amount, e.timestamp);
    let after = crate::withdrawal::drawn(s, amount, e.timestamp);
    if after.status is Settled {
        lemma_replace_ended(e, e.withdraw_guarded(stream_id, amount), stream_id, after);
    } else {
        lemma_replace_live(e, e.withdraw_guarded(stream_id, amount), stream_id, after);
    }
}

/// `start_stream`, `pause`, `resume`, `settle` and `cancel_stream` keep the books
/// in order.
pub proof fn lifecycle_keeps_books_in_order(e: EnvView, stream_id: u64)
    requires
        e.books_in_order(),
        e.streams.contains_key(stream_id),
    ensures
        crate::lifecycle::start_refusal(e.streams[stream_id], e.timestamp) is None ==> e.start(
            stream_id,
        ).books_in_order(),
        e.streams[stream_id].status is Active ==> e.pause(stream_id).books_in_order(),
        crate::lifecycle::resume_refusal(e.streams[stream_id], e.timestamp) is None ==> e.resume(
            stream_id,
        ).books_in_order(),
        e.streams[stream_id].status is Settled || crate::lifecycle::settle_refusal(
            e.streams[stream_id],
            e.timestamp,
        ) is None ==> e.settle(stream_id).books_in_order(),
        crate::lifecycle::cancel_refusal(e.streams[stream_id], e.timestamp) is None ==> e.cancel(
            stream_id,
        ).books_in_order(),
{
    let s = e.streams[stream_id];
    let now = e.timestamp;
    assert(e.stream_in_order(stream_id));
    if crate::lifecycle::start_refusal(s, now) is None {
        lemma_replace_live(e, e.start(stream_id), stream_id, crate::lifecycle::started(s, now));
    }
    if s.status is Active {
        lemma_replace_live(e, e.pause(stream_id), stream_id, crate::lifecycle::paused(s, now));
    }
    if crate::lifecycle::resume_refusal(s, now) is None {
        lemma_replace_live(e, e.resume(stream_id), stream_id, crate::lifecycle::resumed(s, now));
    }
    if s.status is Settled {
        lemma_unchanged(e, e.settle(stream_id));
    } else if crate::lifecycle::settle_refusal(s, now) is None {
        lemma_replace_ended(e, e.settle(stream_id), stream_id, crate::lifecycle::settled(s, now));
    }
    if crate::lifecycle::cancel_refusal(s, now) is None {
        crate::release::vested_is_bounded(s, now);
        lemma_replace_ended(e, e.cancel(stream_id), stream_id, crate::lifecycle::cancelled(s, now));
    }
}

/// `amend_stream` keeps the books in order.
pub proof fn amend_keeps_books_in_order(
    e: EnvView,
    stream_id: u64,
    new_rate_per_second: i128,
    new_end_time: u64,
)
    requires
        e.books_in_order(),
        e.streams.contains_key(stream_id),
        crate::lifecycle::amend_refusal(
            e.streams[stream_id],
            new_rate_per_second,
            new_end_time,
            e.timestamp,
        ) is None,
    ensures
        e.amend(stream_id, new_rate_per_second, new_end_time).books_in_order(),
{
    let s = e.streams[stream_id];
    assert(e.stream_in_order(stream_id));
    lemma_replace_live(
        e,
        e.amend(stream_id, new_rate_per_second, new_end_time),
        stream_id,
        crate::lifecycle::amended(s, new_end_time, e.timestamp),
    );
}

/// `admin_override` keeps the books in order.
pub proof fn override_keeps_books_in_order(
    e: EnvView,
    admin: Address,
    nonce: u64,
    stream_id: u64,
    new_end_time: u64,
)
    requires
        e.books_in_order(),
        e.admin_override_refusal(admin, nonce, stream_id, new_end_time) is None,
    ensures
        e.admin_override(admin, nonce, stream_id, new_end_time).books_in_order(),
{
    let s = e.streams[stream_id];
    assert(e.stream_in_order(stream_id));
    lemma_replace_live(
        e,
        e.admin_override(admin, nonce, stream_id, new_end_time),
        stream_id,
        crate::admin::overridden(s, new_end_time, e.timestamp),
    );
}

/// `add_withdrawer` and `remove_withdrawer` keep the books in order.
pub proof fn withdrawer_lists_keep_books_in_order(e: EnvView, stream_id: u64, withdrawer: Address)
    requires
        e.books_in_order(),
    ensures
        e.add_withdrawer(stream_id, withdrawer).books_in_order(),
        e.remove_withdrawer(stream_id, withdrawer).books_in_order(),
        e.withdrawer_list(stream_id).no_duplicates(),
{
    let list = e.withdrawer_list(stream_id);
    assert(list.no_duplicates());
    if list.contains(withdrawer) {
        lemma_unchanged(e, e.add_withdrawer(stream_id, withdrawer));
        list.index_of_first_ensures(withdrawer);
        let i = list.index_of_first(withdrawer)->0;
        let shorter = list.remove_value(withdrawer);
        assert(shorter == list.remove(i));
        lemma_other_list(e, e.remove_withdrawer(stream_id, withdrawer), stream_id, shorter);
    } else {
        lemma_unchanged(e, e.remove_withdrawer(stream_id, withdrawer));
        let longer = list.push(withdrawer);
        assert forall|i: int, j: int| 0 <= i < longer.len() && 0 <= j < longer.len() && i
            != j implies longer[i] != longer[j] by {
            if i < list.len() {
                assert(list.contains(list[i]));
            }
            if j < list.len() {
                assert(list.contains(list[j]));
            }
        }
        lemma_other_list(e, e.add_withdrawer(stream_id, withdrawer), stream_id, longer);
    }
}

/// The books stay in order when a list of withdrawers is replaced by one without
/// repetitions.
proof fn lemma_other_list(e: EnvView, after: EnvView, stream_id: u64, list: Seq<Address>)
    requires
        e.books_in_order(),
        list.no_duplicates(),
        after.withdrawers == e.withdrawers.insert(stream_id, list),
        after == (EnvView { withdrawers: after.withdrawers, calls: after.calls, ..e }),
    ensures
        after.books_in_order(),
{
    lemma_splits_stay(e, after);
    lemma_same_streams(e, after);
}

/// What the admin sets keeps the books in order: the role itself, the pause, the
/// limit, the collector, the rules for tokens, fees of at most 100 %, and the
/// storage version.
pub proof fn settings_keep_books_in_order(
    e: EnvView,
    a: Address,
    b: Address,
    flag: bool,
    limit: u64,
    fee_bps: u32,
)
    requires
        e.books_in_order(),
        fee_bps <= MAX_FEE_BPS,
    ensures
        e.install_admin(a).books_in_order(),
        e.pass_admin(a).books_in_order(),
        e.write_admin(a).books_in_order(),
        e.write_paused(flag).books_in_order(),
        e.write_stream_limit(limit).books_in_order(),
        e.write_fee_collector(a).books_in_order(),
        e.write_token(a, flag).books_in_order(),
        e.write_org_token(a, b, flag).books_in_order(),
        e.write_fee_bps(fee_bps).books_in_order(),
        e.write_default_fee(fee_bps).books_in_order(),
        e.migrate(a).books_in_order(),
{
    lemma_unchanged(e, e.install_admin(a));
    lemma_unchanged(e, e.pass_admin(a));
    lemma_unchanged(e, e.write_admin(a));
    lemma_unchanged(e, e.write_paused(flag));
    lemma_unchanged(e, e.write_stream_limit(limit));
    lemma_unchanged(e, e.write_fee_collector(a));
    lemma_unchanged(e, e.write_token(a, flag));
    lemma_unchanged(e, e.write_org_token(a, b, flag));
    lemma_unchanged(e, e.migrate(a));
    lemma_other_fees(e, e.write_fee_bps(fee_bps));
    lemma_other_fees(e, e.write_default_fee(fee_bps));
}

/// The books stay in order when fees change within bounds.
proof fn lemma_other_fees(e: EnvView, after: EnvView)
    requires
        e.books_in_order(),
        after == (EnvView {
            fee_bps: after.fee_bps,
            default_fee_bps: after.default_fee_bps,
            calls: after.calls,
            ..e
        }),
        after.protocol_fee() <= MAX_FEE_BPS,
        after.default_fee() <= MAX_FEE_BPS,
    ensures
        after.books_in_order(),
{
    lemma_splits_stay(e, after);
    lemma_same_streams(e, after);
}

/// Tokens that are allowed or granted at initialisation keep the books in order.
pub proof fn token_lists_keep_books_in_order(e: EnvView, org: Address, tokens: Seq<Address>)
    requires
        e.books_in_order(),
    ensures
        e.allow_tokens(tokens).books_in_order(),
        e.allow_org_tokens(org, tokens).books_in_order(),
    decreases tokens.len(),
{
    if tokens.len() > 0 {
        token_lists_keep_books_in_order(e, org, tokens.drop_last());
        let listed = e.allow_tokens(tokens.drop_last());
        lemma_unchanged(listed, listed.write_token(tokens.last(), true));
        let granted = e.allow_org_tokens(org, tokens.drop_last());
        lemma_unchanged(granted, granted.write_org_token(org, tokens.last(), true));
    }
}

/// `create_split_stream` keeps the books in order, and its id is new.
pub proof fn create_split_keeps_books_in_order(
    e: EnvView,
    sender: Address,
    token: Address,
    total_amount: i128,
    start_time: u64,
    end_time: u64,
    recipients: Seq<Address>,
    weights: Seq<u64>,
)
    requires
        e.books_in_order(),
        e.next_id() < u64::MAX,
        e.create_split_refusal(
            sender,
            token,
            total_amount,
            start_time,
            end_time,
            recipients,
            weights,
        ) is None,
    ensures
        e.create_split(
            sender,
            token,
            total_amount,
            start_time,
            end_time,
            recipients,
            weights,
        ).books_in_order(),
        !e.streams.contains_key(e.next_id()),
        !e.splits.contains_key(e.next_id()),
{
    crate::shares::new_split_is_in_order(
        e,
        sender,
        token,
        total_amount,
        start_time,
        end_time,
        recipients,
        weights,
    );
    let n = e.next_id();
    let after = e.create_split(
        sender,
        token,
        total_amount,
        start_time,
        end_time,
        recipients,
        weights,
    );
    if e.streams.contains_key(n) {
        assert(e.stream_in_order(n));
    }
    if e.splits.contains_key(n) {
        assert(e.split_in_order(n));
    }
    assert forall|id: u64| #[trigger] after.streams.contains_key(id) implies
        after.stream_in_order(id) by {
        assert(e.stream_in_order(id));
    }
    assert forall|id: u64| #[trigger] after.splits.contains_key(id) implies after.split_in_order(
        id,
    ) by {
        if id != n {
            assert(e.splits.contains_key(id));
            assert(e.split_in_order(id));
        }
    }
    assert forall|a: Address| #[trigger]
        after.sender_count(a) == live_count(after.streams, a, after.next_id() as int) by {
        assert(e.sender_count(a) == live_count(e.streams, a, n as int));
        assert(live_count(e.streams, a, n + 1) == live_count(e.streams, a, n as int));
    }
}

/// The books stay in order when the row of a split stream is replaced by one in
/// order.
proof fn lemma_other_split(
    e: EnvView,
    after: EnvView,
    stream_id: u64,
    s: crate::multi::SplitStreamView,
)
    requires
        e.books_in_order(),
        e.splits.contains_key(stream_id),
        after.splits == e.splits.insert(stream_id, s),
        after == (EnvView { splits: after.splits, auths: after.auths, calls: after.calls, ..e }),
        s.in_order(),
        s.updated_by(e.timestamp),
        s.id == stream_id,
    ensures
        after.books_in_order(),
{
    assert(e.split_in_order(stream_id));
    assert forall|id: u64| #[trigger] after.splits.contains_key(id) implies after.split_in_order(
        id,
    ) by {
        if id != stream_id {
            assert(e.splits.contains_key(id));
            assert(e.split_in_order(id));
        }
    }
    lemma_same_streams(e, after);
}

/// `withdraw_split` keeps the books in order.
pub proof fn withdraw_split_keeps_books_in_order(
    e: EnvView,
    stream_id: u64,
    recipient: Address,
    amount: i128,
)
    requires
        e.books_in_order(),
        e.withdraw_split_refusal(stream_id, recipient, amount) is None,
    ensures
        e.withdraw_split(stream_id, recipient, amount).books_in_order(),
{
    let s = e.splits[stream_id];
    assert(e.split_in_order(stream_id));
    crate::shares::draws_keep_splits_in_order(s, recipient, amount, e.timestamp);
    lemma_other_split(
        e,
        e.withdraw_split(stream_id, recipient, amount),
        stream_id,
        s.drawn(recipient, amount, e.timestamp),
    );
}

/// Payments to recipients of a split stream touch no row.
pub(crate) proof fn lemma_payments_touch_no_row(
    e: EnvView,
    s: crate::multi::SplitStreamView,
    amount: int,
    n: int,
)
    ensures
        e.pay_shares(s, amount, n) == (EnvView { calls: e.pay_shares(s, amount, n).calls, ..e }),
    decreases n,
{
    if n > 0 {
        lemma_payments_touch_no_row(e, s, amount, n - 1);
    }
}

/// `cancel_split_stream` keeps the books in order.
pub proof fn cancel_split_keeps_books_in_order(e: EnvView, stream_id: u64)
    requires
        e.books_in_order(),
        e.splits.contains_key(stream_id),
        e.splits[stream_id].cancel_refusal(e.timestamp) is None,
    ensures
        e.cancel_split(stream_id).books_in_order(),
{
    let s = e.splits[stream_id];
    let now = e.timestamp;
    assert(e.split_in_order(stream_id));
    crate::shares::cancellation_pays_every_share(s, now, s.sender, now);
    lemma_payments_touch_no_row(
        e.read_split(stream_id).demand(s.sender),
        s,
        s.vested(now),
        s.allocations.len() as int,
    );
    lemma_other_split(e, e.cancel_split(stream_id), stream_id, s.cancelled(now));
}

} // verus!
