//! The escrow: what the contract owes of a token, what its host calls move, and
//! that no entrypoint lets it owe more than it holds, as long as the contract is
//! not itself the sender of a stream.
use vstd::prelude::*;

use crate::books::{lemma_payments_touch_no_row, record_in_order};
use crate::env::EnvView;
use crate::fees::{fee_and_net_make_up_the_amount, stream_split_makes_up_the_amount};
use crate::host::{Address, HostCall};
use crate::lifecycle::{cancel_refusal, resume_refusal, settle_refusal, start_refusal};
use crate::multi::SplitStreamView;
use crate::shares::{sum_released, sum_shares};
use crate::storage::Stream;

verus! {

/// What a host call adds to the balance that `contract` has of `token`.
pub open spec fn flow_of(c: HostCall, token: Address, contract: Address) -> int {
    match c {
        HostCall::Transfer { token: moved, from, to, amount } => if moved == token {
            (if to == contract {
                amount as int
            } else {
                0
            }) - (if from == contract {
                amount as int
            } else {
                0
            })
        } else {
            0
        },
        _ => 0,
    }
}

/// What a list of host calls adds to that balance.
pub open spec fn flow(calls: Seq<HostCall>, token: Address, contract: Address) -> int
    decreases calls.len(),
{
    if calls.len() == 0 {
        0
    } else {
        flow(calls.drop_last(), token, contract) + flow_of(calls.last(), token, contract)
    }
}

/// What a stream that is not over has left of `token` in the escrow.
pub open spec fn held_by(s: Stream, token: Address) -> int {
    if s.token == token && !s.status.terminal() {
        s.total_amount - s.released_amount
    } else {
        0
    }
}

/// The same for all streams below id `n`.
pub open spec fn held(streams: Map<u64, Stream>, token: Address, n: int) -> int
    decreases n,
{
    if n <= 1 {
        0
    } else {
        let id = (n - 1) as u64;
        held(streams, token, n - 1) + if streams.contains_key(id) {
            held_by(streams[id], token)
        } else {
            0
        }
    }
}

/// What a split stream that is not over has left of `token` in the escrow.
pub open spec fn split_held_by(s: SplitStreamView, token: Address) -> int {
    if s.token == token && !s.status.terminal() {
        s.total_amount - sum_released(s.allocations, s.allocations.len() as int)
    } else {
        0
    }
}

/// The same for all split streams below id `n`.
pub open spec fn split_held(splits: Map<u64, SplitStreamView>, token: Address, n: int) -> int
    decreases n,
{
    if n <= 1 {
        0
    } else {
        let id = (n - 1) as u64;
        split_held(splits, token, n - 1) + if splits.contains_key(id) {
            split_held_by(splits[id], token)
        } else {
            0
        }
    }
}

impl EnvView {
    /// What the contract owes of `token` to senders and recipients.
    pub open spec fn owed(self, token: Address) -> int {
        held(self.streams, token, self.next_id() as int) + split_held(
            self.splits,
            token,
            self.next_id() as int,
        )
    }

    /// What the host calls so far add to the contract's balance of `token`, less
    /// what the contract owes of it. While this does not fall, a balance that
    /// covered what was owed before the calls covers it after them.
    pub open spec fn surplus(self, token: Address) -> int {
        flow(self.calls, token, self.contract_address) - self.owed(token)
    }
}

/// One more call adds what it moves.
pub broadcast proof fn lemma_flow_push(
    calls: Seq<HostCall>,
    c: HostCall,
    token: Address,
    contract: Address,
)
    ensures
        #[trigger] flow(calls.push(c), token, contract) == flow(calls, token, contract) + flow_of(
            c,
            token,
            contract,
        ),
{
    assert(calls.push(c).drop_last() =~= calls);
}

/// How the escrow changes with one row.
proof fn lemma_held_insert(streams: Map<u64, Stream>, id: u64, s: Stream, token: Address, n: int)
    requires
        1 <= id,
        n <= u64::MAX,
    ensures
        held(streams.insert(id, s), token, n) == held(streams, token, n) + (if id < n {
            held_by(s, token) - if streams.contains_key(id) {
                held_by(streams[id], token)
            } else {
                0
            }
        } else {
            0
        }),
    decreases n,
{
    if n > 1 {
        lemma_held_insert(streams, id, s, token, n - 1);
    }
}

/// The same for the row of a split stream.
proof fn lemma_split_held_insert(
    splits: Map<u64, SplitStreamView>,
    id: u64,
    s: SplitStreamView,
    token: Address,
    n: int,
)
    requires
        1 <= id,
        n <= u64::MAX,
    ensures
        split_held(splits.insert(id, s), token, n) == split_held(splits, token, n) + (if id < n {
            split_held_by(s, token) - if splits.contains_key(id) {
                split_held_by(splits[id], token)
            } else {
                0
            }
        } else {
            0
        }),
    decreases n,
{
    if n > 1 {
        lemma_split_held_insert(splits, id, s, token, n - 1);
    }
}

/// What is owed, when the record of one stream is replaced.
proof fn lemma_owed_after(e: EnvView, after: EnvView, id: u64, s: Stream, token: Address)
    requires
        e.books_in_order(),
        e.streams.contains_key(id),
        after.streams == e.streams.insert(id, s),
        after.splits == e.splits,
        after.stream_count == e.stream_count,
    ensures
        after.owed(token) == e.owed(token) + held_by(s, token) - held_by(e.streams[id], token),
{
    assert(e.stream_in_order(id));
    lemma_held_insert(e.streams, id, s, token, e.next_id() as int);
}

// ── Laws ────────────────────────────────────────────────────────────────────

/// Creating a stream escrows exactly what is owed for it. The sender is not the
/// contract itself, which would only move its own funds.
pub proof fn create_is_fully_funded(
    e: EnvView,
    sender: Address,
    recipient: Address,
    token: Address,
    total_amount: i128,
    start_time: u64,
    end_time: u64,
    fee_bps: u32,
    recipient_balance: i128,
    asset: Address,
)
    requires
        e.books_in_order(),
        e.next_id() < u64::MAX,
        sender != e.contract_address,
        e.create_refusal(
            sender,
            recipient,
            token,
            total_amount,
            start_time,
            end_time,
            fee_bps,
            recipient_balance,
        ) is None,
    ensures
        e.create(
            sender,
            recipient,
            token,
            total_amount,
            start_time,
            end_time,
            fee_bps,
        ).surplus(asset) == e.surplus(asset),
{
    broadcast use lemma_flow_push;

    crate::books::create_keeps_books_in_order(
        e,
        sender,
        recipient,
        token,
        total_amount,
        start_time,
        end_time,
        fee_bps,
        recipient_balance,
    );
    let s = crate::create::new_stream(
        e.next_id(),
        sender,
        recipient,
        token,
        total_amount,
        start_time,
        end_time,
        fee_bps,
    );
    let n = e.next_id() as int;
    lemma_held_insert(e.streams, e.next_id(), s, asset, n + 1);
}

/// Creating a draft escrows exactly what is owed for it.
pub proof fn create_draft_is_fully_funded(
    e: EnvView,
    sender: Address,
    recipient: Address,
    token: Address,
    total_amount: i128,
    duration: u64,
    asset: Address,
)
    requires
        e.books_in_order(),
        e.next_id() < u64::MAX,
        sender != e.contract_address,
        e.draft_refusal(sender, recipient, token, total_amount, duration) is None,
    ensures
        e.create_draft(sender, recipient, token, total_amount, duration).surplus(asset)
            == e.surplus(asset),
{
    broadcast use lemma_flow_push;

    crate::books::create_draft_keeps_books_in_order(
        e,
        sender,
        recipient,
        token,
        total_amount,
        duration,
    );
    let s = crate::create::new_draft(
        e.next_id(),
        sender,
        recipient,
        token,
        total_amount,
        duration,
        e.default_fee(),
    );
    let n = e.next_id() as int;
    lemma_held_insert(e.streams, e.next_id(), s, asset, n + 1);
}

/// What a draw leaves in the escrow.
proof fn lemma_held_after_draw(s: Stream, amount: i128, now: u64, token: Address)
    requires
        record_in_order(s),
        amount > 0,
        crate::withdrawal::draw_refusal(s, amount, now) is None,
    ensures
        held_by(crate::withdrawal::drawn(s, amount, now), token) == held_by(s, token) - (if s.token
            == token {
            amount as int
        } else {
            0
        }),
{
    crate::release::vested_is_bounded(s, now);
}

/// A withdrawal pays out exactly what it takes off the escrow, to the recipient
/// and the fee collector. Nothing is stranded, and nobody else is paid for it.
pub proof fn withdraw_pays_what_it_releases(
    e: EnvView,
    caller: Address,
    stream_id: u64,
    amount: i128,
    asset: Address,
)
    requires
        e.books_in_order(),
        e.withdraw_refusal(caller, stream_id, amount) is None,
    ensures
        e.withdraw(caller, stream_id, amount).surplus(asset) >= e.surplus(asset),
        e.streams[stream_id].recipient != e.contract_address && e.fee_collector != Some(
            e.contract_address,
        ) ==> e.withdraw(caller, stream_id, amount).surplus(asset) == e.surplus(asset),
{
    broadcast use lemma_flow_push;

    let s = e.streams[stream_id];
    let after = crate::withdrawal::drawn(s, amount, e.timestamp);
    assert(e.stream_in_order(stream_id));
    stream_split_makes_up_the_amount(amount, s.fee_bps, e.fee_collector);
    lemma_held_after_draw(s, amount, e.timestamp, asset);
    lemma_owed_after(e, e.withdraw(caller, stream_id, amount), stream_id, after, asset);
}

/// A guarded withdrawal pays out exactly what it takes off the escrow, to the
/// recipient and the admin.
pub proof fn guarded_withdraw_pays_what_it_releases(
    e: EnvView,
    stream_id: u64,
    amount: i128,
    max_fee_bps: u32,
    asset: Address,
)
    requires
        e.books_in_order(),
        e.guarded_refusal(stream_id, amount, max_fee_bps) is None,
    ensures
        e.withdraw_guarded(stream_id, amount).surplus(asset) >= e.surplus(asset),
        e.streams[stream_id].recipient != e.contract_address && e.admin != Some(e.contract_address)
            ==> e.withdraw_guarded(stream_id, amount).surplus(asset) == e.surplus(asset),
{
    broadcast use lemma_flow_push;

    let s = e.streams[stream_id];
    let after = crate::withdrawal::drawn(s, amount, e.timestamp);
    assert(e.stream_in_order(stream_id));
    fee_and_net_make_up_the_amount(amount, e.protocol_fee());
    lemma_held_after_draw(s, amount, e.timestamp, asset);
    lemma_owed_after(e, e.withdraw_guarded(stream_id, amount), stream_id, after, asset);
}

/// Starting, pausing and resuming a stream move no funds.
pub proof fn clock_changes_move_no_funds(e: EnvView, stream_id: u64, asset: Address)
    requires
        e.books_in_order(),
        e.streams.contains_key(stream_id),
    ensures
        start_refusal(e.streams[stream_id], e.timestamp) is None ==> e.start(stream_id).surplus(
            asset,
        ) == e.surplus(asset),
        e.streams[stream_id].status is Active ==> e.pause(stream_id).surplus(asset) == e.surplus(
            asset,
        ),
        resume_refusal(e.streams[stream_id], e.timestamp) is None ==> e.resume(stream_id).surplus(
            asset,
        ) == e.surplus(asset),
{
    broadcast use lemma_flow_push;

    let s = e.streams[stream_id];
    let now = e.timestamp;
    lemma_owed_after(e, e.start(stream_id), stream_id, crate::lifecycle::started(s, now), asset);
    lemma_owed_after(e, e.pause(stream_id), stream_id, crate::lifecycle::paused(s, now), asset);
    lemma_owed_after(e, e.resume(stream_id), stream_id, crate::lifecycle::resumed(s, now), asset);
}

/// Moving the end of a stream moves no funds.
pub proof fn end_changes_move_no_funds(
    e: EnvView,
    stream_id: u64,
    new_rate_per_second: i128,
    new_end_time: u64,
    admin: Address,
    nonce: u64,
    asset: Address,
)
    requires
        e.books_in_order(),
        e.streams.contains_key(stream_id),
    ensures
        e.amend(stream_id, new_rate_per_second, new_end_time).surplus(asset) == e.surplus(asset),
        e.admin_override(admin, nonce, stream_id, new_end_time).surplus(asset) == e.surplus(asset),
{
    broadcast use lemma_flow_push;

    let s = e.streams[stream_id];
    let now = e.timestamp;
    lemma_owed_after(
        e,
        e.amend(stream_id, new_rate_per_second, new_end_time),
        stream_id,
        crate::lifecycle::amended(s, new_end_time, now),
        asset,
    );
    lemma_owed_after(
        e,
        e.admin_override(admin, nonce, stream_id, new_end_time),
        stream_id,
        crate::admin::overridden(s, new_end_time, now),
        asset,
    );
}

/// Settling pays the recipient exactly what is left in the escrow of the stream.
pub proof fn settle_pays_the_rest(e: EnvView, stream_id: u64, asset: Address)
    requires
        e.books_in_order(),
        e.streams.contains_key(stream_id),
        e.streams[stream_id].status is Settled || settle_refusal(
            e.streams[stream_id],
            e.timestamp,
        ) is None,
    ensures
        e.settle(stream_id).surplus(asset) >= e.surplus(asset),
        e.streams[stream_id].recipient != e.contract_address ==> e.settle(stream_id).surplus(asset)
            == e.surplus(asset),
{
    broadcast use lemma_flow_push;

    let s = e.streams[stream_id];
    assert(e.stream_in_order(stream_id));
    if !(s.status is Settled) {
        lemma_owed_after(
            e,
            e.settle(stream_id),
            stream_id,
            crate::lifecycle::settled(s, e.timestamp),
            asset,
        );
    }
}

/// Cancelling pays exactly what is left in the escrow of the stream, to the
/// recipient and the sender.
pub proof fn cancel_pays_the_rest(e: EnvView, stream_id: u64, asset: Address)
    requires
        e.books_in_order(),
        e.streams.contains_key(stream_id),
        cancel_refusal(e.streams[stream_id], e.timestamp) is None,
    ensures
        e.cancel(stream_id).surplus(asset) >= e.surplus(asset),
        e.streams[stream_id].recipient != e.contract_address && e.streams[stream_id].sender
            != e.contract_address ==> e.cancel(stream_id).surplus(asset) == e.surplus(asset),
{
    broadcast use lemma_flow_push;

    let s = e.streams[stream_id];
    assert(e.stream_in_order(stream_id));
    crate::lifecycle::cancel_divides_the_escrow(s, e.timestamp);
    lemma_owed_after(
        e,
        e.cancel(stream_id),
        stream_id,
        crate::lifecycle::cancelled(s, e.timestamp),
        asset,
    );
}

/// Creating a split stream escrows exactly what is owed for it.
pub proof fn create_split_is_fully_funded(
    e: EnvView,
    sender: Address,
    token: Address,
    total_amount: i128,
    start_time: u64,
    end_time: u64,
    recipients: Seq<Address>,
    weights: Seq<u64>,
    asset: Address,
)
    requires
        e.books_in_order(),
        e.next_id() < u64::MAX,
        sender != e.contract_address,
        e.create_split_refusal(
            sender,
            token,
            total_amount,
            start_time,
            end_time,
            recipients,
            weights,
        ) is None,
    ensures
        e.create_split(
            sender,
            token,
            total_amount,
            start_time,
            end_time,
            recipients,
            weights,
        ).surplus(asset) == e.surplus(asset),
{
    broadcast use lemma_flow_push;

    crate::books::create_split_keeps_books_in_order(
        e,
        sender,
        token,
        total_amount,
        start_time,
        end_time,
        recipients,
        weights,
    );
    let s = crate::multi::new_split(
        e.next_id(),
        sender,
        token,
        total_amount,
        start_time,
        end_time,
        recipients,
        weights,
    );
    let n = e.next_id() as int;
    lemma_nothing_released(recipients, weights, s.allocations.len() as int);
    lemma_split_held_insert(e.splits, e.next_id(), s, asset, n + 1);
}

/// New allocations have received nothing.
proof fn lemma_nothing_released(recipients: Seq<Address>, weights: Seq<u64>, n: int)
    requires
        0 <= n <= recipients.len(),
    ensures
        sum_released(crate::multi::new_allocations(recipients, weights), n) == 0,
    decreases n,
{
    if n > 0 {
        lemma_nothing_released(recipients, weights, n - 1);
    }
}

/// What the first recipients have received is at most their shares of the
/// vested amount.
proof fn lemma_released_within_shares(s: SplitStreamView, n: int)
    requires
        s.in_order(),
        0 <= n <= s.allocations.len(),
    ensures
        sum_released(s.allocations, n) <= sum_shares(s, s.vested(s.last_update), n),
    decreases n,
{
    if n > 0 {
        lemma_released_within_shares(s, n - 1);
        assert(s.allocations[n - 1].released_amount <= s.share(n - 1, s.vested(s.last_update)));
    }
}

/// A split stream never releases more than its escrow.
pub proof fn splits_release_no_more_than_the_escrow(s: SplitStreamView)
    requires
        s.in_order(),
    ensures
        sum_released(s.allocations, s.allocations.len() as int) <= s.vested(s.last_update)
            <= s.total_amount,
{
    crate::shares::split_vested_is_bounded_and_grows(s, s.last_update, s.last_update);
    crate::shares::shares_stay_within_the_amount(s, s.vested(s.last_update));
    lemma_released_within_shares(s, s.allocations.len() as int);
}

/// A withdrawal from a split stream never leaves the contract owing more than
/// it holds.
pub proof fn withdraw_split_stays_funded(
    e: EnvView,
    stream_id: u64,
    recipient: Address,
    amount: i128,
    asset: Address,
)
    requires
        e.books_in_order(),
        e.withdraw_split_refusal(stream_id, recipient, amount) is None,
    ensures
        e.withdraw_split(stream_id, recipient, amount).surplus(asset) >= e.surplus(asset),
{
    broadcast use lemma_flow_push;

    let s = e.splits[stream_id];
    assert(e.split_in_order(stream_id));
    let after = s.drawn(recipient, amount, e.timestamp);
    crate::shares::draws_keep_splits_in_order(s, recipient, amount, e.timestamp);
    splits_release_no_more_than_the_escrow(after);
    lemma_split_held_insert(e.splits, stream_id, after, asset, e.next_id() as int);
}

/// What payments to the first recipients take off the contract's balance.
proof fn lemma_payments_flow(e: EnvView, s: SplitStreamView, amount: int, asset: Address, n: int)
    requires
        0 <= n <= s.allocations.len(),
        s.all_open_fit(amount),
        forall|i: int|
            0 <= i < s.allocations.len() ==> (#[trigger] s.allocations[i]).released_amount
                <= s.share(i, amount),
    ensures
        flow(e.pay_shares(s, amount, n).calls, asset, e.contract_address) >= flow(
            e.calls,
            asset,
            e.contract_address,
        ) - (if s.token == asset {
            sum_shares(s, amount, n) - sum_released(s.allocations, n)
        } else {
            0
        }),
    decreases n,
{
    broadcast use lemma_flow_push;

    if n > 0 {
        lemma_payments_flow(e, s, amount, asset, n - 1);
        lemma_payments_touch_no_row(e, s, amount, n - 1);
        assert(s.open_fits(n - 1, amount));
        assert(s.allocations[n - 1].released_amount <= s.share(n - 1, amount));
    }
}

/// Cancelling a split stream never leaves the contract owing more than it holds:
/// what the recipients and the sender get is at most what was left in the
/// escrow.
pub proof fn cancel_split_stays_funded(e: EnvView, stream_id: u64, asset: Address)
    requires
        e.books_in_order(),
        e.splits.contains_key(stream_id),
        e.splits[stream_id].cancel_refusal(e.timestamp) is None,
    ensures
        e.cancel_split(stream_id).surplus(asset) >= e.surplus(asset),
{
    broadcast use lemma_flow_push;

    let s = e.splits[stream_id];
    let now = e.timestamp;
    let n = s.allocations.len() as int;
    let v = s.vested(now);
    assert(e.split_in_order(stream_id));
    assert forall|i: int| 0 <= i < n implies (#[trigger] s.allocations[i]).released_amount
        <= s.share(i, v) by {
        crate::shares::allocations_stay_within_their_shares(s, i, now);
    }
    let asked = e.read_split(stream_id).demand(s.sender);
    lemma_payments_flow(asked, s, v, asset, n);
    lemma_payments_touch_no_row(asked, s, v, n);
    crate::shares::split_vested_is_bounded_and_grows(s, now, now);
    crate::shares::shares_stay_within_the_amount(s, v);
    lemma_split_held_insert(e.splits, stream_id, s.cancelled(now), asset, e.next_id() as int);
}

/// Authorisations and host calls other than transfers move no funds.
pub proof fn only_transfers_move_funds(e: EnvView, c: HostCall, a: Address, asset: Address)
    requires
        !(c is Transfer),
    ensures
        e.call(c).surplus(asset) == e.surplus(asset),
        e.demand(a).surplus(asset) == e.surplus(asset),
{
    broadcast use lemma_flow_push;

}

/// What the admin sets moves no funds, nor do lists of withdrawers.
pub proof fn settings_move_no_funds(
    e: EnvView,
    a: Address,
    b: Address,
    flag: bool,
    limit: u64,
    fee_bps: u32,
    stream_id: u64,
    asset: Address,
)
    ensures
        e.install_admin(a).surplus(asset) == e.surplus(asset),
        e.pass_admin(a).surplus(asset) == e.surplus(asset),
        e.write_admin(a).surplus(asset) == e.surplus(asset),
        e.write_paused(flag).surplus(asset) == e.surplus(asset),
        e.write_stream_limit(limit).surplus(asset) == e.surplus(asset),
        e.write_fee_collector(a).surplus(asset) == e.surplus(asset),
        e.write_token(a, flag).surplus(asset) == e.surplus(asset),
        e.write_org_token(a, b, flag).surplus(asset) == e.surplus(asset),
        e.write_fee_bps(fee_bps).surplus(asset) == e.surplus(asset),
        e.write_default_fee(fee_bps).surplus(asset) == e.surplus(asset),
        e.migrate(a).surplus(asset) == e.surplus(asset),
        e.add_withdrawer(stream_id, a).surplus(asset) == e.surplus(asset),
        e.remove_withdrawer(stream_id, a).surplus(asset) == e.surplus(asset),
{
    broadcast use lemma_flow_push;

}

} // verus!
