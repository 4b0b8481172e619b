//! Laws of single rows: what reading one finds, what writing one changes, and how
//! both keep it alive, told by the environment's fields.
use vstd::prelude::*;

use crate::env::{Env, EnvView};
use crate::events::Event;
use crate::host::{Address, HostCall, OrgToken};
use crate::migrate::StorageVersion;
use crate::multi::{SplitStream, SplitStreamView};
use crate::storage::{DataKey, Stream};

verus! {

/// The value of an environment is what its fields hold.
pub proof fn environments_are_their_fields(env: Env)
    ensures
        env@ == (EnvView {
            timestamp: env.timestamp,
            sequence: env.sequence,
            contract_address: env.contract_address,
            admin: env.admin,
            paused: env.paused,
            stream_count: env.stream_count,
            fee_bps: env.fee_bps,
            fee_collector: env.fee_collector,
            default_fee_bps: env.default_fee_bps,
            max_streams: env.max_streams,
            admin_nonce: env.admin_nonce,
            version: env.version,
            streams: env.streams@,
            stream_fees: env.stream_fees@,
            withdrawers: env.withdrawers@,
            splits: env.splits@,
            token_allowed: env.token_allowed@,
            org_tokens: env.org_tokens@,
            org_restricted: env.org_restricted@,
            sender_streams: env.sender_streams@,
            auths: env.auths@,
            calls: env.calls@,
        }),
{
}

/// The value of a split stream is what its fields hold.
pub proof fn split_streams_are_their_fields(s: SplitStream)
    ensures
        s@ == (SplitStreamView {
            id: s.id,
            sender: s.sender,
            token: s.token,
            total_amount: s.total_amount,
            start_time: s.start_time,
            end_time: s.end_time,
            last_update: s.last_update,
            status: s.status,
            total_weight: s.total_weight,
            allocations: s.allocations@,
        }),
{
}

/// A contract that was just deployed has no row, owes no call and knows its
/// ledger.
pub proof fn fresh_contracts_are_empty(contract_address: Address, timestamp: u64, sequence: u32)
    ensures
        ({
            let e = EnvView::fresh(contract_address, timestamp, sequence);
            &&& e.contract_address == contract_address
            &&& e.timestamp == timestamp
            &&& e.sequence == sequence
            &&& e.admin is None && e.paused is None && e.stream_count is None
            &&& e.fee_bps is None && e.fee_collector is None && e.default_fee_bps is None
            &&& e.max_streams is None && e.admin_nonce is None && e.version is None
            &&& e.streams.dom().is_empty() && e.splits.dom().is_empty()
            &&& e.stream_fees.dom().is_empty() && e.withdrawers.dom().is_empty()
            &&& e.token_allowed.dom().is_empty() && e.org_tokens.dom().is_empty()
            &&& e.org_restricted.dom().is_empty() && e.sender_streams.dom().is_empty()
            &&& e.auths.len() == 0 && e.calls.len() == 0
        }),
{
}

/// Demanding an authorisation, asking for a host call, moving funds and
/// publishing an event each add one entry at the end, and nothing else.
pub proof fn requests_are_appended(
    e: EnvView,
    a: Address,
    c: HostCall,
    event: Event,
    token: Address,
    from: Address,
    to: Address,
    amount: i128,
)
    ensures
        e.demand(a) == (EnvView { auths: e.auths.push(a), ..e }),
        e.call(c) == (EnvView { calls: e.calls.push(c), ..e }),
        e.transfer(token, from, to, amount) == (EnvView {
            calls: e.calls.push(HostCall::Transfer { token, from, to, amount }),
            ..e
        }),
        e.publish(event) == (EnvView { calls: e.calls.push(HostCall::Publish { event }), ..e }),
{
}

/// Extensions reach a fixed number of ledgers ahead: the instance and token rows
/// one week and one month, stream rows two weeks and three months. None reaches
/// past the last ledger.
pub proof fn extensions_reach_ahead(e: EnvView, key: DataKey)
    ensures
        ({
            let ahead = |n: int|
                if e.sequence + n > u32::MAX {
                    u32::MAX
                } else {
                    (e.sequence + n) as u32
                };
            &&& e.extend_instance() == (EnvView {
                calls: e.calls.push(
                    HostCall::ExtendInstance { threshold: ahead(120_960), extend_to: ahead(518_400) },
                ),
                ..e
            })
            &&& e.extend_row(key) == (EnvView {
                calls: e.calls.push(
                    HostCall::ExtendRow {
                        key,
                        threshold: ahead(241_920),
                        extend_to: ahead(1_555_200),
                    },
                ),
                ..e
            })
            &&& e.extend_token_row(key) == (EnvView {
                calls: e.calls.push(
                    HostCall::ExtendRow {
                        key,
                        threshold: ahead(120_960),
                        extend_to: ahead(518_400),
                    },
                ),
                ..e
            })
        }),
{
}

/// Every value that is looked up is the recorded one; a row that is missing
/// stands for its default.
pub proof fn lookups_find_what_is_recorded(
    e: EnvView,
    id: u64,
    a: Address,
    org: Address,
    token: Address,
    recipient: Address,
)
    ensures
        e.is_paused() <==> e.paused == Some(true),
        e.token_blocked(token) <==> e.token_allowed.contains_key(token) && e.token_allowed[token]
            == false,
        e.stream_count is Some ==> e.next_id() == e.stream_count->0,
        e.stream_count is None ==> e.next_id() == 1,
        e.fee_bps is Some ==> e.protocol_fee() == e.fee_bps->0,
        e.fee_bps is None ==> e.protocol_fee() == 0,
        e.default_fee_bps is Some ==> e.default_fee() == e.default_fee_bps->0,
        e.default_fee_bps is None ==> e.default_fee() == 0,
        e.stream_fees.contains_key(id) ==> e.stream_fee(id) == e.stream_fees[id],
        !e.stream_fees.contains_key(id) && e.default_fee_bps is Some ==> e.stream_fee(id)
            == e.default_fee_bps->0,
        !e.stream_fees.contains_key(id) && e.default_fee_bps is None ==> e.stream_fee(id) == 0,
        e.max_streams is Some ==> e.stream_limit() == e.max_streams->0,
        e.max_streams is None ==> e.stream_limit() == 10,
        e.sender_streams.contains_key(a) ==> e.sender_count(a) == e.sender_streams[a],
        !e.sender_streams.contains_key(a) ==> e.sender_count(a) == 0,
        e.withdrawers.contains_key(id) ==> e.withdrawer_list(id) == e.withdrawers[id],
        !e.withdrawers.contains_key(id) ==> e.withdrawer_list(id).len() == 0,
        e.admin_nonce is Some ==> e.nonce() == e.admin_nonce->0,
        e.admin_nonce is None ==> e.nonce() == 0,
        e.version is Some ==> e.storage_version() == e.version->0.version,
        e.version is None ==> e.storage_version() == 0,
        e.org_is_restricted(org) <==> e.org_restricted.contains_key(org) && e.org_restricted[org],
        e.org_tokens.contains_key(OrgToken { org, token }) ==> (e.org_token_blocked(org, token)
            <==> e.org_tokens[OrgToken { org, token }] == false),
        !e.org_tokens.contains_key(OrgToken { org, token }) ==> (e.org_token_blocked(org, token)
            <==> e.org_restricted.contains_key(org) && e.org_restricted[org]),
        e.may_withdraw(id, a, recipient) <==> a == recipient || (e.withdrawers.contains_key(id)
            && exists|i: int|
            0 <= i < e.withdrawers[id].len() && #[trigger] e.withdrawers[id][i] == a),
{
    if e.withdrawers.contains_key(id) {
        let list = e.withdrawers[id];
        if list.contains(a) {
            let i = choose|i: int| 0 <= i < list.len() && list[i] == a;
            assert(list[i] == a);
        }
    }
}

/// A read extends what it finds, and does nothing where it finds nothing.
pub proof fn reads_extend_what_they_find(
    e: EnvView,
    id: u64,
    a: Address,
    org: Address,
    token: Address,
)
    ensures
        e.read_admin() == (if e.admin is Some {
            e.extend_instance()
        } else {
            e
        }),
        e.read_paused() == (if e.paused is Some {
            e.extend_instance()
        } else {
            e
        }),
        e.read_fee_bps() == (if e.fee_bps is Some {
            e.extend_instance()
        } else {
            e
        }),
        e.read_fee_collector() == (if e.fee_collector is Some {
            e.extend_instance()
        } else {
            e
        }),
        e.read_default_fee() == (if e.default_fee_bps is Some {
            e.extend_instance()
        } else {
            e
        }),
        e.read_stream_limit() == (if e.max_streams is Some {
            e.extend_instance()
        } else {
            e
        }),
        e.read_nonce() == (if e.admin_nonce is Some {
            e.extend_instance()
        } else {
            e
        }),
        e.read_stream(id) == (if e.streams.contains_key(id) {
            e.extend_row(DataKey::Stream(id))
        } else {
            e
        }),
        e.read_split(id) == (if e.splits.contains_key(id) {
            e.extend_row(DataKey::SplitStream(id))
        } else {
            e
        }),
        e.read_withdrawers(id) == (if e.withdrawers.contains_key(id) {
            e.extend_row(DataKey::WithdrawerAllowlist(id))
        } else {
            e
        }),
        e.read_stream_fee(id) == (if e.stream_fees.contains_key(id) {
            e.extend_row(DataKey::StreamFeeBps(id))
        } else {
            e.read_default_fee()
        }),
        e.read_sender_count(a) == (if e.sender_streams.contains_key(a) {
            e.extend_row(DataKey::SenderStreamCount(a))
        } else {
            e
        }),
        e.read_token(token) == (if e.token_allowed.contains_key(token) {
            e.extend_token_row(DataKey::TokenAllowed(token))
        } else {
            e
        }),
        e.read_org_token(org, token) == (if e.org_tokens.contains_key(OrgToken { org, token }) {
            e.extend_token_row(DataKey::OrgTokenAllowed(OrgToken { org, token }))
        } else if e.org_restricted.contains_key(org) {
            e.extend_token_row(DataKey::OrgRestricted(org))
        } else {
            e
        }),
{
}

/// A write replaces one value, and extends where it stands.
pub proof fn writes_replace_one_value(
    e: EnvView,
    id: u64,
    a: Address,
    flag: bool,
    n: u64,
    bps: u32,
    stream: Stream,
    split: SplitStreamView,
    list: Seq<Address>,
)
    ensures
        e.write_admin(a) == (EnvView { admin: Some(a), ..e }).extend_instance(),
        e.write_paused(flag) == (EnvView { paused: Some(flag), ..e }).extend_instance(),
        e.write_fee_bps(bps) == (EnvView { fee_bps: Some(bps), ..e }).extend_instance(),
        e.write_default_fee(bps) == (EnvView {
            default_fee_bps: Some(bps),
            ..e
        }).extend_instance(),
        e.write_fee_collector(a) == (EnvView { fee_collector: Some(a), ..e }).extend_instance(),
        e.write_stream_limit(n) == (EnvView { max_streams: Some(n), ..e }).extend_instance(),
        e.write_nonce(n) == (EnvView { admin_nonce: Some(n), ..e }).extend_instance(),
        e.write_token(a, flag) == (EnvView {
            token_allowed: e.token_allowed.insert(a, flag),
            ..e
        }).extend_token_row(DataKey::TokenAllowed(a)),
        e.write_stream(id, stream) == (EnvView {
            streams: e.streams.insert(id, stream),
            ..e
        }).extend_row(DataKey::Stream(id)),
        e.write_stream_fee(id, bps) == (EnvView {
            stream_fees: e.stream_fees.insert(id, bps),
            ..e
        }).extend_row(DataKey::StreamFeeBps(id)),
        e.write_withdrawers(id, list) == (EnvView {
            withdrawers: e.withdrawers.insert(id, list),
            ..e
        }).extend_row(DataKey::WithdrawerAllowlist(id)),
        e.write_split(id, split) == (EnvView {
            splits: e.splits.insert(id, split),
            ..e
        }).extend_row(DataKey::SplitStream(id)),
        e.write_sender_count(a, n) == (EnvView {
            sender_streams: e.sender_streams.insert(a, n),
            ..e
        }).extend_row(DataKey::SenderStreamCount(a)),
{
}

/// A rule of an organisation is recorded as it was given. A grant marks the
/// organisation as restricted as well; a block does not.
pub proof fn organisation_rules_are_recorded(
    e: EnvView,
    org: Address,
    token: Address,
    allowed: bool,
)
    ensures
        ({
            let after = e.write_org_token(org, token, allowed);
            &&& after == (EnvView {
                org_tokens: e.org_tokens.insert(OrgToken { org, token }, allowed),
                org_restricted: if allowed {
                    e.org_restricted.insert(org, true)
                } else {
                    e.org_restricted
                },
                calls: after.calls,
                ..e
            })
            &&& !allowed ==> after.calls == e.extend_token_row(
                DataKey::OrgTokenAllowed(OrgToken { org, token }),
            ).calls
            &&& allowed ==> after.calls == e.extend_token_row(
                DataKey::OrgTokenAllowed(OrgToken { org, token }),
            ).extend_token_row(DataKey::OrgRestricted(org)).calls
        }),
{
}

/// Handing out an id moves the counter on by one, from 1; it stops at the last
/// value.
pub proof fn ids_are_handed_out_once(e: EnvView)
    ensures
        e.stream_count is None ==> e.take_stream_id() == (EnvView {
            stream_count: Some(2),
            ..e
        }).extend_instance(),
        e.stream_count is Some && e.stream_count->0 < u64::MAX ==> e.take_stream_id() == (EnvView {
            stream_count: Some((e.stream_count->0 + 1) as u64),
            ..e
        }).extend_instance(),
        e.stream_count == Some(u64::MAX) ==> e.take_stream_id() == e.extend_instance(),
{
}

/// Recording a version keeps every other row, and extends the instance from the
/// threshold on.
pub proof fn versions_are_recorded(e: EnvView, version: u32)
    ensures
        ({
            let ahead = |n: int|
                if e.sequence + n > u32::MAX {
                    u32::MAX
                } else {
                    (e.sequence + n) as u32
                };
            e.write_version(version) == (EnvView {
                version: Some(StorageVersion { version }),
                calls: e.calls.push(
                    HostCall::ExtendInstance {
                        threshold: ahead(120_960),
                        extend_to: ahead(639_360),
                    },
                ),
                ..e
            })
        }),
{
}

/// Letting the admin through demands their authorisation; only the recorded
/// admin is let through.
pub proof fn only_the_admin_is_let_through(e: EnvView, caller: Address)
    ensures
        e.admin_refusal(caller) is None <==> e.admin == Some(caller),
        e.admin_refusal(caller) == Some(crate::error::Error::NotFound) <==> e.admin is None,
        e.admin_refusal(caller) == Some(crate::error::Error::Unauthorized) <==> e.admin is Some
            && e.admin->0 != caller,
        e.admin is Some ==> e.pass_admin(caller) == (EnvView {
            auths: e.auths.push(caller),
            ..e
        }).extend_instance(),
{
}

/// Initialisation records the admin, switches the pause off, and demands the
/// admin's authorisation.
pub proof fn initialisation_records_the_admin(e: EnvView, admin: Address)
    ensures
        e.install_admin(admin) == (EnvView {
            admin: Some(admin),
            paused: Some(false),
            auths: e.auths.push(admin),
            ..e
        }).extend_instance().extend_instance(),
{
}

/// Streams and contracts that do not exist or do not run are refused before
/// anything else is looked at.
pub proof fn missing_streams_are_refused_first(
    e: EnvView,
    id: u64,
    why: Option<crate::error::Error>,
)
    ensures
        e.streams.contains_key(id) ==> e.stream_refusal(id, why) == why,
        !e.streams.contains_key(id) ==> e.stream_refusal(id, why) == Some(
            crate::error::Error::NotFound,
        ),
        e.paused == Some(true) ==> e.running_refusal(id, why) == Some(
            crate::error::Error::ContractPaused,
        ),
        e.paused != Some(true) && e.streams.contains_key(id) ==> e.running_refusal(id, why) == why,
        e.paused != Some(true) && !e.streams.contains_key(id) ==> e.running_refusal(id, why)
            == Some(crate::error::Error::NotFound),
{
}

/// What a refused call has demanded: the authorisation of the one who asked,
/// where the call got that far.
pub proof fn refused_calls_demand_at_most_one_authorisation(
    e: EnvView,
    a: Address,
    id: u64,
    amount: i128,
    max_fee_bps: u32,
)
    ensures
        e.paused == Some(true) ==> e.fail_create(a) == e,
        e.paused != Some(true) ==> e.fail_create(a) == (EnvView { auths: e.auths.push(a), ..e }),
        ({
            let asked = e.paused != Some(true) && amount > 0;
            let guard = e.fee_bps is Some && e.fee_bps->0 > max_fee_bps;
            &&& asked && e.streams.contains_key(id) ==> e.fail_withdraw(a, id, amount) == (EnvView {
                auths: e.auths.push(a),
                ..e
            })
            &&& !(asked && e.streams.contains_key(id)) ==> e.fail_withdraw(a, id, amount) == e
            &&& asked && e.streams.contains_key(id) && !guard ==> e.fail_guarded(
                id,
                amount,
                max_fee_bps,
            ) == (EnvView { auths: e.auths.push(e.streams[id].recipient), ..e })
            &&& guard || !asked || !e.streams.contains_key(id) ==> e.fail_guarded(
                id,
                amount,
                max_fee_bps,
            ) == e
            &&& asked && e.splits.contains_key(id) ==> e.fail_withdraw_split(id, a, amount) == (
            EnvView { auths: e.auths.push(a), ..e })
            &&& !(asked && e.splits.contains_key(id)) ==> e.fail_withdraw_split(id, a, amount) == e
        }),
        e.streams.contains_key(id) ==> e.ask_sender(id) == (EnvView {
            auths: e.auths.push(e.streams[id].sender),
            ..e
        }),
        !e.streams.contains_key(id) ==> e.ask_sender(id) == e,
        e.paused == Some(true) ==> e.ask_sender_unless_paused(id) == e,
        e.paused != Some(true) ==> e.ask_sender_unless_paused(id) == e.ask_sender(id),
{
}

} // verus!
