//! # Contract storage layout
//!
//! Singletons (admin, pause flag, stream counter, protocol fee) live as long as
//! the contract instance and are extended with it. Rows keyed by a stream id or
//! by a token are extended one by one: when they are written, and when they are
//! read and present. The environment records each extension as a
//! [`HostCall`].
use vstd::prelude::*;

use crate::env::{Env, EnvView};
use crate::host::{Address, HostCall, OrgToken};

verus! {

/// Lifecycle status of a [`Stream`].
#[derive(Copy, Clone, Debug, PartialEq, Eq, Structural)]
pub enum StreamStatus {
    /// Funded but not started: nothing accrues.
    Draft,
    /// Accruing linearly from `start_time` to `end_time`.
    Active,
    /// Accrual is frozen; resuming extends `end_time`.
    Paused,
    /// Fully paid out. Terminal.
    Settled,
    /// The time window has elapsed. No entrypoint sets this status; a stream in
    /// it can only be cancelled, or have its end overridden.
    Ended,
    /// Cancelled by the sender. Terminal.
    Cancelled,
}

impl StreamStatus {
    /// Whether the status is final.
    pub open spec fn terminal(self) -> bool {
        self is Settled || self is Cancelled
    }

    /// Whether the recipient may draw on a stream with this status.
    pub open spec fn payable(self) -> bool {
        self is Active || self is Paused
    }
}

/// One payment stream: `total_amount` of `token`, held in escrow and released
/// linearly from `sender` to `recipient`.
#[derive(Copy, Clone, Debug, PartialEq, Eq, Structural)]
pub struct Stream {
    pub id: u64,
    pub sender: Address,
    pub recipient: Address,
    pub token: Address,
    pub total_amount: i128,
    /// What has left the escrow for the recipient so far.
    pub released_amount: i128,
    pub start_time: u64,
    pub end_time: u64,
    pub duration: u64,
    pub last_update: u64,
    pub status: StreamStatus,
    /// When the running pause began; 0 outside a pause.
    pub paused_at: u64,
    /// Length of all pauses that are over.
    pub total_paused_duration: u64,
    /// Fee on each withdrawal, in basis points `[0, 10_000]`.
    pub fee_bps: u32,
}

impl View for Stream {
    type V = Stream;

    open spec fn view(&self) -> Stream {
        *self
    }
}

/// Keys of the persistent rows.
#[derive(Copy, Clone, Debug, PartialEq, Eq, Structural)]
pub enum DataKey {
    Stream(u64),
    StreamFeeBps(u64),
    WithdrawerAllowlist(u64),
    SplitStream(u64),
    TokenAllowed(Address),
    OrgTokenAllowed(OrgToken),
    OrgRestricted(Address),
    SenderStreamCount(Address),
}

/// Rows keyed by a stream id: about two weeks of 5-second ledgers.
pub const STREAM_TTL_MIN_REMAINING: u32 = 241_920;

/// Rows keyed by a stream id: about three months of 5-second ledgers.
pub const STREAM_TTL_EXTEND_TO: u32 = 1_555_200;

/// The contract instance: about one week of 5-second ledgers.
pub const INSTANCE_TTL_MIN_REMAINING: u32 = 120_960;

/// The contract instance: about one month of 5-second ledgers.
pub const INSTANCE_TTL_EXTEND_TO: u32 = 518_400;

/// Rows keyed by a token: about one week of 5-second ledgers.
pub const TOKEN_TTL_MIN_REMAINING: u32 = 120_960;

/// Rows keyed by a token: about one month of 5-second ledgers.
pub const TOKEN_TTL_EXTEND_TO: u32 = 518_400;

/// The sequence number `extra` ledgers after `sequence`, capped at the last one.
pub open spec fn ledgers_after(sequence: u32, extra: u32) -> u32 {
    if sequence + extra > u32::MAX {
        u32::MAX
    } else {
        (sequence + extra) as u32
    }
}

// ── Spec: what each storage operation does to the environment ───────────────

impl EnvView {
    /// After an extension of the contract instance.
    pub open spec fn extend_instance(self) -> EnvView {
        self.call(
            HostCall::ExtendInstance {
                threshold: ledgers_after(self.sequence, INSTANCE_TTL_MIN_REMAINING),
                extend_to: ledgers_after(self.sequence, INSTANCE_TTL_EXTEND_TO),
            },
        )
    }

    /// After an extension of the instance if `present`.
    pub open spec fn extend_instance_if(self, present: bool) -> EnvView {
        if present {
            self.extend_instance()
        } else {
            self
        }
    }

    /// After an extension of a row with the cadence of stream rows.
    pub open spec fn extend_row(self, key: DataKey) -> EnvView {
        self.call(
            HostCall::ExtendRow {
                key,
                threshold: ledgers_after(self.sequence, STREAM_TTL_MIN_REMAINING),
                extend_to: ledgers_after(self.sequence, STREAM_TTL_EXTEND_TO),
            },
        )
    }

    /// After an extension of a row with the cadence of token rows.
    pub open spec fn extend_token_row(self, key: DataKey) -> EnvView {
        self.call(
            HostCall::ExtendRow {
                key,
                threshold: ledgers_after(self.sequence, TOKEN_TTL_MIN_REMAINING),
                extend_to: ledgers_after(self.sequence, TOKEN_TTL_EXTEND_TO),
            },
        )
    }

    pub open spec fn read_admin(self) -> EnvView {
        self.extend_instance_if(self.admin is Some)
    }

    pub open spec fn write_admin(self, admin: Address) -> EnvView {
        EnvView { admin: Some(admin), ..self }.extend_instance()
    }

    /// Whether the global pause is on; it is off until it is first set.
    pub open spec fn is_paused(self) -> bool {
        self.paused == Some(true)
    }

    pub open spec fn read_paused(self) -> EnvView {
        self.extend_instance_if(self.paused is Some)
    }

    pub open spec fn write_paused(self, paused: bool) -> EnvView {
        EnvView { paused: Some(paused), ..self }.extend_instance()
    }

    /// Whether `token` is blocked; a token without a row is allowed.
    pub open spec fn token_blocked(self, token: Address) -> bool {
        self.token_allowed.contains_key(token) && !self.token_allowed[token]
    }

    pub open spec fn read_token(self, token: Address) -> EnvView {
        if self.token_allowed.contains_key(token) {
            self.extend_token_row(DataKey::TokenAllowed(token))
        } else {
            self
        }
    }

    pub open spec fn write_token(self, token: Address, allowed: bool) -> EnvView {
        EnvView {
            token_allowed: self.token_allowed.insert(token, allowed),
            ..self
        }.extend_token_row(DataKey::TokenAllowed(token))
    }

    /// The id that the next stream gets; the first is 1.
    pub open spec fn next_id(self) -> u64 {
        match self.stream_count {
            Some(id) => id,
            None => 1,
        }
    }

    /// After the next id was handed out.
    pub open spec fn take_stream_id(self) -> EnvView {
        let next = if self.next_id() == u64::MAX {
            u64::MAX
        } else {
            (self.next_id() + 1) as u64
        };
        EnvView { stream_count: Some(next), ..self }.extend_instance()
    }

    pub open spec fn read_stream(self, stream_id: u64) -> EnvView {
        if self.streams.contains_key(stream_id) {
            self.extend_row(DataKey::Stream(stream_id))
        } else {
            self
        }
    }

    pub open spec fn write_stream(self, stream_id: u64, stream: Stream) -> EnvView {
        EnvView {
            streams: self.streams.insert(stream_id, stream),
            ..self
        }.extend_row(DataKey::Stream(stream_id))
    }

    /// The protocol fee; 0 until it is first set.
    pub open spec fn protocol_fee(self) -> u32 {
        match self.fee_bps {
            Some(fee) => fee,
            None => 0,
        }
    }

    pub open spec fn read_fee_bps(self) -> EnvView {
        self.extend_instance_if(self.fee_bps is Some)
    }

    pub open spec fn write_fee_bps(self, fee_bps: u32) -> EnvView {
        EnvView { fee_bps: Some(fee_bps), ..self }.extend_instance()
    }

    /// The withdrawers of a stream; none until the first is added.
    pub open spec fn withdrawer_list(self, stream_id: u64) -> Seq<Address> {
        if self.withdrawers.contains_key(stream_id) {
            self.withdrawers[stream_id]
        } else {
            Seq::empty()
        }
    }

    pub open spec fn read_withdrawers(self, stream_id: u64) -> EnvView {
        if self.withdrawers.contains_key(stream_id) {
            self.extend_row(DataKey::WithdrawerAllowlist(stream_id))
        } else {
            self
        }
    }

    pub open spec fn write_withdrawers(self, stream_id: u64, list: Seq<Address>) -> EnvView {
        EnvView {
            withdrawers: self.withdrawers.insert(stream_id, list),
            ..self
        }.extend_row(DataKey::WithdrawerAllowlist(stream_id))
    }
}

// ── Laws of storage ─────────────────────────────────────────────────────────

/// A token is blocked exactly when the last rule for it says so; without a rule
/// it is allowed.
pub proof fn last_token_rule_counts(e: EnvView, token: Address, allowed: bool, other: Address)
    ensures
        e.write_token(token, allowed).token_blocked(other) == (if other == token {
            !allowed
        } else {
            e.token_blocked(other)
        }),
        !e.token_allowed.contains_key(other) ==> !e.token_blocked(other),
{
}

/// Blocking a token touches no stream that exists, nor what may be done with it.
pub proof fn token_rules_leave_streams_alone(
    e: EnvView,
    token: Address,
    allowed: bool,
    caller: Address,
    stream_id: u64,
    amount: i128,
)
    ensures
        e.write_token(token, allowed).streams == e.streams,
        e.write_token(token, allowed).withdraw_refusal(caller, stream_id, amount)
            == e.withdraw_refusal(caller, stream_id, amount),
{
}

/// A stream row is extended whenever it is read or written, so a stream in use
/// does not expire.
pub proof fn stream_rows_are_extended_on_access(e: EnvView, stream_id: u64, stream: Stream)
    ensures
        e.streams.contains_key(stream_id) ==> e.read_stream(stream_id).calls.last() == (
        HostCall::ExtendRow {
            key: DataKey::Stream(stream_id),
            threshold: ledgers_after(e.sequence, STREAM_TTL_MIN_REMAINING),
            extend_to: ledgers_after(e.sequence, STREAM_TTL_EXTEND_TO),
        }),
        e.write_stream(stream_id, stream).calls.last() == (HostCall::ExtendRow {
            key: DataKey::Stream(stream_id),
            threshold: ledgers_after(e.sequence, STREAM_TTL_MIN_REMAINING),
            extend_to: ledgers_after(e.sequence, STREAM_TTL_EXTEND_TO),
        }),
{
}

/// Ids ascend by one from 1, until the counter stops at its last value.
pub proof fn ids_ascend(e: EnvView)
    ensures
        e.stream_count is None ==> e.next_id() == 1,
        e.next_id() < u64::MAX ==> e.take_stream_id().next_id() == e.next_id() + 1,
        e.next_id() == u64::MAX ==> e.take_stream_id().next_id() == u64::MAX,
{
}

// ── Extensions ──────────────────────────────────────────────────────────────

fn ttl_target(env: &Env, extra_ledgers: u32) -> (r: u32)
    ensures
        r == ledgers_after(env@.sequence, extra_ledgers),
{
    env.sequence.saturating_add(extra_ledgers)
}

/// Extends a row with the cadence of stream rows.
pub(crate) fn extend_persistent_ttl(env: &mut Env, key: DataKey)
    ensures
        final(env)@ == old(env)@.extend_row(key),
{
    let threshold: u32 = ttl_target(env, STREAM_TTL_MIN_REMAINING);
    let extend_to: u32 = ttl_target(env, STREAM_TTL_EXTEND_TO);
    env.host_call(HostCall::ExtendRow { key, threshold, extend_to });
}

/// Extends the contract instance.
pub(crate) fn extend_instance_ttl(env: &mut Env)
    ensures
        final(env)@ == old(env)@.extend_instance(),
{
    let threshold: u32 = ttl_target(env, INSTANCE_TTL_MIN_REMAINING);
    let extend_to: u32 = ttl_target(env, INSTANCE_TTL_EXTEND_TO);
    env.host_call(HostCall::ExtendInstance { threshold, extend_to });
}

/// Extends a row with the cadence of token rows.
pub(crate) fn extend_token_allowed_ttl(env: &mut Env, key: DataKey)
    ensures
        final(env)@ == old(env)@.extend_token_row(key),
{
    let threshold: u32 = ttl_target(env, TOKEN_TTL_MIN_REMAINING);
    let extend_to: u32 = ttl_target(env, TOKEN_TTL_EXTEND_TO);
    env.host_call(HostCall::ExtendRow { key, threshold, extend_to });
}

fn extend_stream_ttl(env: &mut Env, stream_id: u64)
    ensures
        final(env)@ == old(env)@.extend_row(DataKey::Stream(stream_id)),
{
    extend_persistent_ttl(env, DataKey::Stream(stream_id));
}

fn extend_withdrawer_allowlist_ttl(env: &mut Env, stream_id: u64)
    ensures
        final(env)@ == old(env)@.extend_row(DataKey::WithdrawerAllowlist(stream_id)),
{
    extend_persistent_ttl(env, DataKey::WithdrawerAllowlist(stream_id));
}

// ── Admin and pause ─────────────────────────────────────────────────────────

/// Whether the contract has an admin.
pub fn has_admin(env: &mut Env) -> (r: bool)
    ensures
        r == (old(env)@.admin is Some),
        final(env)@ == old(env)@.read_admin(),
{
    let exists = env.admin.is_some();
    if exists {
        extend_instance_ttl(env);
    }
    exists
}

/// Records the admin.
pub fn set_admin(env: &mut Env, admin: Address)
    ensures
        final(env)@ == old(env)@.write_admin(admin),
{
    env.admin = Some(admin);
    extend_instance_ttl(env);
}

/// The admin, if the contract has one.
pub fn get_admin(env: &mut Env) -> (r: Option<Address>)
    ensures
        r == old(env)@.admin,
        final(env)@ == old(env)@.read_admin(),
{
    let admin = env.admin;
    if admin.is_some() {
        extend_instance_ttl(env);
    }
    admin
}

/// Sets the global pause flag.
pub fn set_paused(env: &mut Env, paused: bool)
    ensures
        final(env)@ == old(env)@.write_paused(paused),
{
    env.paused = Some(paused);
    extend_instance_ttl(env);
}

/// Whether the contract is paused.
pub fn is_paused(env: &mut Env) -> (r: bool)
    ensures
        r == old(env)@.is_paused(),
        final(env)@ == old(env)@.read_paused(),
{
    match env.paused {
        Some(paused) => {
            extend_instance_ttl(env);
            paused
        },
        None => false,
    }
}

// ── Token allowlist ─────────────────────────────────────────────────────────

/// Allows or blocks a token for streams that are created from now on.
pub fn set_token_allowed(env: &mut Env, token: Address, allowed: bool)
    ensures
        final(env)@ == old(env)@.write_token(token, allowed),
{
    env.token_allowed.set(token, allowed);
    extend_token_allowed_ttl(env, DataKey::TokenAllowed(token));
}

/// Whether a token is blocked.
pub fn is_token_blocked(env: &mut Env, token: Address) -> (r: bool)
    ensures
        r == old(env)@.token_blocked(token),
        final(env)@ == old(env)@.read_token(token),
{
    let row: Option<bool> = match env.token_allowed.get(token) {
        Some(allowed) => Some(*allowed),
        None => None,
    };
    match row {
        Some(allowed) => {
            extend_token_allowed_ttl(env, DataKey::TokenAllowed(token));
            !allowed
        },
        None => false,
    }
}

// ── Streams ─────────────────────────────────────────────────────────────────

/// Hands out the next stream id.
pub fn next_stream_id(env: &mut Env) -> (r: u64)
    ensures
        r == old(env)@.next_id(),
        final(env)@ == old(env)@.take_stream_id(),
{
    let id: u64 = peek_next_stream_id(env);
    env.stream_count = Some(id.saturating_add(1));
    extend_instance_ttl(env);
    id
}

/// The id that the next stream gets, without handing it out.
pub fn peek_next_stream_id(env: &Env) -> (r: u64)
    ensures
        r == env@.next_id(),
{
    match env.stream_count {
        Some(id) => id,
        None => 1,
    }
}

/// Writes a stream record.
pub fn set_stream(env: &mut Env, stream_id: u64, stream: Stream)
    ensures
        final(env)@ == old(env)@.write_stream(stream_id, stream),
{
    env.streams.set(stream_id, stream);
    extend_stream_ttl(env, stream_id);
}

/// Reads a stream record.
pub fn get_stream(env: &mut Env, stream_id: u64) -> (r: Option<Stream>)
    ensures
        match r {
            Some(stream) => old(env)@.streams.contains_key(stream_id) && stream
                == old(env)@.streams[stream_id],
            None => !old(env)@.streams.contains_key(stream_id),
        },
        final(env)@ == old(env)@.read_stream(stream_id),
{
    let row: Option<Stream> = match env.streams.get(stream_id) {
        Some(stream) => Some(*stream),
        None => None,
    };
    if row.is_some() {
        extend_stream_ttl(env, stream_id);
    }
    row
}

// ── Protocol fee ────────────────────────────────────────────────────────────

/// Sets the protocol fee, in basis points.
pub fn set_fee_bps(env: &mut Env, fee_bps: u32)
    ensures
        final(env)@ == old(env)@.write_fee_bps(fee_bps),
{
    env.fee_bps = Some(fee_bps);
    extend_instance_ttl(env);
}

/// The protocol fee, in basis points.
pub fn get_fee_bps(env: &mut Env) -> (r: u32)
    ensures
        r == old(env)@.protocol_fee(),
        final(env)@ == old(env)@.read_fee_bps(),
{
    match env.fee_bps {
        Some(fee) => {
            extend_instance_ttl(env);
            fee
        },
        None => 0,
    }
}

// ── Withdrawers ─────────────────────────────────────────────────────────────

/// The withdrawers of a stream, in the order in which they were added.
pub fn get_withdrawer_allowlist(env: &mut Env, stream_id: u64) -> (r: Vec<Address>)
    ensures
        r@ == old(env)@.withdrawer_list(stream_id),
        final(env)@ == old(env)@.read_withdrawers(stream_id),
{
    let mut list: Vec<Address> = Vec::new();
    let mut present = false;
    if let Some(row) = env.withdrawers.get(stream_id) {
        present = true;
        let mut i: usize = 0;
        while i < row.len()
            invariant
                i <= row@.len(),
                list@ =~= row@.take(i as int),
            decreases row.len() - i,
        {
            list.push(row[i]);
            i = i + 1;
        }
        proof {
            assert(row@.take(row@.len() as int) =~= row@);
        }
    }
    if present {
        extend_withdrawer_allowlist_ttl(env, stream_id);
    }
    list
}

/// Writes the withdrawers of a stream.
pub(crate) fn set_withdrawer_allowlist(env: &mut Env, stream_id: u64, list: Vec<Address>)
    ensures
        final(env)@ == old(env)@.write_withdrawers(stream_id, list@),
{
    env.withdrawers.set(stream_id, list);
    extend_withdrawer_allowlist_ttl(env, stream_id);
}

} // verus!
