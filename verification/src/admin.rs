//! The admin's override of a stream's end, with a nonce against replay.
use vstd::prelude::*;

use crate::env::{Env, EnvView};
use crate::error::Error;
use crate::gates::{get_existing_stream, require_admin};
use crate::host::Address;
use crate::storage;
use crate::storage::{extend_instance_ttl, Stream, StreamStatus};
use crate::Contract;

verus! {

/// Why the end of a stream cannot be overridden, if it cannot.
pub open spec fn override_refusal(s: Stream, new_end_time: u64) -> Option<Error> {
    if s.status.terminal() {
        Some(Error::InvalidState)
    } else if new_end_time <= s.start_time {
        Some(Error::InvalidTimeRange)
    } else {
        None
    }
}

/// The record of a stream whose end was overridden at ledger time `now`.
pub open spec fn overridden(s: Stream, new_end_time: u64, now: u64) -> Stream {
    Stream { end_time: new_end_time, last_update: now, ..s }
}

impl EnvView {
    /// The nonce that the next override has to carry; the first is 0.
    pub open spec fn nonce(self) -> u64 {
        match self.admin_nonce {
            Some(n) => n,
            None => 0,
        }
    }

    pub open spec fn read_nonce(self) -> EnvView {
        self.extend_instance_if(self.admin_nonce is Some)
    }

    pub open spec fn write_nonce(self, nonce: u64) -> EnvView {
        EnvView { admin_nonce: Some(nonce), ..self }.extend_instance()
    }

    /// Why `nonce` is not accepted, if it is not. The last nonce has no
    /// successor and is never accepted.
    pub open spec fn nonce_refusal(self, nonce: u64) -> Option<Error> {
        if nonce < self.nonce() {
            Some(Error::NonceTooLow)
        } else if nonce > self.nonce() {
            Some(Error::NonceOutOfOrder)
        } else if nonce == u64::MAX {
            Some(Error::Overflow)
        } else {
            None
        }
    }

    /// Why `admin_override` refuses, if it does.
    pub open spec fn admin_override_refusal(
        self,
        admin: Address,
        nonce: u64,
        stream_id: u64,
        new_end_time: u64,
    ) -> Option<Error> {
        match self.admin_refusal(admin) {
            Some(err) => Some(err),
            None => match self.nonce_refusal(nonce) {
                Some(err) => Some(err),
                None => self.stream_refusal(
                    stream_id,
                    override_refusal(self.streams[stream_id], new_end_time),
                ),
            },
        }
    }

    /// After `admin_override` succeeded.
    pub open spec fn admin_override(self, admin: Address, nonce: u64, stream_id: u64, new_end_time: u64) -> EnvView {
        self.pass_admin(admin).read_nonce().read_stream(stream_id).write_stream(
            stream_id,
            overridden(self.streams[stream_id], new_end_time, self.timestamp),
        ).write_nonce((nonce + 1) as u64)
    }
}

/// A nonce that an override used up is refused from then on, and only its
/// successor is accepted.
pub proof fn used_nonces_are_refused(
    e: EnvView,
    admin: Address,
    nonce: u64,
    stream_id: u64,
    new_end_time: u64,
    other: u64,
)
    requires
        e.admin_override_refusal(admin, nonce, stream_id, new_end_time) is None,
    ensures
        e.nonce() == nonce,
        e.admin_override(admin, nonce, stream_id, new_end_time).nonce() == nonce + 1,
        other <= nonce ==> e.admin_override(admin, nonce, stream_id, new_end_time).nonce_refusal(
            other,
        ) == Some(Error::NonceTooLow),
        other > nonce + 1 ==> e.admin_override(
            admin,
            nonce,
            stream_id,
            new_end_time,
        ).nonce_refusal(other) == Some(Error::NonceOutOfOrder),
{
}

/// An override takes nothing back that was released, and the whole escrow still
/// vests by the new end. One that does not postpone the end takes nothing back
/// that has vested either.
pub proof fn override_keeps_what_was_released(s: Stream, new_end_time: u64, now: u64, at: u64)
    requires
        crate::release::amounts_in_order(s),
        override_refusal(s, new_end_time) is None,
    ensures
        !(s.status is Draft) ==> crate::release::vested(overridden(s, new_end_time, now), at)
            >= s.released_amount,
        s.status is Active && new_end_time <= at ==> crate::release::vested(
            overridden(s, new_end_time, now),
            at,
        ) == s.total_amount,
        new_end_time <= s.end_time ==> crate::release::vested(overridden(s, new_end_time, now), at)
            >= crate::release::vested(s, at),
{
    crate::release::vested_is_bounded(overridden(s, new_end_time, now), at);
    if new_end_time <= s.end_time {
        crate::release::earlier_end_vests_no_less(s, new_end_time, at);
    }
}

/// The nonce that the next override has to carry.
pub fn get_nonce(env: &mut Env) -> (r: u64)
    ensures
        r == old(env)@.nonce(),
        final(env)@ == old(env)@.read_nonce(),
{
    match env.admin_nonce {
        Some(n) => {
            extend_instance_ttl(env);
            n
        },
        None => 0,
    }
}

fn set_nonce(env: &mut Env, nonce: u64)
    ensures
        final(env)@ == old(env)@.write_nonce(nonce),
{
    env.admin_nonce = Some(nonce);
    extend_instance_ttl(env);
}

/// Reads and tests the nonce.
fn check_nonce(env: &mut Env, nonce: u64) -> (r: Result<(), Error>)
    ensures
        match old(env)@.nonce_refusal(nonce) {
            Some(err) => r == Err::<(), Error>(err),
            None => r == Ok::<(), Error>(()),
        },
        final(env)@ == old(env)@.read_nonce(),
{
    let expected: u64 = get_nonce(env);
    if nonce < expected {
        return Err(Error::NonceTooLow);
    }
    if nonce > expected {
        return Err(Error::NonceOutOfOrder);
    }
    if nonce == u64::MAX {
        return Err(Error::Overflow);
    }
    Ok(())
}

/// Overrides the end in the record of a stream.
fn override_record(s: Stream, new_end_time: u64, now: u64) -> (r: Result<Stream, Error>)
    ensures
        match override_refusal(s, new_end_time) {
            Some(err) => r == Err::<Stream, Error>(err),
            None => r == Ok::<Stream, Error>(overridden(s, new_end_time, now)),
        },
{
    if s.status == StreamStatus::Settled || s.status == StreamStatus::Cancelled {
        return Err(Error::InvalidState);
    }
    if new_end_time <= s.start_time {
        return Err(Error::InvalidTimeRange);
    }
    Ok(Stream { end_time: new_end_time, last_update: now, ..s })
}

/// Reads and tests the conditions of an override. Returns the new record.
fn check_override(env: &mut Env, admin: Address, nonce: u64, stream_id: u64, new_end_time: u64) -> (r:
    Result<Stream, Error>)
    ensures
        match old(env)@.admin_override_refusal(admin, nonce, stream_id, new_end_time) {
            Some(err) => {
                &&& r == Err::<Stream, Error>(err)
                &&& final(env)@.only_calls_added(old(env)@.demand(admin))
            },
            None => {
                &&& r == Ok::<Stream, Error>(
                    overridden(old(env)@.streams[stream_id], new_end_time, old(env)@.timestamp),
                )
                &&& final(env)@ == old(env)@.pass_admin(admin).read_nonce().read_stream(stream_id)
            },
        },
{
    broadcast use crate::env::group_calls_added;

    let now: u64 = env.timestamp;
    require_admin(env, admin)?;
    check_nonce(env, nonce)?;
    let stream = get_existing_stream(env, stream_id)?;
    override_record(stream, new_end_time, now)
}

/// Replaces the end of a stream that is not over, and uses up `nonce`.
pub fn admin_override(env: &mut Env, admin: Address, nonce: u64, stream_id: u64, new_end_time: u64) -> (r:
    Result<Stream, Error>)
    ensures
        match old(env)@.admin_override_refusal(admin, nonce, stream_id, new_end_time) {
            Some(err) => {
                &&& r == Err::<Stream, Error>(err)
                &&& final(env)@ == old(env)@.demand(admin)
            },
            None => {
                &&& r == Ok::<Stream, Error>(
                    overridden(old(env)@.streams[stream_id], new_end_time, old(env)@.timestamp),
                )
                &&& nonce < u64::MAX
                &&& final(env)@ == old(env)@.admin_override(admin, nonce, stream_id, new_end_time)
            },
        },
{
    let kept: usize = env.calls.len();
    let after = match check_override(env, admin, nonce, stream_id, new_end_time) {
        Ok(after) => after,
        Err(err) => {
            env.revert(kept);
            return Err(err);
        },
    };
    storage::set_stream(env, stream_id, after);
    set_nonce(env, nonce + 1);
    Ok(after)
}

impl Contract {
    /// The nonce that the next [`Contract::admin_override`] has to carry.
    pub fn get_admin_nonce(env: &mut Env) -> (r: u64)
        ensures
            r == old(env)@.nonce(),
            final(env)@ == old(env)@.read_nonce(),
    {
        get_nonce(env)
    }

    /// Replaces the end of a stream that is not over. `nonce` has to be the
    /// current one and is used up. Unlike the sender, the admin may postpone the
    /// end so far that less is vested than before, down to what was released.
    /// Needs the authorisation of the admin.
    pub fn admin_override(
        env: &mut Env,
        admin: Address,
        nonce: u64,
        stream_id: u64,
        new_end_time: u64,
    ) -> (r: Result<Stream, Error>)
        ensures
            match old(env)@.admin_override_refusal(admin, nonce, stream_id, new_end_time) {
                Some(err) => {
                    &&& r == Err::<Stream, Error>(err)
                    &&& final(env)@ == old(env)@.demand(admin)
                },
                None => {
                    &&& r == Ok::<Stream, Error>(
                        overridden(old(env)@.streams[stream_id], new_end_time, old(env)@.timestamp),
                    )
                    &&& final(env)@ == old(env)@.admin_override(admin, nonce, stream_id, new_end_time)
                },
            },
    {
        admin_override(env, admin, nonce, stream_id, new_end_time)
    }
}

} // verus!
