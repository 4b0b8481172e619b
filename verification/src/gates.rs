//! The conditions that several entrypoints share.
use vstd::prelude::*;

use crate::env::{Env, EnvView};
use crate::error::Error;
use crate::host::Address;
use crate::storage;
use crate::storage::Stream;

verus! {

impl EnvView {
    /// Why `caller` is not let through as the admin, if it is not.
    pub open spec fn admin_refusal(self, caller: Address) -> Option<Error> {
        match self.admin {
            None => Some(Error::NotFound),
            Some(admin) => if admin == caller {
                None
            } else {
                Some(Error::Unauthorized)
            },
        }
    }

    /// After `caller` was let through as the admin.
    pub open spec fn pass_admin(self, caller: Address) -> EnvView {
        self.demand(caller).read_admin()
    }

    /// The refusal `why` of a stream that has to exist.
    pub open spec fn stream_refusal(self, stream_id: u64, why: Option<Error>) -> Option<Error> {
        if self.streams.contains_key(stream_id) {
            why
        } else {
            Some(Error::NotFound)
        }
    }

    /// The same, on a contract that has to be running.
    pub open spec fn running_refusal(self, stream_id: u64, why: Option<Error>) -> Option<Error> {
        if self.is_paused() {
            Some(Error::ContractPaused)
        } else {
            self.stream_refusal(stream_id, why)
        }
    }
}

/// Reads a stream that has to exist.
pub fn get_existing_stream(env: &mut Env, stream_id: u64) -> (r: Result<Stream, Error>)
    ensures
        r == (if old(env)@.streams.contains_key(stream_id) {
            Ok(old(env)@.streams[stream_id])
        } else {
            Err::<Stream, Error>(Error::NotFound)
        }),
        final(env)@ == old(env)@.read_stream(stream_id),
{
    match storage::get_stream(env, stream_id) {
        Some(stream) => Ok(stream),
        None => Err(Error::NotFound),
    }
}

/// Demands the authorisation of `caller`, and refuses everyone but the admin.
pub fn require_admin(env: &mut Env, caller: Address) -> (r: Result<(), Error>)
    ensures
        match old(env)@.admin_refusal(caller) {
            Some(err) => r == Err::<(), Error>(err) && final(env)@ == old(env)@.demand(caller),
            None => r == Ok::<(), Error>(()) && final(env)@ == old(env)@.pass_admin(caller),
        },
{
    broadcast use crate::env::group_calls_added;

    env.require_auth(caller);
    let kept: usize = env.calls.len();
    match storage::get_admin(env) {
        Some(admin) => if admin == caller {
            Ok(())
        } else {
            env.revert(kept);
            proof {
                assert(old(env)@.demand(caller).read_admin().only_calls_added(old(env)@.demand(caller)));
            }
            Err(Error::Unauthorized)
        },
        None => Err(Error::NotFound),
    }
}

/// Refuses every caller while the global pause is on.
pub fn require_not_paused(env: &mut Env) -> (r: Result<(), Error>)
    ensures
        r == (if old(env)@.is_paused() {
            Err::<(), Error>(Error::ContractPaused)
        } else {
            Ok(())
        }),
        final(env)@ == old(env)@.read_paused(),
{
    if storage::is_paused(env) {
        return Err(Error::ContractPaused);
    }
    Ok(())
}

/// Reads a stream that has to exist, on a contract that has to be running.
pub fn get_running_stream(env: &mut Env, stream_id: u64) -> (r: Result<Stream, Error>)
    ensures
        match old(env)@.running_refusal(stream_id, None) {
            Some(err) => r == Err::<Stream, Error>(err) && final(env)@ == old(env)@,
            None => {
                &&& r == Ok::<Stream, Error>(old(env)@.streams[stream_id])
                &&& final(env)@ == old(env)@.read_paused().read_stream(stream_id)
            },
        },
{
    broadcast use crate::env::group_calls_added;

    let kept: usize = env.calls.len();
    let r = match require_not_paused(env) {
        Ok(()) => get_existing_stream(env, stream_id),
        Err(err) => Err(err),
    };
    if r.is_err() {
        proof {
            assert(env@.only_calls_added(old(env)@));
        }
        env.revert(kept);
    }
    r
}

/// Refuses a recipient who cannot hold the token. `balance` is what the token
/// reports as the recipient's balance; a recipient who can hold the token never
/// has a negative one.
pub fn require_recipient_trustline(balance: i128) -> (r: Result<(), Error>)
    ensures
        r == (if balance < 0 {
            Err::<(), Error>(Error::RecipientTrustlineMissing)
        } else {
            Ok(())
        }),
{
    if balance < 0 {
        return Err(Error::RecipientTrustlineMissing);
    }
    Ok(())
}

} // verus!
