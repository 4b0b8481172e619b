//! Entrypoints that read one stream. The global pause does not matter to them.
use vstd::prelude::*;

use crate::env::Env;
use crate::error::Error;
use crate::gates::get_existing_stream;
use crate::release;
use crate::release::{vested_result, withdrawable_result};
use crate::storage::Stream;
use crate::Contract;

verus! {

impl Contract {
    /// The record of a stream.
    pub fn get_stream(env: &mut Env, stream_id: u64) -> (r: Result<Stream, Error>)
        ensures
            r == (if old(env)@.streams.contains_key(stream_id) {
                Ok(old(env)@.streams[stream_id])
            } else {
                Err::<Stream, Error>(Error::NotFound)
            }),
            final(env)@ == old(env)@.read_stream(stream_id),
    {
        get_existing_stream(env, stream_id)
    }

    /// What has vested of a stream by now and was not released yet.
    pub fn withdrawable(env: &mut Env, stream_id: u64) -> (r: Result<i128, Error>)
        ensures
            r == (if old(env)@.streams.contains_key(stream_id) {
                withdrawable_result(old(env)@.streams[stream_id], old(env)@.timestamp)
            } else {
                Err::<i128, Error>(Error::NotFound)
            }),
            r is Ok ==> final(env)@ == old(env)@.read_stream(stream_id),
            r is Err ==> final(env)@ == old(env)@,
    {
        broadcast use crate::env::group_calls_added;

        let kept: usize = env.calls.len();
        let now: u64 = env.timestamp;
        let stream = get_existing_stream(env, stream_id)?;
        let r = release::withdrawable(&stream, now);
        if r.is_err() {
            proof {
                assert(env@.only_calls_added(old(env)@));
            }
            env.revert(kept);
        }
        r
    }

    /// What has vested of a stream by now.
    pub fn stream_balance(env: &mut Env, stream_id: u64) -> (r: Result<i128, Error>)
        ensures
            r == (if old(env)@.streams.contains_key(stream_id) {
                vested_result(old(env)@.streams[stream_id], old(env)@.timestamp)
            } else {
                Err::<i128, Error>(Error::NotFound)
            }),
            r is Ok ==> final(env)@ == old(env)@.read_stream(stream_id),
            r is Err ==> final(env)@ == old(env)@,
    {
        broadcast use crate::env::group_calls_added;

        let kept: usize = env.calls.len();
        let now: u64 = env.timestamp;
        let stream = get_existing_stream(env, stream_id)?;
        let r = release::vested_amount(&stream, now);
        if r.is_err() {
            proof {
                assert(env@.only_calls_added(old(env)@));
            }
            env.revert(kept);
        }
        r
    }

    /// The same as [`Contract::withdrawable`].
    pub fn claim_drip(env: &mut Env, stream_id: u64) -> (r: Result<i128, Error>)
        ensures
            r == (if old(env)@.streams.contains_key(stream_id) {
                withdrawable_result(old(env)@.streams[stream_id], old(env)@.timestamp)
            } else {
                Err::<i128, Error>(Error::NotFound)
            }),
            r is Ok ==> final(env)@ == old(env)@.read_stream(stream_id),
            r is Err ==> final(env)@ == old(env)@,
    {
        Self::withdrawable(env, stream_id)
    }
}

} // verus!
