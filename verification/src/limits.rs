//! How many live streams one sender may have.
use vstd::prelude::*;

use crate::env::{Env, EnvView};
use crate::error::Error;
use crate::host::Address;
use crate::storage::{extend_instance_ttl, extend_persistent_ttl, DataKey};

verus! {

/// The limit until one is set.
pub const DEFAULT_MAX_STREAMS_PER_SENDER: u64 = 10;

impl EnvView {
    /// The number of live streams that a sender may reach by `create_stream`.
    pub open spec fn stream_limit(self) -> u64 {
        match self.max_streams {
            Some(limit) => limit,
            None => DEFAULT_MAX_STREAMS_PER_SENDER,
        }
    }

    pub open spec fn read_stream_limit(self) -> EnvView {
        self.extend_instance_if(self.max_streams is Some)
    }

    pub open spec fn write_stream_limit(self, limit: u64) -> EnvView {
        EnvView { max_streams: Some(limit), ..self }.extend_instance()
    }

    /// The recorded number of live streams of `sender`.
    pub open spec fn sender_count(self, sender: Address) -> u64 {
        if self.sender_streams.contains_key(sender) {
            self.sender_streams[sender]
        } else {
            0
        }
    }

    pub open spec fn read_sender_count(self, sender: Address) -> EnvView {
        if self.sender_streams.contains_key(sender) {
            self.extend_row(DataKey::SenderStreamCount(sender))
        } else {
            self
        }
    }

    pub open spec fn write_sender_count(self, sender: Address, count: u64) -> EnvView {
        EnvView {
            sender_streams: self.sender_streams.insert(sender, count),
            ..self
        }.extend_row(DataKey::SenderStreamCount(sender))
    }

    /// After `sender` gained a live stream.
    pub open spec fn add_sender_stream(self, sender: Address) -> EnvView {
        let count = self.sender_count(sender);
        let more = if count == u64::MAX {
            count
        } else {
            (count + 1) as u64
        };
        self.read_sender_count(sender).write_sender_count(sender, more)
    }

    /// After `sender` lost a live stream.
    pub open spec fn drop_sender_stream(self, sender: Address) -> EnvView {
        let count = self.sender_count(sender);
        let fewer = if count == 0 {
            count
        } else {
            (count - 1) as u64
        };
        self.read_sender_count(sender).write_sender_count(sender, fewer)
    }
}

/// Sets the limit.
pub fn set_max_streams_per_sender(env: &mut Env, limit: u64)
    ensures
        final(env)@ == old(env)@.write_stream_limit(limit),
{
    env.max_streams = Some(limit);
    extend_instance_ttl(env);
}

/// The limit.
pub fn get_max_streams_per_sender(env: &mut Env) -> (r: u64)
    ensures
        r == old(env)@.stream_limit(),
        final(env)@ == old(env)@.read_stream_limit(),
{
    match env.max_streams {
        Some(limit) => {
            extend_instance_ttl(env);
            limit
        },
        None => DEFAULT_MAX_STREAMS_PER_SENDER,
    }
}

/// The number of live streams of `sender`.
pub fn get_sender_stream_count(env: &mut Env, sender: Address) -> (r: u64)
    ensures
        r == old(env)@.sender_count(sender),
        final(env)@ == old(env)@.read_sender_count(sender),
{
    let row: Option<u64> = match env.sender_streams.get(sender) {
        Some(count) => Some(*count),
        None => None,
    };
    match row {
        Some(count) => {
            extend_persistent_ttl(env, DataKey::SenderStreamCount(sender));
            count
        },
        None => 0,
    }
}

fn set_sender_stream_count(env: &mut Env, sender: Address, count: u64)
    ensures
        final(env)@ == old(env)@.write_sender_count(sender, count),
{
    env.sender_streams.set(sender, count);
    extend_persistent_ttl(env, DataKey::SenderStreamCount(sender));
}

/// Counts one more live stream of `sender`.
pub fn increment_sender_stream_count(env: &mut Env, sender: Address)
    ensures
        final(env)@ == old(env)@.add_sender_stream(sender),
{
    let count: u64 = get_sender_stream_count(env, sender);
    set_sender_stream_count(env, sender, count.saturating_add(1));
}

/// Counts one live stream of `sender` less.
pub fn decrement_sender_stream_count(env: &mut Env, sender: Address)
    ensures
        final(env)@ == old(env)@.drop_sender_stream(sender),
{
    let count: u64 = get_sender_stream_count(env, sender);
    set_sender_stream_count(env, sender, count.saturating_sub(1));
}

/// Refuses a sender who has reached the limit.
pub fn check_sender_limit(env: &mut Env, sender: Address) -> (r: Result<(), Error>)
    ensures
        r == (if old(env)@.sender_count(sender) >= old(env)@.stream_limit() {
            Err::<(), Error>(Error::StreamLimitExceeded)
        } else {
            Ok(())
        }),
        final(env)@ == old(env)@.read_stream_limit().read_sender_count(sender),
{
    let limit: u64 = get_max_streams_per_sender(env);
    let count: u64 = get_sender_stream_count(env, sender);
    if count >= limit {
        Err(Error::StreamLimitExceeded)
    } else {
        Ok(())
    }
}

/// How many streams `sender` may still create.
pub fn remaining_sender_capacity(env: &mut Env, sender: Address) -> (r: u64)
    ensures
        r as int == (if old(env)@.sender_count(sender) >= old(env)@.stream_limit() {
            0
        } else {
            old(env)@.stream_limit() - old(env)@.sender_count(sender)
        }),
        final(env)@ == old(env)@.read_stream_limit().read_sender_count(sender),
{
    let limit: u64 = get_max_streams_per_sender(env);
    let count: u64 = get_sender_stream_count(env, sender);
    limit.saturating_sub(count)
}

} // verus!
