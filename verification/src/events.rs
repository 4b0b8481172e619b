//! The events that the contract publishes.
use vstd::prelude::*;

use crate::env::{Env, EnvView};
use crate::host::{Address, HostCall, WasmHash};

verus! {

/// An entrypoint that is kept for older callers only.
#[derive(Copy, Clone, Debug, PartialEq, Eq, Structural)]
pub enum LegacyEntrypoint {
    /// [`crate::Contract::initialize`].
    Initialize,
}

/// A published event. `timestamp` is the ledger time of the call.
#[derive(Copy, Clone, Debug, PartialEq, Eq, Structural)]
pub enum Event {
    DeprecatedEntrypoint { caller: Address, entrypoint: LegacyEntrypoint, timestamp: u64 },
    PausedSet { admin: Address, paused: bool, timestamp: u64 },
    AdminChanged { admin: Address, new_admin: Address, timestamp: u64 },
    TokenAllowedSet { admin: Address, token: Address, allowed: bool, timestamp: u64 },
    FeeCollectorSet { admin: Address, collector: Address, timestamp: u64 },
    DefaultFeeBpsSet { admin: Address, fee_bps: u32, timestamp: u64 },
    Created {
        stream_id: u64,
        sender: Address,
        recipient: Address,
        token: Address,
        total_amount: i128,
        timestamp: u64,
    },
    Started { stream_id: u64, start_time: u64, end_time: u64, timestamp: u64 },
    Withdrawn { stream_id: u64, recipient: Address, amount: i128, timestamp: u64 },
    FeeCharged {
        stream_id: u64,
        fee_amount: i128,
        fee_bps: u32,
        collector: Address,
        timestamp: u64,
    },
    Settled { stream_id: u64, recipient: Address, amount: i128, timestamp: u64 },
    Paused { stream_id: u64, sender: Address, paused_at: u64, timestamp: u64 },
    Resumed { stream_id: u64, sender: Address, end_time: u64, timestamp: u64 },
    Cancelled {
        stream_id: u64,
        sender: Address,
        sender_refund: i128,
        recipient_payout: i128,
        timestamp: u64,
    },
    Amended {
        stream_id: u64,
        sender: Address,
        rate_per_second: i128,
        end_time: u64,
        timestamp: u64,
    },
    Upgraded { hash: WasmHash },
}

impl EnvView {
    /// The environment after one more event.
    pub open spec fn publish(self, event: Event) -> EnvView {
        self.call(HostCall::Publish { event })
    }
}

/// Publishes `event`.
pub fn publish(env: &mut Env, event: Event)
    ensures
        final(env)@ == old(env)@.publish(event),
{
    env.host_call(HostCall::Publish { event });
}

} // verus!
