//! # StreamPay streams
//!
//! The logic of a contract that manages linear payment streams. Each stream locks
//! a fixed token amount in escrow and releases it linearly to a recipient over a
//! time window.
//!
//! ```text
//! Draft ── start_stream ──► Active ── withdraw in full, settle ──► Settled
//!                           │    ▲
//!                      pause│    │resume
//!                           ▼    │
//!                           Paused
//!
//! Draft, Active, Paused ── cancel_stream ──► Cancelled
//! ```
//!
//! An entrypoint of [`Contract`] works on an [`env::Env`]: the ledger header, the
//! storage rows that the call may touch, the authorisations that it demands and
//! the calls that it asks of the ledger host. Whoever runs an entrypoint reads
//! the rows before it, and afterwards requires the authorisations, writes the
//! rows back and makes the host calls in their order.
//!
//! The contract of each entrypoint says when it refuses a call and with which
//! [`Error`], and what the whole environment is after it. Laws over them stand
//! beside what they speak of. Those that span the library stand in [`books`]
//! (every entrypoint keeps the rows in order), [`escrow`] (the contract never
//! owes more than it holds, unless it is itself the sender of a stream) and
//! [`laws`]. What a call does to the fields of the rows, whom it pays and what it
//! announces is told in [`effects`] and [`split_effects`]; when it is refused, in
//! [`refusals`]; what single reads and writes do, in [`rows`]; how calls keep rows
//! alive, in [`lifetimes`]; and what a page of a list holds, in [`pages`].
//!
//! A single admin may pause the contract, block tokens, set fees and limits,
//! override the end of a stream, migrate the storage and upgrade the code.
use vstd::prelude::*;

pub mod admin;
pub mod allowlist;
pub mod books;
pub mod config;
pub mod create;
pub mod effects;
pub mod env;
pub mod error;
pub mod escrow;
pub mod events;
pub mod fees;
pub mod gates;
pub mod host;
pub mod laws;
pub mod lifecycle;
pub mod lifetimes;
pub mod limits;
pub mod migrate;
pub mod multi;
pub mod pages;
pub mod queries;
pub mod refusals;
pub mod release;
pub mod rows;
pub mod shares;
pub mod snapshot_diff;
pub mod split_effects;
pub mod storage;
pub mod table;
pub mod views;
pub mod withdrawal;
pub mod withdrawer;

pub use crate::error::Error;
pub use crate::multi::{RecipientAllocation, SplitStream};
pub use crate::snapshot_diff::{SnapshotDiff, StreamSnapshot};
pub use crate::storage::{Stream, StreamStatus};

verus! {

/// The contract: its entrypoints are associated functions.
pub struct Contract;

} // verus!
