//! # Versioned migration
//!
//! The contract records which layout its storage has. Migration brings the
//! storage to the latest layout, one version at a time, and never back.
//!
//! | Version | Layout                                   |
//! |---------|------------------------------------------|
//! | 0       | No version recorded yet.                 |
//! | 1       | The current layout, with its version row. |
use vstd::prelude::*;

use crate::env::{Env, EnvView};
use crate::error::Error;
use crate::gates::require_admin;
use crate::host::{Address, HostCall};
use crate::storage::{ledgers_after, INSTANCE_TTL_EXTEND_TO, INSTANCE_TTL_MIN_REMAINING};
use crate::Contract;

verus! {

/// The latest supported storage version.
pub const LATEST_VERSION: u32 = 1;

/// The recorded version of the contract's storage.
#[derive(Copy, Clone, Debug, PartialEq, Eq, Structural)]
pub struct StorageVersion {
    pub version: u32,
}

impl EnvView {
    /// The storage version; 0 until one is recorded.
    pub open spec fn storage_version(self) -> u32 {
        match self.version {
            Some(v) => v.version,
            None => 0,
        }
    }

    /// After `version` was recorded. The instance is then extended from the
    /// threshold on, not from the current ledger.
    pub open spec fn write_version(self, version: u32) -> EnvView {
        let threshold = ledgers_after(self.sequence, INSTANCE_TTL_MIN_REMAINING);
        EnvView { version: Some(StorageVersion { version }), ..self }.call(
            HostCall::ExtendInstance {
                threshold,
                extend_to: ledgers_after(threshold, INSTANCE_TTL_EXTEND_TO),
            },
        )
    }

    /// After a migration by the admin.
    pub open spec fn migrate(self, caller: Address) -> EnvView {
        let passed = self.pass_admin(caller);
        if self.storage_version() >= LATEST_VERSION {
            passed
        } else {
            passed.write_version(LATEST_VERSION)
        }
    }
}

/// A migrated contract is at the latest version, and migrating it again changes
/// no storage.
pub proof fn migration_is_idempotent(e: EnvView, caller: Address)
    ensures
        e.migrate(caller).storage_version() >= LATEST_VERSION,
        e.migrate(caller).migrate(caller) == e.migrate(caller).pass_admin(caller),
{
}

/// Migration never lowers the version, and leaves every other row as it is.
pub proof fn migration_only_raises_the_version(e: EnvView, caller: Address)
    ensures
        e.migrate(caller).storage_version() >= e.storage_version(),
        e.migrate(caller) == (EnvView {
            version: e.migrate(caller).version,
            auths: e.auths.push(caller),
            calls: e.migrate(caller).calls,
            ..e
        }),
{
}

/// The global pause does not keep the admin from migrating.
pub proof fn migration_ignores_the_pause(e: EnvView, caller: Address, paused: bool)
    ensures
        e.write_paused(paused).admin_refusal(caller) == e.admin_refusal(caller),
        e.write_paused(paused).migrate(caller).storage_version() == e.migrate(
            caller,
        ).storage_version(),
{
}

/// The storage version.
pub fn current_version(env: &Env) -> (r: u32)
    ensures
        r == env@.storage_version(),
{
    match env.version {
        Some(v) => v.version,
        None => 0,
    }
}

/// Whether the storage needs no migration.
pub fn is_at_latest_version(env: &Env) -> (r: bool)
    ensures
        r == (env@.storage_version() >= LATEST_VERSION),
{
    current_version(env) >= LATEST_VERSION
}

fn set_version(env: &mut Env, version: u32)
    ensures
        final(env)@ == old(env)@.write_version(version),
{
    env.version = Some(StorageVersion { version });
    let threshold: u32 = env.sequence.saturating_add(INSTANCE_TTL_MIN_REMAINING);
    let extend_to: u32 = threshold.saturating_add(INSTANCE_TTL_EXTEND_TO);
    env.host_call(HostCall::ExtendInstance { threshold, extend_to });
}

/// Runs the migration steps that are due. Needs the authorisation of the admin;
/// the global pause does not matter.
pub fn migrate_internal(env: &mut Env, caller: Address) -> (r: Result<(), Error>)
    ensures
        match old(env)@.admin_refusal(caller) {
            Some(err) => r == Err::<(), Error>(err) && final(env)@ == old(env)@.demand(caller),
            None => r == Ok::<(), Error>(()) && final(env)@ == old(env)@.migrate(caller),
        },
{
    require_admin(env, caller)?;
    let current: u32 = current_version(env);
    if current >= LATEST_VERSION {
        return Ok(());
    }
    let mut v: u32 = current;
    // 0 to 1: the rows stay as they are and get their version recorded.
    if v == 0 {
        set_version(env, 1);
        v = 1;
    }
    assert(v == LATEST_VERSION);
    Ok(())
}

impl Contract {
    /// Brings the storage to the latest version. See [`migrate_internal`].
    pub fn migrate(env: &mut Env, admin: Address) -> (r: Result<(), Error>)
        ensures
            match old(env)@.admin_refusal(admin) {
                Some(err) => r == Err::<(), Error>(err) && final(env)@ == old(env)@.demand(admin),
                None => r == Ok::<(), Error>(()) && final(env)@ == old(env)@.migrate(admin),
            },
    {
        migrate_internal(env, admin)
    }

    /// The storage version.
    pub fn storage_version(env: &Env) -> (r: u32)
        ensures
            r == env@.storage_version(),
    {
        current_version(env)
    }
}

} // verus!
