//! Entrypoints of the admin: initialisation, the global pause, token rules,
//! fees, limits and upgrades.
use vstd::prelude::*;

use crate::allowlist;
use crate::env::{Env, EnvView};
use crate::error::Error;
use crate::events::{publish, Event, LegacyEntrypoint};
use crate::fees;
use crate::gates::{get_existing_stream, require_admin};
use crate::host::{Address, HostCall, OrgToken, WasmHash};
use crate::limits;
use crate::storage;
use crate::Contract;

verus! {

impl EnvView {
    /// After `admin` took over a contract without one, with the pause off.
    pub open spec fn install_admin(self, admin: Address) -> EnvView {
        self.demand(admin).write_admin(admin).write_paused(false)
    }

    /// After every token of `tokens` was allowed, in order.
    pub open spec fn allow_tokens(self, tokens: Seq<Address>) -> EnvView
        decreases tokens.len(),
    {
        if tokens.len() == 0 {
            self
        } else {
            self.allow_tokens(tokens.drop_last()).write_token(tokens.last(), true)
        }
    }

    /// After every token of `tokens` was granted to `org`, in order.
    pub open spec fn allow_org_tokens(self, org: Address, tokens: Seq<Address>) -> EnvView
        decreases tokens.len(),
    {
        if tokens.len() == 0 {
            self
        } else {
            self.allow_org_tokens(org, tokens.drop_last()).write_org_token(org, tokens.last(), true)
        }
    }
}

/// A contract that has an admin cannot be initialised: initialisation leaves one
/// behind, and the pause off.
pub proof fn initialisation_installs_the_admin(e: EnvView, admin: Address)
    ensures
        e.install_admin(admin).admin == Some(admin),
        !e.install_admin(admin).is_paused(),
        e.install_admin(admin).admin_refusal(admin) is None,
{
}

/// After the tokens of a list were allowed, exactly they and the tokens that
/// were allowed before are allowed.
pub proof fn listed_tokens_are_allowed(e: EnvView, tokens: Seq<Address>, token: Address)
    ensures
        e.allow_tokens(tokens).token_blocked(token) == (e.token_blocked(token) && !tokens.contains(
            token,
        )),
        e.allow_tokens(tokens).admin == e.admin,
        e.allow_tokens(tokens).paused == e.paused,
    decreases tokens.len(),
{
    if tokens.len() > 0 {
        let rest = tokens.drop_last();
        listed_tokens_are_allowed(e, rest, token);
        assert(tokens.contains(token) == (rest.contains(token) || tokens.last() == token)) by {
            assert(tokens =~= rest.push(tokens.last()));
            if rest.contains(token) {
                let i = choose|i: int| 0 <= i < rest.len() && rest[i] == token;
                assert(tokens[i] == token);
            }
            if tokens.last() == token {
                assert(tokens[tokens.len() - 1] == token);
            }
        }
    }
}

/// After the tokens of a non-empty list were granted to `org`, they are
/// permitted for it, and a token that has no rule for `org` is not.
pub proof fn listed_tokens_are_granted(
    e: EnvView,
    org: Address,
    tokens: Seq<Address>,
    token: Address,
)
    ensures
        tokens.contains(token) ==> !e.allow_org_tokens(org, tokens).org_token_blocked(org, token),
        tokens.len() > 0 ==> e.allow_org_tokens(org, tokens).org_is_restricted(org),
        !tokens.contains(token) ==> (e.allow_org_tokens(org, tokens).org_tokens.contains_key(
            OrgToken { org, token },
        ) == e.org_tokens.contains_key(OrgToken { org, token })),
    decreases tokens.len(),
{
    if tokens.len() > 0 {
        let rest = tokens.drop_last();
        listed_tokens_are_granted(e, org, rest, token);
        assert(tokens.contains(token) == (rest.contains(token) || tokens.last() == token)) by {
            assert(tokens =~= rest.push(tokens.last()));
            if rest.contains(token) {
                let i = choose|i: int| 0 <= i < rest.len() && rest[i] == token;
                assert(tokens[i] == token);
            }
            if tokens.last() == token {
                assert(tokens[tokens.len() - 1] == token);
            }
        }
    }
}

/// Allows every token of `tokens`.
fn allow_tokens(env: &mut Env, tokens: &Vec<Address>)
    ensures
        final(env)@ == old(env)@.allow_tokens(tokens@),
{
    let mut i: usize = 0;
    while i < tokens.len()
        invariant
            i <= tokens@.len(),
            env@ == old(env)@.allow_tokens(tokens@.take(i as int)),
        decreases tokens.len() - i,
    {
        storage::set_token_allowed(env, tokens[i], true);
        proof {
            assert(tokens@.take(i + 1).drop_last() =~= tokens@.take(i as int));
        }
        i = i + 1;
    }
    proof {
        assert(tokens@.take(i as int) =~= tokens@);
    }
}

/// Grants every token of `tokens` to `org`.
fn allow_org_tokens(env: &mut Env, org: Address, tokens: &Vec<Address>)
    ensures
        final(env)@ == old(env)@.allow_org_tokens(org, tokens@),
{
    let mut i: usize = 0;
    while i < tokens.len()
        invariant
            i <= tokens@.len(),
            env@ == old(env)@.allow_org_tokens(org, tokens@.take(i as int)),
        decreases tokens.len() - i,
    {
        allowlist::set_org_token_allowed(env, org, tokens[i], true);
        proof {
            assert(tokens@.take(i + 1).drop_last() =~= tokens@.take(i as int));
        }
        i = i + 1;
    }
    proof {
        assert(tokens@.take(i as int) =~= tokens@);
    }
}

/// Installs the admin of a contract that has none.
fn install_admin(env: &mut Env, admin: Address) -> (r: Result<(), Error>)
    ensures
        if old(env)@.admin is Some {
            r == Err::<(), Error>(Error::AlreadyInitialized) && final(env)@ == old(env)@
        } else {
            r == Ok::<(), Error>(()) && final(env)@ == old(env)@.install_admin(admin)
        },
{
    broadcast use crate::env::group_calls_added;

    let kept: usize = env.calls.len();
    if storage::has_admin(env) {
        proof {
            assert(env@.only_calls_added(old(env)@));
        }
        env.revert(kept);
        return Err(Error::AlreadyInitialized);
    }
    env.require_auth(admin);
    storage::set_admin(env, admin);
    storage::set_paused(env, false);
    Ok(())
}

impl Contract {
    /// Makes `admin` the admin of a contract that has none.
    ///
    /// Needs the authorisation of `admin`.
    pub fn initialize(env: &mut Env, admin: Address) -> (r: Result<(), Error>)
        ensures
            if old(env)@.admin is Some {
                r == Err::<(), Error>(Error::AlreadyInitialized) && final(env)@ == old(env)@
            } else {
                &&& r == Ok::<(), Error>(())
                &&& final(env)@ == old(env)@.install_admin(admin).publish(
                    Event::DeprecatedEntrypoint {
                        caller: admin,
                        entrypoint: LegacyEntrypoint::Initialize,
                        timestamp: old(env)@.timestamp,
                    },
                )
            },
    {
        install_admin(env, admin)?;
        let timestamp: u64 = env.timestamp;
        publish(
            env,
            Event::DeprecatedEntrypoint {
                caller: admin,
                entrypoint: LegacyEntrypoint::Initialize,
                timestamp,
            },
        );
        Ok(())
    }

    /// Makes `admin` the admin and allows `tokens`, in one step.
    ///
    /// Needs the authorisation of `admin`.
    pub fn init_with_token_allowlist(env: &mut Env, admin: Address, tokens: Vec<Address>) -> (r:
        Result<(), Error>)
        ensures
            if old(env)@.admin is Some {
                r == Err::<(), Error>(Error::AlreadyInitialized) && final(env)@ == old(env)@
            } else {
                &&& r == Ok::<(), Error>(())
                &&& final(env)@ == old(env)@.install_admin(admin).allow_tokens(tokens@)
            },
    {
        install_admin(env, admin)?;
        allow_tokens(env, &tokens);
        Ok(())
    }

    /// Makes `admin` the admin, allows `tokens` and grants `org_tokens` to
    /// `org`, in one step.
    ///
    /// Needs the authorisation of `admin`.
    pub fn init_with_token_allowlist_for_org(
        env: &mut Env,
        admin: Address,
        tokens: Vec<Address>,
        org: Address,
        org_tokens: Vec<Address>,
    ) -> (r: Result<(), Error>)
        ensures
            if old(env)@.admin is Some {
                r == Err::<(), Error>(Error::AlreadyInitialized) && final(env)@ == old(env)@
            } else {
                &&& r == Ok::<(), Error>(())
                &&& final(env)@ == old(env)@.install_admin(admin).allow_tokens(
                    tokens@,
                ).allow_org_tokens(org, org_tokens@)
            },
    {
        install_admin(env, admin)?;
        allow_tokens(env, &tokens);
        allow_org_tokens(env, org, &org_tokens);
        Ok(())
    }

    /// Sets the global pause. Needs the authorisation of the admin.
    pub fn set_paused(env: &mut Env, admin: Address, paused: bool) -> (r: Result<(), Error>)
        ensures
            match old(env)@.admin_refusal(admin) {
                Some(err) => r == Err::<(), Error>(err) && final(env)@ == old(env)@.demand(admin),
                None => {
                    &&& r == Ok::<(), Error>(())
                    &&& final(env)@ == old(env)@.pass_admin(admin).write_paused(paused).publish(
                        Event::PausedSet { admin, paused, timestamp: old(env)@.timestamp },
                    )
                },
            },
    {
        let timestamp: u64 = env.timestamp;
        require_admin(env, admin)?;
        storage::set_paused(env, paused);
        publish(env, Event::PausedSet { admin, paused, timestamp });
        Ok(())
    }

    /// Whether the global pause is on.
    pub fn is_paused(env: &mut Env) -> (r: bool)
        ensures
            r == old(env)@.is_paused(),
            final(env)@ == old(env)@.read_paused(),
    {
        storage::is_paused(env)
    }

    /// Hands the admin role to `new_admin`. Needs the authorisation of the admin.
    pub fn set_admin(env: &mut Env, admin: Address, new_admin: Address) -> (r: Result<(), Error>)
        ensures
            match old(env)@.admin_refusal(admin) {
                Some(err) => r == Err::<(), Error>(err) && final(env)@ == old(env)@.demand(admin),
                None => {
                    &&& r == Ok::<(), Error>(())
                    &&& final(env)@ == old(env)@.pass_admin(admin).write_admin(new_admin).publish(
                        Event::AdminChanged { admin, new_admin, timestamp: old(env)@.timestamp },
                    )
                },
            },
    {
        let timestamp: u64 = env.timestamp;
        require_admin(env, admin)?;
        storage::set_admin(env, new_admin);
        publish(env, Event::AdminChanged { admin, new_admin, timestamp });
        Ok(())
    }

    /// Allows or blocks a token for streams that are created from now on.
    /// Needs the authorisation of the admin.
    pub fn set_token_allowed(env: &mut Env, admin: Address, token: Address, allowed: bool) -> (r:
        Result<(), Error>)
        ensures
            match old(env)@.admin_refusal(admin) {
                Some(err) => r == Err::<(), Error>(err) && final(env)@ == old(env)@.demand(admin),
                None => {
                    &&& r == Ok::<(), Error>(())
                    &&& final(env)@ == old(env)@.pass_admin(admin).write_token(
                        token,
                        allowed,
                    ).publish(
                        Event::TokenAllowedSet {
                            admin,
                            token,
                            allowed,
                            timestamp: old(env)@.timestamp,
                        },
                    )
                },
            },
    {
        let timestamp: u64 = env.timestamp;
        require_admin(env, admin)?;
        storage::set_token_allowed(env, token, allowed);
        publish(env, Event::TokenAllowedSet { admin, token, allowed, timestamp });
        Ok(())
    }

    /// Sets the address that receives the fees of streams. Needs the
    /// authorisation of the admin.
    pub fn set_fee_collector(env: &mut Env, admin: Address, collector: Address) -> (r: Result<
        (),
        Error,
    >)
        ensures
            match old(env)@.admin_refusal(admin) {
                Some(err) => r == Err::<(), Error>(err) && final(env)@ == old(env)@.demand(admin),
                None => {
                    &&& r == Ok::<(), Error>(())
                    &&& final(env)@ == old(env)@.pass_admin(admin).write_fee_collector(
                        collector,
                    ).publish(
                        Event::FeeCollectorSet {
                            admin,
                            collector,
                            timestamp: old(env)@.timestamp,
                        },
                    )
                },
            },
    {
        let timestamp: u64 = env.timestamp;
        require_admin(env, admin)?;
        fees::set_fee_collector(env, collector);
        publish(env, Event::FeeCollectorSet { admin, collector, timestamp });
        Ok(())
    }

    /// The address that receives the fees of streams, if one is set.
    pub fn get_fee_collector(env: &mut Env) -> (r: Option<Address>)
        ensures
            r == old(env)@.fee_collector,
            final(env)@ == old(env)@.read_fee_collector(),
    {
        fees::get_fee_collector(env)
    }

    /// Sets the fee of streams that name none. Needs the authorisation of the
    /// admin.
    pub fn set_default_fee_bps(env: &mut Env, admin: Address, fee_bps: u32) -> (r: Result<
        (),
        Error,
    >)
        ensures
            match old(env)@.admin_refusal(admin) {
                Some(err) => r == Err::<(), Error>(err) && final(env)@ == old(env)@.demand(admin),
                None => if fee_bps > fees::MAX_FEE_BPS {
                    &&& r == Err::<(), Error>(Error::InvalidFeeBps)
                    &&& final(env)@ == old(env)@.demand(admin)
                } else {
                    &&& r == Ok::<(), Error>(())
                    &&& final(env)@ == old(env)@.pass_admin(admin).write_default_fee(
                        fee_bps,
                    ).publish(
                        Event::DefaultFeeBpsSet { admin, fee_bps, timestamp: old(env)@.timestamp },
                    )
                },
            },
    {
        broadcast use crate::env::group_calls_added;

        let kept: usize = env.calls.len();
        let timestamp: u64 = env.timestamp;
        require_admin(env, admin)?;
        if let Err(err) = fees::validate_fee_bps(fee_bps) {
            proof {
                assert(env@.only_calls_added(old(env)@.demand(admin)));
            }
            env.revert(kept);
            return Err(err);
        }
        fees::set_default_fee_bps(env, fee_bps);
        publish(env, Event::DefaultFeeBpsSet { admin, fee_bps, timestamp });
        Ok(())
    }

    /// The fee of streams that name none.
    pub fn get_default_fee_bps(env: &mut Env) -> (r: u32)
        ensures
            r == old(env)@.default_fee(),
            final(env)@ == old(env)@.read_default_fee(),
    {
        fees::get_default_fee_bps(env)
    }

    /// The fee of a stream.
    pub fn get_stream_fee_bps(env: &mut Env, stream_id: u64) -> (r: Result<u32, Error>)
        ensures
            if old(env)@.streams.contains_key(stream_id) {
                &&& r == Ok::<u32, Error>(old(env)@.stream_fee(stream_id))
                &&& final(env)@ == old(env)@.read_stream(stream_id).read_stream_fee(stream_id)
            } else {
                r == Err::<u32, Error>(Error::NotFound) && final(env)@ == old(env)@
            },
    {
        get_existing_stream(env, stream_id)?;
        Ok(fees::get_stream_fee_bps(env, stream_id))
    }

    /// Grants `token` to `org`, or blocks it for `org`. Needs the authorisation
    /// of the admin.
    pub fn set_org_token_allowed(
        env: &mut Env,
        admin: Address,
        org: Address,
        token: Address,
        allowed: bool,
    ) -> (r: Result<(), Error>)
        ensures
            match old(env)@.admin_refusal(admin) {
                Some(err) => r == Err::<(), Error>(err) && final(env)@ == old(env)@.demand(admin),
                None => {
                    &&& r == Ok::<(), Error>(())
                    &&& final(env)@ == old(env)@.pass_admin(admin).write_org_token(
                        org,
                        token,
                        allowed,
                    )
                },
            },
    {
        require_admin(env, admin)?;
        allowlist::set_org_token_allowed(env, org, token, allowed);
        Ok(())
    }

    /// Whether neither the rules of `org` nor the global allowlist block
    /// `token`. The global allowlist is read only if the rules of `org` permit
    /// the token.
    pub fn is_org_token_allowed(env: &mut Env, org: Address, token: Address) -> (r: bool)
        ensures
            r == (!old(env)@.org_token_blocked(org, token) && !old(env)@.token_blocked(token)),
            final(env)@ == (if old(env)@.org_token_blocked(org, token) {
                old(env)@.read_org_token(org, token)
            } else {
                old(env)@.read_org_token(org, token).read_token(token)
            }),
    {
        if allowlist::is_org_token_blocked(env, org, token) {
            return false;
        }
        !storage::is_token_blocked(env, token)
    }

    /// Sets how many live streams a sender may reach. Needs the authorisation
    /// of the admin.
    pub fn set_max_streams_per_sender(env: &mut Env, admin: Address, limit: u64) -> (r: Result<
        (),
        Error,
    >)
        ensures
            match old(env)@.admin_refusal(admin) {
                Some(err) => r == Err::<(), Error>(err) && final(env)@ == old(env)@.demand(admin),
                None => {
                    &&& r == Ok::<(), Error>(())
                    &&& final(env)@ == old(env)@.pass_admin(admin).write_stream_limit(limit)
                },
            },
    {
        require_admin(env, admin)?;
        limits::set_max_streams_per_sender(env, limit);
        Ok(())
    }

    /// How many live streams a sender may reach.
    pub fn max_streams_per_sender(env: &mut Env) -> (r: u64)
        ensures
            r == old(env)@.stream_limit(),
            final(env)@ == old(env)@.read_stream_limit(),
    {
        limits::get_max_streams_per_sender(env)
    }

    /// How many live streams `sender` has.
    pub fn sender_stream_count(env: &mut Env, sender: Address) -> (r: u64)
        ensures
            r == old(env)@.sender_count(sender),
            final(env)@ == old(env)@.read_sender_count(sender),
    {
        limits::get_sender_stream_count(env, sender)
    }

    /// How many streams `sender` may still create.
    pub fn remaining_sender_capacity(env: &mut Env, sender: Address) -> (r: u64)
        ensures
            r as int == (if old(env)@.sender_count(sender) >= old(env)@.stream_limit() {
                0
            } else {
                old(env)@.stream_limit() - old(env)@.sender_count(sender)
            }),
            final(env)@ == old(env)@.read_stream_limit().read_sender_count(sender),
    {
        limits::remaining_sender_capacity(env, sender)
    }

    /// Sets the protocol fee, which [`Contract::withdraw_with_max_fee_bps`]
    /// charges. Needs the authorisation of the admin.
    pub fn set_fee_bps(env: &mut Env, admin: Address, fee_bps: u32) -> (r: Result<(), Error>)
        ensures
            match old(env)@.admin_refusal(admin) {
                Some(err) => r == Err::<(), Error>(err) && final(env)@ == old(env)@.demand(admin),
                None => if fee_bps > 10_000 {
                    &&& r == Err::<(), Error>(Error::InvalidAmount)
                    &&& final(env)@ == old(env)@.demand(admin)
                } else {
                    &&& r == Ok::<(), Error>(())
                    &&& final(env)@ == old(env)@.pass_admin(admin).write_fee_bps(fee_bps)
                },
            },
    {
        broadcast use crate::env::group_calls_added;

        let kept: usize = env.calls.len();
        require_admin(env, admin)?;
        if fee_bps > 10_000 {
            proof {
                assert(env@.only_calls_added(old(env)@.demand(admin)));
            }
            env.revert(kept);
            return Err(Error::InvalidAmount);
        }
        storage::set_fee_bps(env, fee_bps);
        Ok(())
    }

    /// The protocol fee.
    pub fn fee_bps(env: &mut Env) -> (r: u32)
        ensures
            r == old(env)@.protocol_fee(),
            final(env)@ == old(env)@.read_fee_bps(),
    {
        storage::get_fee_bps(env)
    }

    /// Replaces the contract's code and keeps its storage. Needs the
    /// authorisation of the admin.
    pub fn upgrade(env: &mut Env, admin: Address, new_wasm_hash: WasmHash) -> (r: Result<(), Error>)
        ensures
            match old(env)@.admin_refusal(admin) {
                Some(err) => r == Err::<(), Error>(err) && final(env)@ == old(env)@.demand(admin),
                None => {
                    &&& r == Ok::<(), Error>(())
                    &&& final(env)@ == old(env)@.pass_admin(admin).call(
                        HostCall::ReplaceCode { hash: new_wasm_hash },
                    ).publish(Event::Upgraded { hash: new_wasm_hash })
                },
            },
    {
        require_admin(env, admin)?;
        env.host_call(HostCall::ReplaceCode { hash: new_wasm_hash });
        publish(env, Event::Upgraded { hash: new_wasm_hash });
        Ok(())
    }
}

} // verus!
