//! Token rules of single organisations, on top of the global token allowlist.
//!
//! An organisation without rules may use every token. From the first token that
//! it is granted on, it may use only tokens that it is granted.
use vstd::prelude::*;

use crate::env::{Env, EnvView};
use crate::host::{Address, OrgToken};
use crate::storage::{extend_token_allowed_ttl, DataKey};

verus! {

impl EnvView {
    /// Whether `org` was ever granted a token.
    pub open spec fn org_is_restricted(self, org: Address) -> bool {
        self.org_restricted.contains_key(org) && self.org_restricted[org]
    }

    /// Whether the rules of `org` keep it from using `token`.
    pub open spec fn org_token_blocked(self, org: Address, token: Address) -> bool {
        let key = OrgToken { org, token };
        if self.org_tokens.contains_key(key) {
            !self.org_tokens[key]
        } else {
            self.org_is_restricted(org)
        }
    }

    pub open spec fn read_org_token(self, org: Address, token: Address) -> EnvView {
        let key = OrgToken { org, token };
        if self.org_tokens.contains_key(key) {
            self.extend_token_row(DataKey::OrgTokenAllowed(key))
        } else if self.org_restricted.contains_key(org) {
            self.extend_token_row(DataKey::OrgRestricted(org))
        } else {
            self
        }
    }

    pub open spec fn write_org_token(self, org: Address, token: Address, allowed: bool) -> EnvView {
        let key = OrgToken { org, token };
        let ruled = EnvView {
            org_tokens: self.org_tokens.insert(key, allowed),
            ..self
        }.extend_token_row(DataKey::OrgTokenAllowed(key));
        if allowed {
            EnvView {
                org_restricted: ruled.org_restricted.insert(org, true),
                ..ruled
            }.extend_token_row(DataKey::OrgRestricted(org))
        } else {
            ruled
        }
    }
}

/// Granting `token` to `org` puts it under its own rules: `token` is permitted,
/// and every token without a rule of `org` is blocked from then on.
pub proof fn first_grant_restricts_the_organisation(
    e: EnvView,
    org: Address,
    token: Address,
    other: Address,
)
    ensures
        e.write_org_token(org, token, true).org_is_restricted(org),
        !e.write_org_token(org, token, true).org_token_blocked(org, token),
        other != token && !e.org_tokens.contains_key(OrgToken { org, token: other })
            ==> e.write_org_token(org, token, true).org_token_blocked(org, other),
{
}

/// A block keeps `org` from using `token`, and changes nothing else for it.
pub proof fn organisation_block_is_explicit(
    e: EnvView,
    org: Address,
    token: Address,
    other: Address,
)
    ensures
        e.write_org_token(org, token, false).org_token_blocked(org, token),
        other != token ==> e.write_org_token(org, token, false).org_token_blocked(org, other)
            == e.org_token_blocked(org, other),
{
}

/// The rules of one organisation mean nothing to another.
pub proof fn organisations_do_not_interfere(
    e: EnvView,
    org: Address,
    token: Address,
    allowed: bool,
    other_org: Address,
    other: Address,
)
    requires
        other_org != org,
    ensures
        e.write_org_token(org, token, allowed).org_token_blocked(other_org, other)
            == e.org_token_blocked(other_org, other),
{
}

/// An organisation that was never granted a token may use every token that is
/// not blocked for it.
pub proof fn unrestricted_organisations_use_every_token(e: EnvView, org: Address, token: Address)
    requires
        !e.org_restricted.contains_key(org),
        !e.org_tokens.contains_key(OrgToken { org, token }),
    ensures
        !e.org_token_blocked(org, token),
{
}

/// Grants `token` to `org`, or blocks it for `org`.
pub fn set_org_token_allowed(env: &mut Env, org: Address, token: Address, allowed: bool)
    ensures
        final(env)@ == old(env)@.write_org_token(org, token, allowed),
{
    let key = OrgToken { org, token };
    env.org_tokens.set(key, allowed);
    extend_token_allowed_ttl(env, DataKey::OrgTokenAllowed(key));
    if allowed {
        env.org_restricted.set(org, true);
        extend_token_allowed_ttl(env, DataKey::OrgRestricted(org));
    }
}

/// Whether the rules of `org` keep it from using `token`.
pub fn is_org_token_blocked(env: &mut Env, org: Address, token: Address) -> (r: bool)
    ensures
        r == old(env)@.org_token_blocked(org, token),
        final(env)@ == old(env)@.read_org_token(org, token),
{
    let key = OrgToken { org, token };
    let rule: Option<bool> = match env.org_tokens.get(key) {
        Some(allowed) => Some(*allowed),
        None => None,
    };
    let restricted: Option<bool> = match env.org_restricted.get(org) {
        Some(b) => Some(*b),
        None => None,
    };
    match rule {
        Some(allowed) => {
            extend_token_allowed_ttl(env, DataKey::OrgTokenAllowed(key));
            !allowed
        },
        None => match restricted {
            Some(b) => {
                extend_token_allowed_ttl(env, DataKey::OrgRestricted(org));
                b
            },
            None => false,
        },
    }
}

} // verus!
