//! What one invocation of the contract sees and does: the ledger header, the
//! contract's storage rows, the authorisations that it demands and the calls
//! that it asks of the host.
use vstd::prelude::*;

use crate::host::{Address, HostCall, OrgToken};
use crate::migrate::StorageVersion;
use crate::multi::{SplitStream, SplitStreamView};
use crate::storage::Stream;
use crate::table::Table;

verus! {

/// The environment of an invocation.
///
/// Singletons are `None` until they are first written. When an entrypoint
/// returns `Ok`, the authorisations of `auths` are required and `calls` are
/// made in their order, and the storage rows are written back. When it returns
/// `Err`, only the authorisations are required, and the call has failed.
#[derive(Clone, Debug)]
pub struct Env {
    /// Ledger time, in seconds.
    pub timestamp: u64,
    /// Ledger sequence number.
    pub sequence: u32,
    /// Address of the running contract.
    pub contract_address: Address,
    pub admin: Option<Address>,
    pub paused: Option<bool>,
    pub stream_count: Option<u64>,
    pub fee_bps: Option<u32>,
    pub fee_collector: Option<Address>,
    pub default_fee_bps: Option<u32>,
    pub max_streams: Option<u64>,
    pub admin_nonce: Option<u64>,
    pub version: Option<StorageVersion>,
    pub streams: Table<u64, Stream>,
    pub stream_fees: Table<u64, u32>,
    pub withdrawers: Table<u64, Vec<Address>>,
    pub splits: Table<u64, SplitStream>,
    pub token_allowed: Table<Address, bool>,
    pub org_tokens: Table<OrgToken, bool>,
    pub org_restricted: Table<Address, bool>,
    pub sender_streams: Table<Address, u64>,
    /// Addresses whose authorisation the invocation demands, in order.
    pub auths: Vec<Address>,
    /// Calls asked of the host, in order.
    pub calls: Vec<HostCall>,
}

/// The mathematical value of an [`Env`].
#[verifier::ext_equal]
pub struct EnvView {
    pub timestamp: u64,
    pub sequence: u32,
    pub contract_address: Address,
    pub admin: Option<Address>,
    pub paused: Option<bool>,
    pub stream_count: Option<u64>,
    pub fee_bps: Option<u32>,
    pub fee_collector: Option<Address>,
    pub default_fee_bps: Option<u32>,
    pub max_streams: Option<u64>,
    pub admin_nonce: Option<u64>,
    pub version: Option<StorageVersion>,
    pub streams: Map<u64, Stream>,
    pub stream_fees: Map<u64, u32>,
    pub withdrawers: Map<u64, Seq<Address>>,
    pub splits: Map<u64, SplitStreamView>,
    pub token_allowed: Map<Address, bool>,
    pub org_tokens: Map<OrgToken, bool>,
    pub org_restricted: Map<Address, bool>,
    pub sender_streams: Map<Address, u64>,
    pub auths: Seq<Address>,
    pub calls: Seq<HostCall>,
}

impl View for Env {
    type V = EnvView;

    open spec fn view(&self) -> EnvView {
        EnvView {
            timestamp: self.timestamp,
            sequence: self.sequence,
            contract_address: self.contract_address,
            admin: self.admin,
            paused: self.paused,
            stream_count: self.stream_count,
            fee_bps: self.fee_bps,
            fee_collector: self.fee_collector,
            default_fee_bps: self.default_fee_bps,
            max_streams: self.max_streams,
            admin_nonce: self.admin_nonce,
            version: self.version,
            streams: self.streams@,
            stream_fees: self.stream_fees@,
            withdrawers: self.withdrawers@,
            splits: self.splits@,
            token_allowed: self.token_allowed@,
            org_tokens: self.org_tokens@,
            org_restricted: self.org_restricted@,
            sender_streams: self.sender_streams@,
            auths: self.auths@,
            calls: self.calls@,
        }
    }
}

impl EnvView {
    /// A contract that was just deployed.
    pub open spec fn fresh(contract_address: Address, timestamp: u64, sequence: u32) -> EnvView {
        EnvView {
            timestamp,
            sequence,
            contract_address,
            admin: None,
            paused: None,
            stream_count: None,
            fee_bps: None,
            fee_collector: None,
            default_fee_bps: None,
            max_streams: None,
            admin_nonce: None,
            version: None,
            streams: Map::empty(),
            stream_fees: Map::empty(),
            withdrawers: Map::empty(),
            splits: Map::empty(),
            token_allowed: Map::empty(),
            org_tokens: Map::empty(),
            org_restricted: Map::empty(),
            sender_streams: Map::empty(),
            auths: Seq::empty(),
            calls: Seq::empty(),
        }
    }

    /// The environment after one more host call.
    pub open spec fn call(self, c: HostCall) -> EnvView {
        EnvView { calls: self.calls.push(c), ..self }
    }

    /// The environment after one more demanded authorisation.
    pub open spec fn demand(self, a: Address) -> EnvView {
        EnvView { auths: self.auths.push(a), ..self }
    }

    /// The environment after a token transfer.
    pub open spec fn transfer(self, token: Address, from: Address, to: Address, amount: i128) -> EnvView {
        self.call(HostCall::Transfer { token, from, to, amount })
    }

    /// Whether `self` differs from `before` at most by host calls that were
    /// added at the end.
    pub open spec fn only_calls_added(self, before: EnvView) -> bool {
        &&& self == (EnvView { calls: self.calls, ..before })
        &&& before.calls.len() <= self.calls.len()
        &&& before.calls == self.calls.take(before.calls.len() as int)
    }
}

/// One more host call keeps what was there before.
pub broadcast proof fn lemma_call_added(e: EnvView, c: HostCall, before: EnvView)
    requires
        e.only_calls_added(before),
    ensures
        #[trigger] e.call(c).only_calls_added(before),
{
    assert(e.call(c).calls.take(before.calls.len() as int) =~= e.calls.take(
        before.calls.len() as int,
    ));
}

/// An environment differs from itself by no host call.
pub broadcast proof fn lemma_no_call_added(e: EnvView)
    ensures
        #[trigger] e.only_calls_added(e),
{
    assert(e.calls.take(e.calls.len() as int) =~= e.calls);
}

/// A demanded authorisation makes no difference in host calls.
pub broadcast proof fn lemma_demand_adds_no_call(e: EnvView, a: Address, before: EnvView)
    requires
        e.only_calls_added(before),
    ensures
        #[trigger] e.demand(a).only_calls_added(before.demand(a)),
{
}

pub broadcast group group_calls_added {
    lemma_call_added,
    lemma_demand_adds_no_call,
    lemma_no_call_added,
}

impl Env {
    /// The environment of a contract that was just deployed.
    pub fn new(contract_address: Address, timestamp: u64, sequence: u32) -> (r: Env)
        ensures
            r@ == EnvView::fresh(contract_address, timestamp, sequence),
    {
        Env {
            timestamp,
            sequence,
            contract_address,
            admin: None,
            paused: None,
            stream_count: None,
            fee_bps: None,
            fee_collector: None,
            default_fee_bps: None,
            max_streams: None,
            admin_nonce: None,
            version: None,
            streams: Table::new(),
            stream_fees: Table::new(),
            withdrawers: Table::new(),
            splits: Table::new(),
            token_allowed: Table::new(),
            org_tokens: Table::new(),
            org_restricted: Table::new(),
            sender_streams: Table::new(),
            auths: Vec::new(),
            calls: Vec::new(),
        }
    }

    /// Asks the host for one more call.
    pub fn host_call(&mut self, c: HostCall)
        ensures
            final(self)@ == old(self)@.call(c),
    {
        self.calls.push(c);
    }

    /// Demands the authorisation of `a`.
    pub fn require_auth(&mut self, a: Address)
        ensures
            final(self)@ == old(self)@.demand(a),
    {
        self.auths.push(a);
    }

    /// Asks the host to move `amount` of `token`.
    pub fn transfer(&mut self, token: Address, from: Address, to: Address, amount: i128)
        ensures
            final(self)@ == old(self)@.transfer(token, from, to, amount),
    {
        self.host_call(HostCall::Transfer { token, from, to, amount });
    }

    /// Forgets every host call but the first `kept`.
    pub fn revert(&mut self, kept: usize)
        requires
            kept <= old(self)@.calls.len(),
        ensures
            final(self)@ == (EnvView { calls: old(self)@.calls.take(kept as int), ..old(self)@ }),
    {
        self.calls.truncate(kept);
        proof {
            assert(self.calls@ =~= old(self)@.calls.take(kept as int));
        }
    }
}

} // verus!
