//! Who may withdraw from a stream: the recipient, and whom the sender lists.
use vstd::prelude::*;

use crate::env::{Env, EnvView};
use crate::error::Error;
use crate::host::Address;
use crate::storage;

verus! {

impl EnvView {
    /// Whether `caller` may withdraw from the stream for `recipient`.
    pub open spec fn may_withdraw(self, stream_id: u64, caller: Address, recipient: Address) -> bool {
        caller == recipient || self.withdrawer_list(stream_id).contains(caller)
    }

    /// After `caller` was checked against the recipient and, if it is another
    /// address, against the list.
    pub open spec fn check_withdrawer(self, stream_id: u64, caller: Address, recipient: Address) -> EnvView {
        if caller == recipient {
            self.demand(caller)
        } else {
            self.demand(caller).read_withdrawers(stream_id)
        }
    }

    /// After `withdrawer` was added to the list of a stream.
    pub open spec fn add_withdrawer(self, stream_id: u64, withdrawer: Address) -> EnvView {
        let list = self.withdrawer_list(stream_id);
        let read = self.read_withdrawers(stream_id);
        if list.contains(withdrawer) {
            read
        } else {
            read.write_withdrawers(stream_id, list.push(withdrawer))
        }
    }

    /// After `withdrawer` was taken off the list of a stream.
    pub open spec fn remove_withdrawer(self, stream_id: u64, withdrawer: Address) -> EnvView {
        let list = self.withdrawer_list(stream_id);
        let read = self.read_withdrawers(stream_id);
        if list.contains(withdrawer) {
            read.write_withdrawers(stream_id, list.remove_value(withdrawer))
        } else {
            read
        }
    }
}

/// A listed address may withdraw, and adding it again changes no storage.
pub proof fn added_withdrawers_may_withdraw(
    e: EnvView,
    stream_id: u64,
    withdrawer: Address,
    recipient: Address,
)
    ensures
        e.add_withdrawer(stream_id, withdrawer).may_withdraw(stream_id, withdrawer, recipient),
        e.add_withdrawer(stream_id, withdrawer).add_withdrawer(stream_id, withdrawer).withdrawers
            == e.add_withdrawer(stream_id, withdrawer).withdrawers,
{
    let list = e.withdrawer_list(stream_id);
    assert(list.push(withdrawer)[list.len() as int] == withdrawer);
    assert(list.push(withdrawer).contains(withdrawer));
}

/// An address that was taken off a list without repetitions may no longer
/// withdraw, unless it is the recipient; taking it off again changes no storage.
pub proof fn removed_withdrawers_may_not_withdraw(
    e: EnvView,
    stream_id: u64,
    withdrawer: Address,
    recipient: Address,
)
    requires
        e.withdrawer_list(stream_id).no_duplicates(),
        withdrawer != recipient,
    ensures
        !e.remove_withdrawer(stream_id, withdrawer).may_withdraw(stream_id, withdrawer, recipient),
        e.remove_withdrawer(stream_id, withdrawer).remove_withdrawer(
            stream_id,
            withdrawer,
        ).withdrawers == e.remove_withdrawer(stream_id, withdrawer).withdrawers,
{
    let list = e.withdrawer_list(stream_id);
    list.index_of_first_ensures(withdrawer);
    if list.contains(withdrawer) {
        let i = list.index_of_first(withdrawer)->0;
        assert(list.remove_value(withdrawer) == list.remove(i));
        assert(!list.remove(i).contains(withdrawer));
    }
}

/// Removing an address that was just added restores the list.
pub proof fn removal_undoes_addition(e: EnvView, stream_id: u64, withdrawer: Address)
    requires
        !e.withdrawer_list(stream_id).contains(withdrawer),
    ensures
        e.add_withdrawer(stream_id, withdrawer).remove_withdrawer(
            stream_id,
            withdrawer,
        ).withdrawer_list(stream_id) == e.withdrawer_list(stream_id),
{
    let list = e.withdrawer_list(stream_id);
    let longer = list.push(withdrawer);
    assert(longer[list.len() as int] == withdrawer);
    assert(longer.contains(withdrawer));
    longer.index_of_first_ensures(withdrawer);
    let i = longer.index_of_first(withdrawer)->0;
    if i < list.len() {
        assert(list[i] == withdrawer);
    }
    assert(longer.remove_value(withdrawer) =~= list);
}

/// The recipient may always withdraw.
pub proof fn recipients_may_withdraw(e: EnvView, stream_id: u64, recipient: Address)
    ensures
        e.may_withdraw(stream_id, recipient, recipient),
{
}

/// Position of the first occurrence of `a`.
fn position(list: &Vec<Address>, a: Address) -> (r: Option<usize>)
    ensures
        match r {
            Some(i) => i < list@.len() && list@[i as int] == a && list@.index_of_first(a) == Some(
                i as int,
            ),
            None => !list@.contains(a),
        },
{
    let mut i: usize = 0;
    while i < list.len()
        invariant
            i <= list@.len(),
            forall|j: int| 0 <= j < i ==> list@[j] != a,
        decreases list.len() - i,
    {
        if list[i] == a {
            proof {
                list@.index_of_first_ensures(a);
            }
            return Some(i);
        }
        i = i + 1;
    }
    None
}

/// Demands the authorisation of `caller`, and refuses a caller who is neither
/// the recipient nor on the list of the stream.
pub fn require_withdraw_auth(
    env: &mut Env,
    stream_id: u64,
    caller: Address,
    recipient: Address,
) -> (r: Result<(), Error>)
    ensures
        r == (if old(env)@.may_withdraw(stream_id, caller, recipient) {
            Ok(())
        } else {
            Err::<(), Error>(Error::Unauthorized)
        }),
        final(env)@ == old(env)@.check_withdrawer(stream_id, caller, recipient),
{
    env.require_auth(caller);
    if caller == recipient {
        return Ok(());
    }
    let list: Vec<Address> = storage::get_withdrawer_allowlist(env, stream_id);
    match position(&list, caller) {
        Some(_) => Ok(()),
        None => Err(Error::Unauthorized),
    }
}

/// Adds an address to the list of a stream; an address on the list stays once.
pub fn add_withdrawer(env: &mut Env, stream_id: u64, withdrawer: Address)
    ensures
        final(env)@ == old(env)@.add_withdrawer(stream_id, withdrawer),
{
    let mut list: Vec<Address> = storage::get_withdrawer_allowlist(env, stream_id);
    if position(&list, withdrawer).is_none() {
        list.push(withdrawer);
        storage::set_withdrawer_allowlist(env, stream_id, list);
    }
}

/// Takes an address off the list of a stream, if it is on it.
pub fn remove_withdrawer(env: &mut Env, stream_id: u64, withdrawer: Address)
    ensures
        final(env)@ == old(env)@.remove_withdrawer(stream_id, withdrawer),
{
    let mut list: Vec<Address> = storage::get_withdrawer_allowlist(env, stream_id);
    if let Some(i) = position(&list, withdrawer) {
        list.remove(i);
        storage::set_withdrawer_allowlist(env, stream_id, list);
    }
}

} // verus!
