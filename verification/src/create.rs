//! Entrypoints that create and fund streams.
use vstd::prelude::*;

use crate::allowlist;
use crate::env::{Env, EnvView};
use crate::error::Error;
use crate::events::{publish, Event};
use crate::fees;
use crate::gates::{require_not_paused, require_recipient_trustline};
use crate::host::Address;
use crate::limits;
use crate::storage;
use crate::storage::{Stream, StreamStatus};
use crate::Contract;

verus! {

/// The record of a stream that runs from `start_time` to `end_time`.
pub open spec fn new_stream(
    id: u64,
    sender: Address,
    recipient: Address,
    token: Address,
    total_amount: i128,
    start_time: u64,
    end_time: u64,
    fee_bps: u32,
) -> Stream {
    Stream {
        id,
        sender,
        recipient,
        token,
        total_amount,
        released_amount: 0,
        start_time,
        end_time,
        duration: (end_time - start_time) as u64,
        last_update: start_time,
        status: StreamStatus::Active,
        paused_at: 0,
        total_paused_duration: 0,
        fee_bps,
    }
}

/// The record of a stream that waits to be started.
pub open spec fn new_draft(
    id: u64,
    sender: Address,
    recipient: Address,
    token: Address,
    total_amount: i128,
    duration: u64,
    fee_bps: u32,
) -> Stream {
    Stream {
        id,
        sender,
        recipient,
        token,
        total_amount,
        released_amount: 0,
        start_time: 0,
        end_time: 0,
        duration,
        last_update: 0,
        status: StreamStatus::Draft,
        paused_at: 0,
        total_paused_duration: 0,
        fee_bps,
    }
}

impl EnvView {
    /// Why a stream with these terms is not admitted, before its recipient's
    /// balance and its time window are looked at.
    pub open spec fn terms_refusal(
        self,
        sender: Address,
        recipient: Address,
        token: Address,
        total_amount: i128,
        fee_bps: u32,
    ) -> Option<Error> {
        if self.is_paused() {
            Some(Error::ContractPaused)
        } else if self.sender_count(sender) >= self.stream_limit() {
            Some(Error::StreamLimitExceeded)
        } else if fee_bps > fees::MAX_FEE_BPS {
            Some(Error::InvalidFeeBps)
        } else if total_amount <= 0 {
            Some(Error::InvalidAmount)
        } else if sender == recipient {
            Some(Error::SelfStream)
        } else if self.token_blocked(token) {
            Some(Error::TokenNotAllowed)
        } else {
            None
        }
    }

    /// Why `create_stream` refuses, if it does.
    pub open spec fn create_refusal(
        self,
        sender: Address,
        recipient: Address,
        token: Address,
        total_amount: i128,
        start_time: u64,
        end_time: u64,
        fee_bps: u32,
        recipient_balance: i128,
    ) -> Option<Error> {
        match self.terms_refusal(sender, recipient, token, total_amount, fee_bps) {
            Some(err) => Some(err),
            None => if recipient_balance < 0 {
                Some(Error::RecipientTrustlineMissing)
            } else if end_time <= start_time || start_time < self.timestamp {
                Some(Error::InvalidTimeRange)
            } else {
                None
            },
        }
    }

    /// After a creation was refused: the sender's authorisation was demanded
    /// unless the contract is paused.
    pub open spec fn fail_create(self, sender: Address) -> EnvView {
        if self.is_paused() {
            self
        } else {
            self.demand(sender)
        }
    }

    /// After the conditions of `create_stream` were read and met.
    pub open spec fn pass_create(self, sender: Address, token: Address) -> EnvView {
        self.read_paused().demand(sender).read_stream_limit().read_sender_count(sender).read_token(
            token,
        )
    }

    /// After `stream` was funded from its sender, recorded under its id and
    /// announced.
    pub open spec fn open_stream(self, stream: Stream) -> EnvView {
        self.take_stream_id().transfer(
            stream.token,
            stream.sender,
            self.contract_address,
            stream.total_amount,
        ).write_stream(stream.id, stream).write_stream_fee(
            stream.id,
            stream.fee_bps,
        ).add_sender_stream(stream.sender).publish(
            Event::Created {
                stream_id: stream.id,
                sender: stream.sender,
                recipient: stream.recipient,
                token: stream.token,
                total_amount: stream.total_amount,
                timestamp: self.timestamp,
            },
        )
    }

    /// After `create_stream` succeeded.
    pub open spec fn create(
        self,
        sender: Address,
        recipient: Address,
        token: Address,
        total_amount: i128,
        start_time: u64,
        end_time: u64,
        fee_bps: u32,
    ) -> EnvView {
        self.pass_create(sender, token).open_stream(
            new_stream(
                self.next_id(),
                sender,
                recipient,
                token,
                total_amount,
                start_time,
                end_time,
                fee_bps,
            ),
        )
    }

    /// Why `create_draft_stream` refuses, if it does.
    pub open spec fn draft_refusal(
        self,
        sender: Address,
        recipient: Address,
        token: Address,
        total_amount: i128,
        duration: u64,
    ) -> Option<Error> {
        if self.is_paused() {
            Some(Error::ContractPaused)
        } else if total_amount <= 0 {
            Some(Error::InvalidAmount)
        } else if sender == recipient {
            Some(Error::InvalidState)
        } else if self.token_blocked(token) {
            Some(Error::TokenNotAllowed)
        } else if duration == 0 {
            Some(Error::InvalidTimeRange)
        } else {
            None
        }
    }

    /// After the conditions of `create_draft_stream` were read and met.
    pub open spec fn pass_draft(self, sender: Address, token: Address) -> EnvView {
        self.read_paused().demand(sender).read_token(token)
    }

    /// After `create_draft_stream` succeeded.
    pub open spec fn create_draft(
        self,
        sender: Address,
        recipient: Address,
        token: Address,
        total_amount: i128,
        duration: u64,
    ) -> EnvView {
        self.pass_draft(sender, token).read_default_fee().open_stream(
            new_draft(
                self.next_id(),
                sender,
                recipient,
                token,
                total_amount,
                duration,
                self.default_fee(),
            ),
        )
    }
}

/// Reads and tests the terms of a new stream.
fn check_terms(
    env: &mut Env,
    sender: Address,
    recipient: Address,
    token: Address,
    total_amount: i128,
    fee_bps: u32,
) -> (r: Result<(), Error>)
    ensures
        match old(env)@.terms_refusal(sender, recipient, token, total_amount, fee_bps) {
            Some(err) => {
                &&& r == Err::<(), Error>(err)
                &&& final(env)@.only_calls_added(old(env)@.fail_create(sender))
            },
            None => {
                &&& r == Ok::<(), Error>(())
                &&& final(env)@ == old(env)@.pass_create(sender, token)
            },
        },
{
    broadcast use crate::env::group_calls_added;

    require_not_paused(env)?;
    env.require_auth(sender);
    limits::check_sender_limit(env, sender)?;
    fees::validate_fee_bps(fee_bps)?;
    if total_amount <= 0 {
        return Err(Error::InvalidAmount);
    }
    if sender == recipient {
        return Err(Error::SelfStream);
    }
    if storage::is_token_blocked(env, token) {
        return Err(Error::TokenNotAllowed);
    }
    Ok(())
}

/// Tests the recipient's balance and the time window of a new stream.
fn check_window(env: &Env, start_time: u64, end_time: u64, recipient_balance: i128) -> (r: Result<
    (),
    Error,
>)
    ensures
        r == (if recipient_balance < 0 {
            Err::<(), Error>(Error::RecipientTrustlineMissing)
        } else if end_time <= start_time || start_time < env@.timestamp {
            Err::<(), Error>(Error::InvalidTimeRange)
        } else {
            Ok(())
        }),
{
    require_recipient_trustline(recipient_balance)?;
    if end_time <= start_time {
        return Err(Error::InvalidTimeRange);
    }
    if start_time < env.timestamp {
        return Err(Error::InvalidTimeRange);
    }
    Ok(())
}

/// Reads and tests the terms of a new draft.
fn check_draft(
    env: &mut Env,
    sender: Address,
    recipient: Address,
    token: Address,
    total_amount: i128,
    duration: u64,
) -> (r: Result<(), Error>)
    ensures
        match old(env)@.draft_refusal(sender, recipient, token, total_amount, duration) {
            Some(err) => {
                &&& r == Err::<(), Error>(err)
                &&& final(env)@.only_calls_added(old(env)@.fail_create(sender))
            },
            None => {
                &&& r == Ok::<(), Error>(())
                &&& final(env)@ == old(env)@.pass_draft(sender, token)
            },
        },
{
    broadcast use crate::env::group_calls_added;

    require_not_paused(env)?;
    env.require_auth(sender);
    if total_amount <= 0 {
        return Err(Error::InvalidAmount);
    }
    if sender == recipient {
        return Err(Error::InvalidState);
    }
    if storage::is_token_blocked(env, token) {
        return Err(Error::TokenNotAllowed);
    }
    if duration == 0 {
        return Err(Error::InvalidTimeRange);
    }
    Ok(())
}

/// Funds, records and announces a stream that was admitted under the next id.
fn open_stream(env: &mut Env, stream: Stream)
    requires
        stream.id == old(env)@.next_id(),
    ensures
        final(env)@ == old(env)@.open_stream(stream),
{
    let now: u64 = env.timestamp;
    let contract_address = env.contract_address;
    let id: u64 = storage::next_stream_id(env);
    env.transfer(stream.token, stream.sender, contract_address, stream.total_amount);
    storage::set_stream(env, id, stream);
    fees::set_stream_fee_bps(env, id, stream.fee_bps);
    limits::increment_sender_stream_count(env, stream.sender);
    publish(
        env,
        Event::Created {
            stream_id: id,
            sender: stream.sender,
            recipient: stream.recipient,
            token: stream.token,
            total_amount: stream.total_amount,
            timestamp: now,
        },
    );
}

impl Contract {
    /// Tests the terms of a stream as far as they do not depend on the
    /// recipient's balance. On a copy of the environment, it tells whether
    /// [`Contract::create_stream`] needs that balance at all.
    pub fn check_stream_terms(
        env: &mut Env,
        sender: Address,
        recipient: Address,
        token: Address,
        total_amount: i128,
        fee_bps: u32,
    ) -> (r: Result<(), Error>)
        ensures
            match old(env)@.terms_refusal(sender, recipient, token, total_amount, fee_bps) {
                Some(err) => {
                    &&& r == Err::<(), Error>(err)
                    &&& final(env)@ == old(env)@.fail_create(sender)
                },
                None => {
                    &&& r == Ok::<(), Error>(())
                    &&& final(env)@ == old(env)@.pass_create(sender, token)
                },
            },
    {
        let kept: usize = env.calls.len();
        let r = check_terms(env, sender, recipient, token, total_amount, fee_bps);
        if r.is_err() {
            env.revert(kept);
        }
        r
    }

    /// Creates a stream and escrows `total_amount` from `sender`.
    /// `recipient_balance` is the balance that `token` reports for `recipient`.
    ///
    /// Returns the id of the stream. Needs the authorisation of `sender`.
    pub fn create_stream(
        env: &mut Env,
        sender: Address,
        recipient: Address,
        token: Address,
        total_amount: i128,
        start_time: u64,
        end_time: u64,
        fee_bps: u32,
        recipient_balance: i128,
    ) -> (r: Result<u64, Error>)
        ensures
            match old(env)@.create_refusal(
                sender,
                recipient,
                token,
                total_amount,
                start_time,
                end_time,
                fee_bps,
                recipient_balance,
            ) {
                Some(err) => {
                    &&& r == Err::<u64, Error>(err)
                    &&& final(env)@ == old(env)@.fail_create(sender)
                },
                None => {
                    &&& r == Ok::<u64, Error>(old(env)@.next_id())
                    &&& final(env)@ == old(env)@.create(
                        sender,
                        recipient,
                        token,
                        total_amount,
                        start_time,
                        end_time,
                        fee_bps,
                    )
                },
            },
    {
        broadcast use crate::env::group_calls_added;

        let kept: usize = env.calls.len();
        if let Err(err) = check_terms(env, sender, recipient, token, total_amount, fee_bps) {
            env.revert(kept);
            return Err(err);
        }
        if let Err(err) = check_window(env, start_time, end_time, recipient_balance) {
            proof {
                assert(env@.only_calls_added(old(env)@.demand(sender)));
            }
            env.revert(kept);
            return Err(err);
        }
        let id: u64 = storage::peek_next_stream_id(env);
        let stream = Stream {
            id,
            sender,
            recipient,
            token,
            total_amount,
            released_amount: 0,
            start_time,
            end_time,
            duration: end_time - start_time,
            last_update: start_time,
            status: StreamStatus::Active,
            paused_at: 0,
            total_paused_duration: 0,
            fee_bps,
        };
        open_stream(env, stream);
        Ok(id)
    }

    /// Creates a stream for `org`, under the token rules of `org` besides those
    /// of [`Contract::create_stream`].
    pub fn create_stream_for_org(
        env: &mut Env,
        org: Address,
        sender: Address,
        recipient: Address,
        token: Address,
        total_amount: i128,
        start_time: u64,
        end_time: u64,
        fee_bps: u32,
        recipient_balance: i128,
    ) -> (r: Result<u64, Error>)
        ensures
            old(env)@.org_token_blocked(org, token) ==> {
                &&& r == Err::<u64, Error>(Error::TokenNotAllowed)
                &&& final(env)@ == old(env)@
            },
            !old(env)@.org_token_blocked(org, token) ==> match old(env)@.create_refusal(
                sender,
                recipient,
                token,
                total_amount,
                start_time,
                end_time,
                fee_bps,
                recipient_balance,
            ) {
                Some(err) => {
                    &&& r == Err::<u64, Error>(err)
                    &&& final(env)@ == old(env)@.fail_create(sender)
                },
                None => {
                    &&& r == Ok::<u64, Error>(old(env)@.next_id())
                    &&& final(env)@ == old(env)@.read_org_token(org, token).create(
                        sender,
                        recipient,
                        token,
                        total_amount,
                        start_time,
                        end_time,
                        fee_bps,
                    )
                },
            },
    {
        broadcast use crate::env::group_calls_added;

        let kept: usize = env.calls.len();
        if allowlist::is_org_token_blocked(env, org, token) {
            proof {
                assert(env@.only_calls_added(old(env)@));
            }
            env.revert(kept);
            return Err(Error::TokenNotAllowed);
        }
        let ghost ruled = env@;
        match Self::create_stream(
            env,
            sender,
            recipient,
            token,
            total_amount,
            start_time,
            end_time,
            fee_bps,
            recipient_balance,
        ) {
            Ok(id) => Ok(id),
            Err(err) => {
                proof {
                    assert(ruled.only_calls_added(old(env)@));
                    assert(env@.only_calls_added(old(env)@.fail_create(sender)));
                }
                env.revert(kept);
                Err(err)
            },
        }
    }

    /// Creates a draft and escrows `total_amount` from `sender`. The stream
    /// accrues nothing until [`Contract::start_stream`] gives it its time
    /// window. Its fee is the default fee of the moment.
    ///
    /// Returns the id of the stream. Needs the authorisation of `sender`.
    pub fn create_draft_stream(
        env: &mut Env,
        sender: Address,
        recipient: Address,
        token: Address,
        total_amount: i128,
        duration: u64,
    ) -> (r: Result<u64, Error>)
        ensures
            match old(env)@.draft_refusal(sender, recipient, token, total_amount, duration) {
                Some(err) => {
                    &&& r == Err::<u64, Error>(err)
                    &&& final(env)@ == old(env)@.fail_create(sender)
                },
                None => {
                    &&& r == Ok::<u64, Error>(old(env)@.next_id())
                    &&& final(env)@ == old(env)@.create_draft(
                        sender,
                        recipient,
                        token,
                        total_amount,
                        duration,
                    )
                },
            },
    {
        let kept: usize = env.calls.len();
        if let Err(err) = check_draft(env, sender, recipient, token, total_amount, duration) {
            env.revert(kept);
            return Err(err);
        }
        let fee_bps: u32 = fees::get_default_fee_bps(env);
        let id: u64 = storage::peek_next_stream_id(env);
        let stream = Stream {
            id,
            sender,
            recipient,
            token,
            total_amount,
            released_amount: 0,
            start_time: 0,
            end_time: 0,
            duration,
            last_update: 0,
            status: StreamStatus::Draft,
            paused_at: 0,
            total_paused_duration: 0,
            fee_bps,
        };
        open_stream(env, stream);
        Ok(id)
    }
}

} // verus!
