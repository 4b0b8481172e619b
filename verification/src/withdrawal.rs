//! Entrypoints that pay a stream's recipient, and those that say who may ask
//! for it.
use vstd::prelude::*;

use crate::env::{Env, EnvView};
use crate::error::Error;
use crate::events::{publish, Event};
use crate::fees;
use crate::fees::{fee_split, stream_split, FeeResult};
use crate::gates::{get_existing_stream, require_not_paused};
use crate::host::Address;
use crate::limits;
use crate::release;
use crate::release::{vested, withdrawable_result};
use crate::storage;
use crate::storage::{Stream, StreamStatus};
use crate::withdrawer;
use crate::Contract;

verus! {

/// Why `amount` cannot be drawn from `s` at ledger time `now`, if it cannot.
pub open spec fn draw_refusal(s: Stream, amount: i128, now: u64) -> Option<Error> {
    if s.status is Settled {
        Some(Error::AlreadySettled)
    } else if !s.status.payable() {
        Some(Error::InvalidState)
    } else {
        match withdrawable_result(s, now) {
            Err(err) => Some(err),
            Ok(available) => if amount > available {
                Some(Error::OverWithdraw)
            } else {
                None
            },
        }
    }
}

/// The record of `s` after `amount` was drawn from it: settled once the whole
/// escrow is released.
pub open spec fn drawn(s: Stream, amount: i128, now: u64) -> Stream {
    let released = (s.released_amount + amount) as i128;
    Stream {
        released_amount: released,
        last_update: now,
        status: if released == s.total_amount {
            StreamStatus::Settled
        } else {
            s.status
        },
        ..s
    }
}

impl EnvView {
    /// After the sender of `s` lost a live stream, if `s` is settled.
    pub open spec fn drop_if_settled(self, s: Stream) -> EnvView {
        if s.status is Settled {
            self.drop_sender_stream(s.sender)
        } else {
            self
        }
    }

    /// After `s`, from which `amount` was drawn, was recorded and announced.
    pub open spec fn record_draw(self, stream_id: u64, s: Stream, amount: i128) -> EnvView {
        let announced = self.write_stream(stream_id, s).publish(
            Event::Withdrawn {
                stream_id,
                recipient: s.recipient,
                amount,
                timestamp: s.last_update,
            },
        );
        if s.status is Settled {
            announced.publish(
                Event::Settled {
                    stream_id,
                    recipient: s.recipient,
                    amount: s.total_amount,
                    timestamp: s.last_update,
                },
            )
        } else {
            announced
        }
    }

    /// Why `withdraw` refuses, if it does.
    pub open spec fn withdraw_refusal(self, caller: Address, stream_id: u64, amount: i128) -> Option<Error> {
        let s = self.streams[stream_id];
        if self.is_paused() {
            Some(Error::ContractPaused)
        } else if amount <= 0 {
            Some(Error::InvalidAmount)
        } else if !self.streams.contains_key(stream_id) {
            Some(Error::NotFound)
        } else if !self.may_withdraw(stream_id, caller, s.recipient) {
            Some(Error::Unauthorized)
        } else {
            match draw_refusal(s, amount, self.timestamp) {
                Some(err) => Some(err),
                None => match stream_split(amount, s.fee_bps, self.fee_collector) {
                    Err(err) => Some(err),
                    Ok(_) => None,
                },
            }
        }
    }

    /// After a withdrawal was refused: the authorisation of `asker` was
    /// demanded if the stream was looked at.
    pub open spec fn fail_withdraw(self, asker: Address, stream_id: u64, amount: i128) -> EnvView {
        if !self.is_paused() && amount > 0 && self.streams.contains_key(stream_id) {
            self.demand(asker)
        } else {
            self
        }
    }

    /// After the net amount went to the recipient of `s` and the fee to the
    /// collector. Without a collector the recipient gets the fee as well.
    pub open spec fn pay_with_stream_fee(self, stream_id: u64, s: Stream, split: FeeResult) -> EnvView {
        let contract = self.contract_address;
        let paid = self.read_fee_collector().transfer(s.token, contract, s.recipient, split.net_amount);
        if split.fee_amount > 0 {
            match self.fee_collector {
                Some(collector) => paid.transfer(s.token, contract, collector, split.fee_amount).publish(
                    Event::FeeCharged {
                        stream_id,
                        fee_amount: split.fee_amount,
                        fee_bps: s.fee_bps,
                        collector,
                        timestamp: self.timestamp,
                    },
                ),
                None => paid.transfer(s.token, contract, s.recipient, split.fee_amount),
            }
        } else {
            paid
        }
    }

    /// After `withdraw` succeeded.
    pub open spec fn withdraw(self, caller: Address, stream_id: u64, amount: i128) -> EnvView {
        let s = self.streams[stream_id];
        let after = drawn(s, amount, self.timestamp);
        let split = stream_split(amount, s.fee_bps, self.fee_collector)->Ok_0;
        self.read_paused().read_stream(stream_id).check_withdrawer(
            stream_id,
            caller,
            s.recipient,
        ).drop_if_settled(after).pay_with_stream_fee(stream_id, after, split).record_draw(
            stream_id,
            after,
            amount,
        )
    }

    /// Why `withdraw_with_max_fee_bps` refuses, if it does.
    pub open spec fn guarded_refusal(self, stream_id: u64, amount: i128, max_fee_bps: u32) -> Option<Error> {
        let s = self.streams[stream_id];
        if self.protocol_fee() > max_fee_bps {
            Some(Error::FeeTooHigh)
        } else if self.is_paused() {
            Some(Error::ContractPaused)
        } else if amount <= 0 {
            Some(Error::InvalidAmount)
        } else if !self.streams.contains_key(stream_id) {
            Some(Error::NotFound)
        } else {
            match draw_refusal(s, amount, self.timestamp) {
                Some(err) => Some(err),
                None => match fee_split(amount, self.protocol_fee()) {
                    Err(err) => Some(err),
                    Ok(split) => if split.fee_amount > 0 && self.admin is None {
                        Some(Error::NotFound)
                    } else {
                        None
                    },
                },
            }
        }
    }

    /// After a guarded withdrawal was refused.
    pub open spec fn fail_guarded(self, stream_id: u64, amount: i128, max_fee_bps: u32) -> EnvView {
        if self.protocol_fee() > max_fee_bps {
            self
        } else {
            self.fail_withdraw(self.streams[stream_id].recipient, stream_id, amount)
        }
    }

    /// After the net amount went to the recipient of `s` and the fee to the
    /// admin.
    pub open spec fn pay_with_protocol_fee(self, s: Stream, split: FeeResult) -> EnvView {
        let contract = self.contract_address;
        let paid = if split.net_amount > 0 {
            self.transfer(s.token, contract, s.recipient, split.net_amount)
        } else {
            self
        };
        if split.fee_amount > 0 {
            paid.read_admin().transfer(s.token, contract, self.admin->0, split.fee_amount)
        } else {
            paid
        }
    }

    /// After `withdraw_with_max_fee_bps` succeeded.
    pub open spec fn withdraw_guarded(self, stream_id: u64, amount: i128) -> EnvView {
        let s = self.streams[stream_id];
        let after = drawn(s, amount, self.timestamp);
        let split = fee_split(amount, self.protocol_fee())->Ok_0;
        self.read_fee_bps().read_paused().read_stream(stream_id).demand(s.recipient).drop_if_settled(
            after,
        ).pay_with_protocol_fee(after, split).record_draw(stream_id, after, amount)
    }
}

/// Draws `amount` from the record of a stream.
fn draw(stream: &Stream, amount: i128, now: u64) -> (r: Result<Stream, Error>)
    requires
        amount > 0,
    ensures
        match draw_refusal(*stream, amount, now) {
            Some(err) => r == Err::<Stream, Error>(err),
            None => r == Ok::<Stream, Error>(drawn(*stream, amount, now)) && stream.released_amount
                + amount <= i128::MAX,
        },
{
    if stream.status == StreamStatus::Settled {
        return Err(Error::AlreadySettled);
    }
    if stream.status != StreamStatus::Active && stream.status != StreamStatus::Paused {
        return Err(Error::InvalidState);
    }
    let available: i128 = release::withdrawable(stream, now)?;
    if amount > available {
        return Err(Error::OverWithdraw);
    }
    proof {
        release::lemma_vested_fits(*stream, now);
        assert(available == vested(*stream, now) - stream.released_amount);
    }
    let released_amount: i128 = stream.released_amount + amount;
    let status = if released_amount == stream.total_amount {
        StreamStatus::Settled
    } else {
        stream.status
    };
    Ok(Stream { released_amount, last_update: now, status, ..*stream })
}

/// Counts one live stream less for the sender of `stream`, if it is settled.
fn drop_if_settled(env: &mut Env, stream: &Stream)
    ensures
        final(env)@ == old(env)@.drop_if_settled(*stream),
{
    if stream.status == StreamStatus::Settled {
        limits::decrement_sender_stream_count(env, stream.sender);
    }
}

/// Records and announces that `amount` was drawn from `stream`.
fn record_draw(env: &mut Env, stream_id: u64, stream: Stream, amount: i128)
    ensures
        final(env)@ == old(env)@.record_draw(stream_id, stream, amount),
{
    storage::set_stream(env, stream_id, stream);
    let timestamp: u64 = stream.last_update;
    let recipient = stream.recipient;
    publish(env, Event::Withdrawn { stream_id, recipient, amount, timestamp });
    if stream.status == StreamStatus::Settled {
        let amount: i128 = stream.total_amount;
        publish(env, Event::Settled { stream_id, recipient, amount, timestamp });
    }
}

/// Reads and tests the conditions of [`Contract::withdraw`]. Returns the record
/// after the withdrawal, and how the amount is split.
fn check_withdraw(env: &mut Env, caller: Address, stream_id: u64, amount: i128) -> (r: Result<
    (Stream, FeeResult),
    Error,
>)
    ensures
        match old(env)@.withdraw_refusal(caller, stream_id, amount) {
            Some(err) => {
                &&& r == Err::<(Stream, FeeResult), Error>(err)
                &&& final(env)@.only_calls_added(old(env)@.fail_withdraw(caller, stream_id, amount))
            },
            None => {
                let s = old(env)@.streams[stream_id];
                &&& r is Ok
                &&& r->Ok_0.0 == drawn(s, amount, old(env)@.timestamp)
                &&& stream_split(amount, s.fee_bps, old(env)@.fee_collector) == Ok::<
                    FeeResult,
                    Error,
                >(r->Ok_0.1)
                &&& final(env)@ == old(env)@.read_paused().read_stream(stream_id).check_withdrawer(
                    stream_id,
                    caller,
                    s.recipient,
                )
            },
        },
{
    broadcast use crate::env::group_calls_added;

    let now: u64 = env.timestamp;
    require_not_paused(env)?;
    if amount <= 0 {
        return Err(Error::InvalidAmount);
    }
    let stream = get_existing_stream(env, stream_id)?;
    withdrawer::require_withdraw_auth(env, stream_id, caller, stream.recipient)?;
    let after = draw(&stream, amount, now)?;
    let split = fees::apply_stream_fee(amount, stream.fee_bps, env.fee_collector)?;
    Ok((after, split))
}

/// Reads and tests the conditions of [`Contract::withdraw_with_max_fee_bps`].
fn check_guarded(env: &mut Env, stream_id: u64, amount: i128, max_fee_bps: u32) -> (r: Result<
    (Stream, FeeResult),
    Error,
>)
    ensures
        match old(env)@.guarded_refusal(stream_id, amount, max_fee_bps) {
            Some(err) => {
                &&& r == Err::<(Stream, FeeResult), Error>(err)
                &&& final(env)@.only_calls_added(
                    old(env)@.fail_guarded(stream_id, amount, max_fee_bps),
                )
            },
            None => {
                let s = old(env)@.streams[stream_id];
                &&& r is Ok
                &&& r->Ok_0.0 == drawn(s, amount, old(env)@.timestamp)
                &&& fee_split(amount, old(env)@.protocol_fee()) == Ok::<FeeResult, Error>(r->Ok_0.1)
                &&& final(env)@ == old(env)@.read_fee_bps().read_paused().read_stream(
                    stream_id,
                ).demand(s.recipient)
            },
        },
{
    broadcast use crate::env::group_calls_added;

    let now: u64 = env.timestamp;
    let current_fee_bps: u32 = storage::get_fee_bps(env);
    if current_fee_bps > max_fee_bps {
        return Err(Error::FeeTooHigh);
    }
    require_not_paused(env)?;
    if amount <= 0 {
        return Err(Error::InvalidAmount);
    }
    let stream = get_existing_stream(env, stream_id)?;
    env.require_auth(stream.recipient);
    let after = draw(&stream, amount, now)?;
    let split = fees::apply_fee(amount, current_fee_bps)?;
    if split.fee_amount > 0 && env.admin.is_none() {
        return Err(Error::NotFound);
    }
    Ok((after, split))
}

impl Contract {
    /// Pays `amount` of what has accrued to the stream's recipient, less the
    /// stream's fee if a fee collector is set; without one the fee of the stream
    /// does not matter. `caller` is the recipient or an
    /// address that the sender listed.
    ///
    /// Returns `amount`. Needs the authorisation of `caller`.
    pub fn withdraw(env: &mut Env, caller: Address, stream_id: u64, amount: i128) -> (r: Result<
        i128,
        Error,
    >)
        ensures
            match old(env)@.withdraw_refusal(caller, stream_id, amount) {
                Some(err) => {
                    &&& r == Err::<i128, Error>(err)
                    &&& final(env)@ == old(env)@.fail_withdraw(caller, stream_id, amount)
                },
                None => {
                    &&& r == Ok::<i128, Error>(amount)
                    &&& final(env)@ == old(env)@.withdraw(caller, stream_id, amount)
                },
            },
    {
        let kept: usize = env.calls.len();
        let now: u64 = env.timestamp;
        let contract = env.contract_address;
        let (stream, split) = match check_withdraw(env, caller, stream_id, amount) {
            Ok(plan) => plan,
            Err(err) => {
                env.revert(kept);
                return Err(err);
            },
        };
        drop_if_settled(env, &stream);
        let maybe_collector = fees::get_fee_collector(env);
        env.transfer(stream.token, contract, stream.recipient, split.net_amount);
        if split.fee_amount > 0 {
            if let Some(collector) = maybe_collector {
                env.transfer(stream.token, contract, collector, split.fee_amount);
                publish(
                    env,
                    Event::FeeCharged {
                        stream_id,
                        fee_amount: split.fee_amount,
                        fee_bps: stream.fee_bps,
                        collector,
                        timestamp: now,
                    },
                );
            } else {
                env.transfer(stream.token, contract, stream.recipient, split.fee_amount);
            }
        }
        record_draw(env, stream_id, stream, amount);
        Ok(amount)
    }

    /// Pays `amount` of what has accrued to the stream's recipient, less the
    /// protocol fee, which goes to the admin. Refuses when that fee is above
    /// `max_fee_bps`.
    ///
    /// Returns `amount`. Needs the authorisation of the recipient.
    pub fn withdraw_with_max_fee_bps(
        env: &mut Env,
        stream_id: u64,
        amount: i128,
        max_fee_bps: u32,
    ) -> (r: Result<i128, Error>)
        ensures
            match old(env)@.guarded_refusal(stream_id, amount, max_fee_bps) {
                Some(err) => {
                    &&& r == Err::<i128, Error>(err)
                    &&& final(env)@ == old(env)@.fail_guarded(stream_id, amount, max_fee_bps)
                },
                None => {
                    &&& r == Ok::<i128, Error>(amount)
                    &&& final(env)@ == old(env)@.withdraw_guarded(stream_id, amount)
                },
            },
    {
        let kept: usize = env.calls.len();
        let contract = env.contract_address;
        let (stream, split) = match check_guarded(env, stream_id, amount, max_fee_bps) {
            Ok(plan) => plan,
            Err(err) => {
                env.revert(kept);
                return Err(err);
            },
        };
        drop_if_settled(env, &stream);
        if split.net_amount > 0 {
            env.transfer(stream.token, contract, stream.recipient, split.net_amount);
        }
        if split.fee_amount > 0 {
            if let Some(admin) = storage::get_admin(env) {
                env.transfer(stream.token, contract, admin, split.fee_amount);
            }
        }
        record_draw(env, stream_id, stream, amount);
        Ok(amount)
    }

    /// Lets `withdrawer` withdraw from the stream for its recipient.
    ///
    /// Needs the authorisation of the stream's sender.
    pub fn add_withdrawer(env: &mut Env, stream_id: u64, withdrawer: Address) -> (r: Result<
        (),
        Error,
    >)
        ensures
            if old(env)@.streams.contains_key(stream_id) {
                &&& r == Ok::<(), Error>(())
                &&& final(env)@ == old(env)@.read_stream(stream_id).demand(
                    old(env)@.streams[stream_id].sender,
                ).add_withdrawer(stream_id, withdrawer)
            } else {
                &&& r == Err::<(), Error>(Error::NotFound)
                &&& final(env)@ == old(env)@
            },
    {
        let stream = get_existing_stream(env, stream_id)?;
        env.require_auth(stream.sender);
        withdrawer::add_withdrawer(env, stream_id, withdrawer);
        Ok(())
    }

    /// Takes that right back.
    ///
    /// Needs the authorisation of the stream's sender.
    pub fn remove_withdrawer(env: &mut Env, stream_id: u64, withdrawer: Address) -> (r: Result<
        (),
        Error,
    >)
        ensures
            if old(env)@.streams.contains_key(stream_id) {
                &&& r == Ok::<(), Error>(())
                &&& final(env)@ == old(env)@.read_stream(stream_id).demand(
                    old(env)@.streams[stream_id].sender,
                ).remove_withdrawer(stream_id, withdrawer)
            } else {
                &&& r == Err::<(), Error>(Error::NotFound)
                &&& final(env)@ == old(env)@
            },
    {
        let stream = get_existing_stream(env, stream_id)?;
        env.require_auth(stream.sender);
        withdrawer::remove_withdrawer(env, stream_id, withdrawer);
        Ok(())
    }

    /// The addresses that may withdraw besides the recipient.
    pub fn get_withdrawer_allowlist(env: &mut Env, stream_id: u64) -> (r: Result<
        Vec<Address>,
        Error,
    >)
        ensures
            if old(env)@.streams.contains_key(stream_id) {
                &&& r is Ok
                &&& r->Ok_0@ == old(env)@.withdrawer_list(stream_id)
                &&& final(env)@ == old(env)@.read_stream(stream_id).read_withdrawers(stream_id)
            } else {
                &&& r is Err
                &&& r->Err_0 == Error::NotFound
                &&& final(env)@ == old(env)@
            },
    {
        get_existing_stream(env, stream_id)?;
        Ok(storage::get_withdrawer_allowlist(env, stream_id))
    }
}

} // verus!
