//! Withdrawal fees: the collector, the default and per-stream rates, and the
//! split of an amount.
use vstd::prelude::*;

use crate::env::{Env, EnvView};
use crate::error::Error;
use crate::host::Address;
use crate::release::quotient;
use crate::storage::{extend_instance_ttl, extend_persistent_ttl, DataKey};

verus! {

/// Basis points in a whole.
pub const MAX_FEE_BPS: u32 = 10_000;

/// An amount divided into a fee and the rest.
#[derive(Copy, Clone, Debug, PartialEq, Eq, Structural)]
pub struct FeeResult {
    pub fee_amount: i128,
    pub net_amount: i128,
}

/// The fee on `amount`: `fee_bps` ten-thousandths of it, rounded down.
pub open spec fn fee_on(amount: i128, fee_bps: u32) -> int {
    quotient(amount * fee_bps, 10_000)
}

/// What [`apply_fee`] returns.
pub open spec fn fee_split(amount: i128, fee_bps: u32) -> Result<FeeResult, Error> {
    let net = amount - fee_on(amount, fee_bps);
    if i128::MIN <= amount * fee_bps <= i128::MAX && i128::MIN <= net <= i128::MAX {
        Ok(FeeResult { fee_amount: fee_on(amount, fee_bps) as i128, net_amount: net as i128 })
    } else {
        Err(Error::Overflow)
    }
}

/// How a withdrawal of `amount` is split under the fee of its stream. Without a
/// `collector` no fee is taken, so one that cannot be computed does not matter.
pub open spec fn stream_split(amount: i128, fee_bps: u32, collector: Option<Address>) -> Result<
    FeeResult,
    Error,
> {
    match fee_split(amount, fee_bps) {
        Ok(split) => Ok(split),
        Err(err) => if collector is None {
            Ok(FeeResult { fee_amount: 0, net_amount: amount })
        } else {
            Err(err)
        },
    }
}

impl EnvView {
    pub open spec fn read_fee_collector(self) -> EnvView {
        self.extend_instance_if(self.fee_collector is Some)
    }

    pub open spec fn write_fee_collector(self, collector: Address) -> EnvView {
        EnvView { fee_collector: Some(collector), ..self }.extend_instance()
    }

    /// The fee of streams that name none; 0 until it is first set.
    pub open spec fn default_fee(self) -> u32 {
        match self.default_fee_bps {
            Some(fee) => fee,
            None => 0,
        }
    }

    pub open spec fn read_default_fee(self) -> EnvView {
        self.extend_instance_if(self.default_fee_bps is Some)
    }

    pub open spec fn write_default_fee(self, fee_bps: u32) -> EnvView {
        EnvView { default_fee_bps: Some(fee_bps), ..self }.extend_instance()
    }

    /// The fee recorded for a stream, or else the default fee.
    pub open spec fn stream_fee(self, stream_id: u64) -> u32 {
        if self.stream_fees.contains_key(stream_id) {
            self.stream_fees[stream_id]
        } else {
            self.default_fee()
        }
    }

    pub open spec fn read_stream_fee(self, stream_id: u64) -> EnvView {
        if self.stream_fees.contains_key(stream_id) {
            self.extend_row(DataKey::StreamFeeBps(stream_id))
        } else {
            self.read_default_fee()
        }
    }

    pub open spec fn write_stream_fee(self, stream_id: u64, fee_bps: u32) -> EnvView {
        EnvView {
            stream_fees: self.stream_fees.insert(stream_id, fee_bps),
            ..self
        }.extend_row(DataKey::StreamFeeBps(stream_id))
    }
}

/// A fee of at most 100 % lies between nothing and the whole amount, and fee
/// and net amount make up the amount. An amount of up to `i128::MAX / 10_000`
/// never makes the split overflow.
pub proof fn fee_and_net_make_up_the_amount(amount: i128, fee_bps: u32)
    requires
        0 <= amount,
        fee_bps <= MAX_FEE_BPS,
    ensures
        0 <= fee_on(amount, fee_bps) <= amount,
        fee_split(amount, fee_bps) is Err <==> amount * fee_bps > i128::MAX,
        fee_split(amount, fee_bps) is Ok ==> {
            let split = fee_split(amount, fee_bps)->Ok_0;
            &&& split.fee_amount == fee_on(amount, fee_bps)
            &&& split.fee_amount + split.net_amount == amount
            &&& 0 <= split.net_amount
        },
        amount <= i128::MAX / 10_000 ==> fee_split(amount, fee_bps) is Ok,
{
    let a = amount as int;
    let b = fee_bps as int;
    assert(0 <= a * b <= a * 10_000) by (nonlinear_arith)
        requires
            0 <= a,
            0 <= b <= 10_000,
    ;
}

/// Without a collector no withdrawal is refused for its fee. Whenever a
/// withdrawal is split, its parts make up the amount.
pub proof fn stream_split_makes_up_the_amount(
    amount: i128,
    fee_bps: u32,
    collector: Option<Address>,
)
    requires
        0 <= amount,
        fee_bps <= MAX_FEE_BPS,
    ensures
        collector is None ==> stream_split(amount, fee_bps, collector) is Ok,
        collector is Some ==> stream_split(amount, fee_bps, collector) == fee_split(
            amount,
            fee_bps,
        ),
        stream_split(amount, fee_bps, collector) is Ok ==> {
            let split = stream_split(amount, fee_bps, collector)->Ok_0;
            &&& 0 <= split.fee_amount
            &&& 0 <= split.net_amount
            &&& split.fee_amount + split.net_amount == amount
        },
{
    fee_and_net_make_up_the_amount(amount, fee_bps);
}

/// A withdrawal is split as any amount is. Only where that fails and there is no
/// collector, no fee is taken.
pub proof fn stream_split_takes_the_fee_if_it_can(
    amount: i128,
    fee_bps: u32,
    collector: Option<Address>,
)
    ensures
        fee_split(amount, fee_bps) is Ok ==> stream_split(amount, fee_bps, collector) == fee_split(
            amount,
            fee_bps,
        ),
        fee_split(amount, fee_bps) is Err && collector is Some ==> stream_split(
            amount,
            fee_bps,
            collector,
        ) == Err::<FeeResult, Error>(Error::Overflow),
        fee_split(amount, fee_bps) is Err && collector is None ==> {
            let split = stream_split(amount, fee_bps, collector);
            split is Ok && split->Ok_0.fee_amount == 0 && split->Ok_0.net_amount == amount
        },
{
}

/// Without a fee the whole amount goes to the recipient.
pub proof fn no_fee_takes_nothing(amount: i128)
    requires
        0 <= amount,
    ensures
        fee_split(amount, 0) == Ok::<FeeResult, Error>(
            FeeResult { fee_amount: 0, net_amount: amount },
        ),
{
}

/// Refuses a fee above 100 %.
pub fn validate_fee_bps(fee_bps: u32) -> (r: Result<(), Error>)
    ensures
        r == (if fee_bps > MAX_FEE_BPS {
            Err::<(), Error>(Error::InvalidFeeBps)
        } else {
            Ok(())
        }),
{
    if fee_bps > MAX_FEE_BPS {
        Err(Error::InvalidFeeBps)
    } else {
        Ok(())
    }
}

/// Splits `amount` into the fee and what is left of it.
pub fn apply_fee(amount: i128, fee_bps: u32) -> (r: Result<FeeResult, Error>)
    ensures
        r == fee_split(amount, fee_bps),
{
    match amount.checked_mul(fee_bps as i128) {
        Some(product) => match product.checked_div(10_000) {
            Some(fee_amount) => match amount.checked_sub(fee_amount) {
                Some(net_amount) => Ok(FeeResult { fee_amount, net_amount }),
                None => Err(Error::Overflow),
            },
            None => Err(Error::Overflow),
        },
        None => Err(Error::Overflow),
    }
}

/// Splits a withdrawal of `amount` under the fee of its stream. Without a
/// collector it never fails.
pub fn apply_stream_fee(amount: i128, fee_bps: u32, collector: Option<Address>) -> (r: Result<
    FeeResult,
    Error,
>)
    ensures
        r == stream_split(amount, fee_bps, collector),
{
    match apply_fee(amount, fee_bps) {
        Ok(split) => Ok(split),
        Err(err) => if collector.is_none() {
            Ok(FeeResult { fee_amount: 0, net_amount: amount })
        } else {
            Err(err)
        },
    }
}

/// Sets the address that receives fees.
pub fn set_fee_collector(env: &mut Env, collector: Address)
    ensures
        final(env)@ == old(env)@.write_fee_collector(collector),
{
    env.fee_collector = Some(collector);
    extend_instance_ttl(env);
}

/// The address that receives fees, if one is set.
pub fn get_fee_collector(env: &mut Env) -> (r: Option<Address>)
    ensures
        r == old(env)@.fee_collector,
        final(env)@ == old(env)@.read_fee_collector(),
{
    let collector = env.fee_collector;
    if collector.is_some() {
        extend_instance_ttl(env);
    }
    collector
}

/// Sets the fee of streams that name none.
pub fn set_default_fee_bps(env: &mut Env, fee_bps: u32)
    ensures
        final(env)@ == old(env)@.write_default_fee(fee_bps),
{
    env.default_fee_bps = Some(fee_bps);
    extend_instance_ttl(env);
}

/// The fee of streams that name none.
pub fn get_default_fee_bps(env: &mut Env) -> (r: u32)
    ensures
        r == old(env)@.default_fee(),
        final(env)@ == old(env)@.read_default_fee(),
{
    match env.default_fee_bps {
        Some(fee) => {
            extend_instance_ttl(env);
            fee
        },
        None => 0,
    }
}

/// Records the fee of a stream.
pub fn set_stream_fee_bps(env: &mut Env, stream_id: u64, fee_bps: u32)
    ensures
        final(env)@ == old(env)@.write_stream_fee(stream_id, fee_bps),
{
    env.stream_fees.set(stream_id, fee_bps);
    extend_persistent_ttl(env, DataKey::StreamFeeBps(stream_id));
}

/// The fee recorded for a stream, or else the default fee.
pub fn get_stream_fee_bps(env: &mut Env, stream_id: u64) -> (r: u32)
    ensures
        r == old(env)@.stream_fee(stream_id),
        final(env)@ == old(env)@.read_stream_fee(stream_id),
{
    let row: Option<u32> = match env.stream_fees.get(stream_id) {
        Some(fee) => Some(*fee),
        None => None,
    };
    match row {
        Some(fee) => {
            extend_persistent_ttl(env, DataKey::StreamFeeBps(stream_id));
            fee
        },
        None => get_default_fee_bps(env),
    }
}

} // verus!
