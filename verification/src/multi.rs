//! Streams that are shared by several recipients. Each recipient is entitled to
//! its weight's part of the vested amount, rounded down.
use vstd::prelude::*;

use crate::env::{Env, EnvView};
use crate::error::Error;
use crate::gates::require_not_paused;
use crate::host::Address;
use crate::release::{lemma_quotient_bounds, quotient};
use crate::snapshot_diff::fits;
use crate::storage;
use crate::storage::{extend_persistent_ttl, DataKey, StreamStatus};
use crate::Contract;

verus! {

/// One recipient of a split stream.
#[derive(Copy, Clone, Debug, PartialEq, Eq, Structural)]
pub struct RecipientAllocation {
    pub recipient: Address,
    pub weight: u64,
    /// What the recipient has received so far.
    pub released_amount: i128,
}

/// A stream whose vested amount is shared among recipients by weight.
#[derive(Clone, Debug, PartialEq, Eq)]
pub struct SplitStream {
    pub id: u64,
    pub sender: Address,
    pub token: Address,
    pub total_amount: i128,
    pub start_time: u64,
    pub end_time: u64,
    pub last_update: u64,
    pub status: StreamStatus,
    /// Sum of the weights of `allocations`.
    pub total_weight: u64,
    pub allocations: Vec<RecipientAllocation>,
}

/// The mathematical value of a [`SplitStream`].
#[verifier::ext_equal]
pub struct SplitStreamView {
    pub id: u64,
    pub sender: Address,
    pub token: Address,
    pub total_amount: i128,
    pub start_time: u64,
    pub end_time: u64,
    pub last_update: u64,
    pub status: StreamStatus,
    pub total_weight: u64,
    pub allocations: Seq<RecipientAllocation>,
}

impl View for SplitStream {
    type V = SplitStreamView;

    open spec fn view(&self) -> SplitStreamView {
        SplitStreamView {
            id: self.id,
            sender: self.sender,
            token: self.token,
            total_amount: self.total_amount,
            start_time: self.start_time,
            end_time: self.end_time,
            last_update: self.last_update,
            status: self.status,
            total_weight: self.total_weight,
            allocations: self.allocations@,
        }
    }
}

// ── Spec: accrual and shares ────────────────────────────────────────────────

impl SplitStreamView {
    /// The time at which accrual is evaluated: it stops when the stream is over.
    pub open spec fn accrual_time(self, at: u64) -> u64 {
        if self.status.terminal() && at > self.last_update {
            self.last_update
        } else {
            at
        }
    }

    /// The vested amount at ledger time `at`: nothing up to the start,
    /// everything from the end on, and linear between.
    pub open spec fn vested(self, at: u64) -> int {
        let t = self.accrual_time(at);
        if t >= self.end_time {
            self.total_amount as int
        } else if t <= self.start_time {
            0
        } else {
            quotient(self.total_amount * (t - self.start_time), self.end_time - self.start_time)
        }
    }

    /// Whether the product in [`SplitStreamView::vested`] stays within `i128`.
    pub open spec fn accrual_fits(self, at: u64) -> bool {
        let t = self.accrual_time(at);
        self.start_time < t < self.end_time ==> fits(self.total_amount * (t - self.start_time))
    }

    /// The part of `amount` that goes to allocation `i`.
    pub open spec fn share(self, i: int, amount: int) -> int {
        quotient(amount * self.allocations[i].weight, self.total_weight as int)
    }

    /// Whether the share of allocation `i` in `amount` can be computed.
    pub open spec fn share_fits(self, i: int, amount: int) -> bool {
        self.total_weight > 0 && fits(amount * self.allocations[i].weight)
    }

    /// Whether what allocation `i` has open of `amount` can be computed.
    pub open spec fn open_fits(self, i: int, amount: int) -> bool {
        self.share_fits(i, amount) && fits(
            self.share(i, amount) - self.allocations[i].released_amount,
        )
    }

    /// What allocation `i` has open of `amount`, if it belongs to `recipient`.
    pub open spec fn open_part(self, recipient: Address, i: int, amount: int) -> int {
        if self.allocations[i].recipient == recipient {
            self.share(i, amount) - self.allocations[i].released_amount
        } else {
            0
        }
    }

    /// What `recipient` has open of `amount` in the first `n` allocations.
    pub open spec fn open_sum(self, recipient: Address, amount: int, n: int) -> int
        decreases n,
    {
        if n <= 0 {
            0
        } else {
            self.open_sum(recipient, amount, n - 1) + self.open_part(recipient, n - 1, amount)
        }
    }

    /// Whether what `recipient` has open of `amount` can be computed, up to and
    /// with allocation `i`.
    pub open spec fn open_step_fits(self, recipient: Address, amount: int, i: int) -> bool {
        self.allocations[i].recipient == recipient ==> self.open_fits(i, amount) && fits(
            self.open_sum(recipient, amount, i + 1),
        )
    }

    /// Whether what `recipient` has open of `amount` can be computed.
    pub open spec fn open_sum_fits(self, recipient: Address, amount: int) -> bool {
        forall|i: int|
            0 <= i < self.allocations.len() ==> #[trigger] self.open_step_fits(recipient, amount, i)
    }

    /// Whether `recipient` has an allocation.
    pub open spec fn has_recipient(self, recipient: Address) -> bool {
        exists|i: int|
            0 <= i < self.allocations.len() && (#[trigger] self.allocations[i]).recipient
                == recipient
    }

    /// What `recipient` may withdraw at ledger time `at`, from all its
    /// allocations together.
    pub open spec fn open_result(self, recipient: Address, at: u64) -> Result<i128, Error> {
        if self.accrual_fits(at) && self.open_sum_fits(recipient, self.vested(at)) {
            Ok(
                self.open_sum(
                    recipient,
                    self.vested(at),
                    self.allocations.len() as int,
                ) as i128,
            )
        } else {
            Err(Error::Overflow)
        }
    }

    /// What is left of a draw of `amount` after the first `n` allocations gave
    /// what they have open of `vested`.
    pub open spec fn left_to_draw(self, recipient: Address, amount: int, vested: int, n: int) -> int
        decreases n,
    {
        if n <= 0 {
            amount
        } else {
            let left = self.left_to_draw(recipient, amount, vested, n - 1);
            let part = self.open_part(recipient, n - 1, vested);
            if part <= 0 {
                left
            } else if part < left {
                left - part
            } else {
                0
            }
        }
    }

    /// The allocations after `recipient` drew `amount` of what it has open of
    /// `vested`, from its allocations in their order.
    pub open spec fn drawn_from(self, recipient: Address, amount: int, vested: int) -> Seq<
        RecipientAllocation,
    > {
        Seq::new(
            self.allocations.len(),
            |i: int|
                RecipientAllocation {
                    released_amount: (self.allocations[i].released_amount + self.left_to_draw(
                        recipient,
                        amount,
                        vested,
                        i,
                    ) - self.left_to_draw(recipient, amount, vested, i + 1)) as i128,
                    ..self.allocations[i]
                },
        )
    }

    /// Whether every recipient has its share of the whole amount.
    pub open spec fn fully_paid(self) -> bool {
        forall|i: int|
            0 <= i < self.allocations.len() ==> self.share_fits(i, self.total_amount as int)
                && self.share(i, self.total_amount as int) == (
            #[trigger] self.allocations[i]).released_amount
    }

    /// After `recipient` received `amount` at ledger time `now`.
    pub open spec fn drawn(self, recipient: Address, amount: i128, now: u64) -> SplitStreamView {
        let paid = SplitStreamView {
            allocations: self.drawn_from(recipient, amount as int, self.vested(now)),
            last_update: now,
            ..self
        };
        if paid.fully_paid() {
            SplitStreamView { status: StreamStatus::Settled, ..paid }
        } else {
            paid
        }
    }

    /// Why `recipient` cannot draw `amount` at ledger time `now`, if it cannot.
    pub open spec fn draw_refusal(self, recipient: Address, amount: i128, now: u64) -> Option<Error> {
        if self.status is Settled {
            Some(Error::AlreadySettled)
        } else if !self.status.payable() || !self.has_recipient(recipient) {
            Some(Error::InvalidState)
        } else {
            match self.open_result(recipient, now) {
                Err(err) => Some(err),
                Ok(available) => if amount > available {
                    Some(Error::OverWithdraw)
                } else {
                    None
                },
            }
        }
    }

    /// Why the stream cannot be cancelled at ledger time `now`, if it cannot.
    pub open spec fn cancel_refusal(self, now: u64) -> Option<Error> {
        if self.status.terminal() {
            Some(Error::InvalidState)
        } else if self.accrual_fits(now) && self.all_open_fit(self.vested(now)) && fits(
            self.total_amount - self.vested(now),
        ) {
            None
        } else {
            Some(Error::Overflow)
        }
    }

    /// Whether what every recipient has open of `amount` can be computed.
    pub open spec fn all_open_fit(self, amount: int) -> bool {
        forall|i: int| 0 <= i < self.allocations.len() ==> #[trigger] self.open_fits(i, amount)
    }

    /// The allocations after every recipient received its share of `amount`.
    pub open spec fn paid_up(self, amount: int) -> Seq<RecipientAllocation> {
        Seq::new(
            self.allocations.len(),
            |i: int|
                RecipientAllocation {
                    released_amount: if self.share(i, amount) > self.allocations[i].released_amount {
                        self.share(i, amount) as i128
                    } else {
                        self.allocations[i].released_amount
                    },
                    ..self.allocations[i]
                },
        )
    }

    /// After the stream was cancelled at ledger time `now`.
    pub open spec fn cancelled(self, now: u64) -> SplitStreamView {
        SplitStreamView {
            allocations: self.paid_up(self.vested(now)),
            status: StreamStatus::Cancelled,
            last_update: now,
            ..self
        }
    }
}

/// The sum of the first `n` weights.
pub open spec fn sum_weights(weights: Seq<u64>, n: int) -> int
    decreases n,
{
    if n <= 0 {
        0
    } else {
        sum_weights(weights, n - 1) + weights[n - 1]
    }
}

/// The allocations of a new split stream.
pub open spec fn new_allocations(recipients: Seq<Address>, weights: Seq<u64>) -> Seq<RecipientAllocation> {
    Seq::new(
        recipients.len(),
        |i: int|
            RecipientAllocation { recipient: recipients[i], weight: weights[i], released_amount: 0 },
    )
}

/// The record of a new split stream.
pub open spec fn new_split(
    id: u64,
    sender: Address,
    token: Address,
    total_amount: i128,
    start_time: u64,
    end_time: u64,
    recipients: Seq<Address>,
    weights: Seq<u64>,
) -> SplitStreamView {
    SplitStreamView {
        id,
        sender,
        token,
        total_amount,
        start_time,
        end_time,
        last_update: start_time,
        status: StreamStatus::Active,
        total_weight: sum_weights(weights, weights.len() as int) as u64,
        allocations: new_allocations(recipients, weights),
    }
}

// ── Spec: the entrypoints ───────────────────────────────────────────────────

impl EnvView {
    pub open spec fn read_split(self, stream_id: u64) -> EnvView {
        if self.splits.contains_key(stream_id) {
            self.extend_row(DataKey::SplitStream(stream_id))
        } else {
            self
        }
    }

    pub open spec fn write_split(self, stream_id: u64, s: SplitStreamView) -> EnvView {
        EnvView {
            splits: self.splits.insert(stream_id, s),
            ..self
        }.extend_row(DataKey::SplitStream(stream_id))
    }

    /// Why `create_split_stream` refuses, if it does.
    pub open spec fn create_split_refusal(
        self,
        sender: Address,
        token: Address,
        total_amount: i128,
        start_time: u64,
        end_time: u64,
        recipients: Seq<Address>,
        weights: Seq<u64>,
    ) -> Option<Error> {
        if self.is_paused() {
            Some(Error::ContractPaused)
        } else if total_amount <= 0 || recipients.len() < 2 || recipients.len() != weights.len()
            || weights.contains(0) {
            Some(Error::InvalidAmount)
        } else if recipients.contains(sender) {
            Some(Error::SelfStream)
        } else if self.token_blocked(token) {
            Some(Error::TokenNotAllowed)
        } else if end_time <= start_time || start_time < self.timestamp {
            Some(Error::InvalidTimeRange)
        } else if sum_weights(weights, weights.len() as int) > u64::MAX {
            Some(Error::Overflow)
        } else {
            None
        }
    }

    /// After `create_split_stream` succeeded.
    pub open spec fn create_split(
        self,
        sender: Address,
        token: Address,
        total_amount: i128,
        start_time: u64,
        end_time: u64,
        recipients: Seq<Address>,
        weights: Seq<u64>,
    ) -> EnvView {
        self.read_paused().demand(sender).read_token(token).take_stream_id().transfer(
            token,
            sender,
            self.contract_address,
            total_amount,
        ).write_split(
            self.next_id(),
            new_split(
                self.next_id(),
                sender,
                token,
                total_amount,
                start_time,
                end_time,
                recipients,
                weights,
            ),
        )
    }

    /// Why `withdraw_split` refuses, if it does.
    pub open spec fn withdraw_split_refusal(self, stream_id: u64, recipient: Address, amount: i128) -> Option<
        Error,
    > {
        if self.is_paused() {
            Some(Error::ContractPaused)
        } else if amount <= 0 {
            Some(Error::InvalidAmount)
        } else if !self.splits.contains_key(stream_id) {
            Some(Error::NotFound)
        } else {
            self.splits[stream_id].draw_refusal(recipient, amount, self.timestamp)
        }
    }

    /// After a split withdrawal was refused: the recipient's authorisation was
    /// demanded if the stream was looked at.
    pub open spec fn fail_withdraw_split(self, stream_id: u64, recipient: Address, amount: i128) -> EnvView {
        if !self.is_paused() && amount > 0 && self.splits.contains_key(stream_id) {
            self.demand(recipient)
        } else {
            self
        }
    }

    /// After `withdraw_split` succeeded.
    pub open spec fn withdraw_split(self, stream_id: u64, recipient: Address, amount: i128) -> EnvView {
        let s = self.splits[stream_id];
        self.read_paused().read_split(stream_id).demand(recipient).transfer(
            s.token,
            self.contract_address,
            recipient,
            amount,
        ).write_split(stream_id, s.drawn(recipient, amount, self.timestamp))
    }

    /// After the first `n` recipients of `s` received what they had open of
    /// `amount`.
    pub open spec fn pay_shares(self, s: SplitStreamView, amount: int, n: int) -> EnvView
        decreases n,
    {
        if n <= 0 {
            self
        } else {
            let paid = self.pay_shares(s, amount, n - 1);
            let a = s.allocations[n - 1];
            let due = s.share(n - 1, amount) - a.released_amount;
            if due > 0 {
                paid.transfer(s.token, self.contract_address, a.recipient, due as i128)
            } else {
                paid
            }
        }
    }

    /// After `cancel_split_stream` succeeded.
    pub open spec fn cancel_split(self, stream_id: u64) -> EnvView {
        let s = self.splits[stream_id];
        let vested = s.vested(self.timestamp);
        let refund = s.total_amount - vested;
        let paid = self.read_split(stream_id).demand(s.sender).pay_shares(
            s,
            vested,
            s.allocations.len() as int,
        );
        let refunded = if refund > 0 {
            paid.transfer(s.token, self.contract_address, s.sender, refund as i128)
        } else {
            paid
        };
        refunded.write_split(stream_id, s.cancelled(self.timestamp))
    }
}

// ── Storage ─────────────────────────────────────────────────────────────────

/// A copy of a split stream.
fn copy_split(s: &SplitStream) -> (r: SplitStream)
    ensures
        r@ == s@,
{
    let mut allocations: Vec<RecipientAllocation> = Vec::new();
    let mut i: usize = 0;
    while i < s.allocations.len()
        invariant
            i <= s.allocations@.len(),
            allocations@ =~= s.allocations@.take(i as int),
        decreases s.allocations.len() - i,
    {
        allocations.push(s.allocations[i]);
        i = i + 1;
    }
    proof {
        assert(s.allocations@.take(i as int) =~= s.allocations@);
    }
    SplitStream {
        id: s.id,
        sender: s.sender,
        token: s.token,
        total_amount: s.total_amount,
        start_time: s.start_time,
        end_time: s.end_time,
        last_update: s.last_update,
        status: s.status,
        total_weight: s.total_weight,
        allocations,
    }
}

/// Reads a split stream that has to exist.
fn get_existing_split(env: &mut Env, stream_id: u64) -> (r: Result<SplitStream, Error>)
    ensures
        match r {
            Ok(s) => old(env)@.splits.contains_key(stream_id) && s@ == old(env)@.splits[stream_id],
            Err(err) => !old(env)@.splits.contains_key(stream_id) && err == Error::NotFound,
        },
        final(env)@ == old(env)@.read_split(stream_id),
{
    let row: Option<SplitStream> = match env.splits.get(stream_id) {
        Some(s) => Some(copy_split(s)),
        None => None,
    };
    match row {
        Some(s) => {
            extend_persistent_ttl(env, DataKey::SplitStream(stream_id));
            Ok(s)
        },
        None => Err(Error::NotFound),
    }
}

/// Writes a split stream.
fn set_split(env: &mut Env, stream_id: u64, s: SplitStream)
    ensures
        final(env)@ == old(env)@.write_split(stream_id, s@),
{
    env.splits.set(stream_id, s);
    extend_persistent_ttl(env, DataKey::SplitStream(stream_id));
}

// ── Accrual and shares ──────────────────────────────────────────────────────

/// `a * b / c`, or `Overflow`.
fn scale(a: i128, b: u64, c: u64) -> (r: Result<i128, Error>)
    ensures
        if c > 0 && fits(a * b) {
            r is Ok && r->Ok_0 == quotient(a * b, c as int)
        } else {
            r == Err::<i128, Error>(Error::Overflow)
        },
{
    match a.checked_mul(b as i128) {
        Some(product) => {
            proof {
                if c > 0 {
                    lemma_quotient_bounds(a * b, c as int);
                }
            }
            match product.checked_div(c as i128) {
                Some(q) => Ok(q),
                None => Err(Error::Overflow),
            }
        },
        None => Err(Error::Overflow),
    }
}

/// The vested amount of a split stream at ledger time `at`.
pub fn split_vested_amount(s: &SplitStream, at: u64) -> (r: Result<i128, Error>)
    ensures
        if s@.accrual_fits(at) {
            r is Ok && r->Ok_0 == s@.vested(at)
        } else {
            r == Err::<i128, Error>(Error::Overflow)
        },
{
    let over = s.status == StreamStatus::Settled || s.status == StreamStatus::Cancelled;
    let t: u64 = if over && at > s.last_update {
        s.last_update
    } else {
        at
    };
    if t >= s.end_time {
        Ok(s.total_amount)
    } else if t <= s.start_time {
        Ok(0)
    } else {
        scale(s.total_amount, t - s.start_time, s.end_time - s.start_time)
    }
}

/// What allocation `i` has open of the vested amount `vested`.
fn open_amount(s: &SplitStream, i: usize, vested: i128) -> (r: Result<i128, Error>)
    requires
        i < s@.allocations.len(),
    ensures
        if s@.open_fits(i as int, vested as int) {
            r is Ok && r->Ok_0 == s@.share(i as int, vested as int)
                - s@.allocations[i as int].released_amount
        } else {
            r == Err::<i128, Error>(Error::Overflow)
        },
{
    let share: i128 = scale(vested, s.allocations[i].weight, s.total_weight)?;
    match share.checked_sub(s.allocations[i].released_amount) {
        Some(open) => Ok(open),
        None => Err(Error::Overflow),
    }
}

/// Whether `recipient` has an allocation.
fn is_recipient(s: &SplitStream, recipient: Address) -> (r: bool)
    ensures
        r == s@.has_recipient(recipient),
{
    let mut i: usize = 0;
    while i < s.allocations.len()
        invariant
            i <= s@.allocations.len(),
            forall|j: int| 0 <= j < i ==> (#[trigger] s@.allocations[j]).recipient != recipient,
        decreases s.allocations.len() - i,
    {
        if s.allocations[i].recipient == recipient {
            assert(s@.allocations[i as int].recipient == recipient);
            return true;
        }
        i = i + 1;
    }
    false
}

/// What `recipient` has open of the vested amount `vested`, in all its
/// allocations together.
fn open_of_recipient(s: &SplitStream, recipient: Address, vested: i128) -> (r: Result<i128, Error>)
    ensures
        if s@.open_sum_fits(recipient, vested as int) {
            r is Ok && r->Ok_0 == s@.open_sum(
                recipient,
                vested as int,
                s@.allocations.len() as int,
            )
        } else {
            r == Err::<i128, Error>(Error::Overflow)
        },
{
    let mut sum: i128 = 0;
    let mut i: usize = 0;
    while i < s.allocations.len()
        invariant
            i <= s@.allocations.len(),
            sum == s@.open_sum(recipient, vested as int, i as int),
            forall|j: int|
                0 <= j < i ==> #[trigger] s@.open_step_fits(recipient, vested as int, j),
        decreases s.allocations.len() - i,
    {
        proof {
            assert(s@.open_sum_fits(recipient, vested as int) ==> s@.open_step_fits(
                recipient,
                vested as int,
                i as int,
            ));
        }
        if s.allocations[i].recipient == recipient {
            let open: i128 = open_amount(s, i, vested)?;
            sum = match sum.checked_add(open) {
                Some(more) => more,
                None => {
                    return Err(Error::Overflow);
                },
            };
        }
        i = i + 1;
    }
    Ok(sum)
}

/// Whether every recipient has its share of the whole amount.
fn is_fully_paid(s: &SplitStream) -> (r: bool)
    ensures
        r == s@.fully_paid(),
{
    let mut i: usize = 0;
    while i < s.allocations.len()
        invariant
            i <= s@.allocations.len(),
            forall|j: int|
                0 <= j < i ==> s@.share_fits(j, s@.total_amount as int) && s@.share(
                    j,
                    s@.total_amount as int,
                ) == (#[trigger] s@.allocations[j]).released_amount,
        decreases s.allocations.len() - i,
    {
        match scale(s.total_amount, s.allocations[i].weight, s.total_weight) {
            Ok(share) => {
                if share != s.allocations[i].released_amount {
                    return false;
                }
            },
            Err(_) => {
                return false;
            },
        }
        i = i + 1;
    }
    true
}

// ── Checks ──────────────────────────────────────────────────────────────────

/// Whether `list` holds `a`.
fn contains_address(list: &Vec<Address>, a: Address) -> (r: bool)
    ensures
        r == list@.contains(a),
{
    let mut i: usize = 0;
    while i < list.len()
        invariant
            i <= list@.len(),
            forall|j: int| 0 <= j < i ==> list@[j] != a,
        decreases list.len() - i,
    {
        if list[i] == a {
            return true;
        }
        i = i + 1;
    }
    false
}

/// Whether a weight is zero.
fn contains_zero(weights: &Vec<u64>) -> (r: bool)
    ensures
        r == weights@.contains(0),
{
    let mut i: usize = 0;
    while i < weights.len()
        invariant
            i <= weights@.len(),
            forall|j: int| 0 <= j < i ==> weights@[j] != 0,
        decreases weights.len() - i,
    {
        if weights[i] == 0 {
            return true;
        }
        i = i + 1;
    }
    false
}

/// Sums only grow.
pub(crate) proof fn lemma_sum_grows(weights: Seq<u64>, m: int, n: int)
    requires
        m <= n <= weights.len(),
    ensures
        sum_weights(weights, m) <= sum_weights(weights, n),
    decreases n - m,
{
    if m < n {
        lemma_sum_grows(weights, m, n - 1);
    }
}

/// The sum of the weights, or `Overflow`.
fn add_weights(weights: &Vec<u64>) -> (r: Result<u64, Error>)
    ensures
        if sum_weights(weights@, weights@.len() as int) <= u64::MAX {
            r is Ok && r->Ok_0 == sum_weights(weights@, weights@.len() as int)
        } else {
            r == Err::<u64, Error>(Error::Overflow)
        },
{
    let mut total: u64 = 0;
    let mut i: usize = 0;
    while i < weights.len()
        invariant
            i <= weights@.len(),
            total == sum_weights(weights@, i as int),
        decreases weights.len() - i,
    {
        proof {
            lemma_sum_grows(weights@, i + 1, weights@.len() as int);
        }
        match total.checked_add(weights[i]) {
            Some(sum) => {
                total = sum;
            },
            None => {
                return Err(Error::Overflow);
            },
        }
        i = i + 1;
    }
    Ok(total)
}

/// Reads and tests the terms of a new split stream. Returns the sum of the
/// weights.
fn check_split_terms(
    env: &mut Env,
    sender: Address,
    token: Address,
    total_amount: i128,
    start_time: u64,
    end_time: u64,
    recipients: &Vec<Address>,
    weights: &Vec<u64>,
) -> (r: Result<u64, Error>)
    ensures
        match old(env)@.create_split_refusal(
            sender,
            token,
            total_amount,
            start_time,
            end_time,
            recipients@,
            weights@,
        ) {
            Some(err) => {
                &&& r == Err::<u64, Error>(err)
                &&& final(env)@.only_calls_added(old(env)@.fail_create(sender))
            },
            None => {
                &&& r is Ok
                &&& r->Ok_0 == sum_weights(weights@, weights@.len() as int)
                &&& final(env)@ == old(env)@.read_paused().demand(sender).read_token(token)
            },
        },
{
    broadcast use crate::env::group_calls_added;

    let now: u64 = env.timestamp;
    require_not_paused(env)?;
    env.require_auth(sender);
    if total_amount <= 0 || recipients.len() < 2 || recipients.len() != weights.len()
        || contains_zero(weights) {
        return Err(Error::InvalidAmount);
    }
    if contains_address(recipients, sender) {
        return Err(Error::SelfStream);
    }
    if storage::is_token_blocked(env, token) {
        return Err(Error::TokenNotAllowed);
    }
    if end_time <= start_time || start_time < now {
        return Err(Error::InvalidTimeRange);
    }
    add_weights(weights)
}

/// Draws `amount` for `recipient` from the record of a split stream.
fn draw_split(s: SplitStream, recipient: Address, amount: i128, now: u64) -> (r: Result<
    SplitStream,
    Error,
>)
    requires
        amount > 0,
    ensures
        match s@.draw_refusal(recipient, amount, now) {
            Some(err) => r is Err && r->Err_0 == err,
            None => r is Ok && r->Ok_0@ == s@.drawn(recipient, amount, now),
        },
{
    if s.status == StreamStatus::Settled {
        return Err(Error::AlreadySettled);
    }
    if s.status != StreamStatus::Active && s.status != StreamStatus::Paused {
        return Err(Error::InvalidState);
    }
    if !is_recipient(&s, recipient) {
        return Err(Error::InvalidState);
    }
    let vested: i128 = split_vested_amount(&s, now)?;
    let available: i128 = open_of_recipient(&s, recipient, vested)?;
    if amount > available {
        return Err(Error::OverWithdraw);
    }
    let mut after = take_from_allocations(s, recipient, amount, vested);
    after.last_update = now;
    if is_fully_paid(&after) {
        after.status = StreamStatus::Settled;
    }
    Ok(after)
}

/// Takes `amount` from what the allocations of `recipient` have open of
/// `vested`, in their order.
fn take_from_allocations(s: SplitStream, recipient: Address, amount: i128, vested: i128) -> (r:
    SplitStream)
    requires
        amount >= 0,
        s@.open_sum_fits(recipient, vested as int),
    ensures
        r@ == (SplitStreamView {
            allocations: s@.drawn_from(recipient, amount as int, vested as int),
            ..s@
        }),
{
    let ghost before = s@;
    let mut after = s;
    let mut left: i128 = amount;
    let mut i: usize = 0;
    while i < after.allocations.len()
        invariant
            i <= before.allocations.len(),
            0 <= left,
            left == before.left_to_draw(recipient, amount as int, vested as int, i as int),
            before.open_sum_fits(recipient, vested as int),
            after@.allocations.len() == before.allocations.len(),
            after@ == (SplitStreamView { allocations: after@.allocations, ..before }),
            forall|j: int|
                0 <= j < i ==> #[trigger] after@.allocations[j] == before.drawn_from(
                    recipient,
                    amount as int,
                    vested as int,
                )[j],
            forall|j: int|
                i <= j < before.allocations.len() ==> #[trigger] after@.allocations[j]
                    == before.allocations[j],
        decreases before.allocations.len() - i,
    {
        let a = after.allocations[i];
        proof {
            assert(a == before.allocations[i as int]);
            assert(before.open_step_fits(recipient, vested as int, i as int));
        }
        if a.recipient == recipient {
            proof {
                lemma_quotient_bounds(vested * a.weight, before.total_weight as int);
            }
            let part: i128 = match open_amount(&after, i, vested) {
                Ok(part) => part,
                Err(_) => 0,
            };
            if part > 0 {
                let taken: i128 = if part < left {
                    part
                } else {
                    left
                };
                let released_amount: i128 = a.released_amount + taken;
                after.allocations.set(i, RecipientAllocation { released_amount, ..a });
                left = left - taken;
            }
        }
        i = i + 1;
    }
    proof {
        assert(after@.allocations =~= before.drawn_from(recipient, amount as int, vested as int));
    }
    after
}

/// Computes what every recipient has open of `vested`.
fn open_amounts(s: &SplitStream, vested: i128) -> (r: Result<Vec<i128>, Error>)
    ensures
        if s@.all_open_fit(vested as int) {
            &&& r is Ok
            &&& r->Ok_0@.len() == s@.allocations.len()
            &&& forall|i: int|
                0 <= i < s@.allocations.len() ==> #[trigger] r->Ok_0@[i] == s@.share(i, vested as int)
                    - s@.allocations[i].released_amount
        } else {
            r is Err && r->Err_0 == Error::Overflow
        },
{
    let mut amounts: Vec<i128> = Vec::new();
    let mut i: usize = 0;
    while i < s.allocations.len()
        invariant
            i <= s@.allocations.len(),
            amounts@.len() == i,
            forall|j: int| 0 <= j < i ==> #[trigger] s@.open_fits(j, vested as int),
            forall|j: int|
                0 <= j < i ==> #[trigger] amounts@[j] == s@.share(j, vested as int)
                    - s@.allocations[j].released_amount,
        decreases s.allocations.len() - i,
    {
        match open_amount(s, i, vested) {
            Ok(open) => {
                amounts.push(open);
            },
            Err(err) => {
                return Err(err);
            },
        }
        i = i + 1;
    }
    Ok(amounts)
}

/// Computes the vested amount, what every recipient has open of it, and what
/// the sender gets back, of a split stream that is cancelled.
fn split_cancel_shares(s: &SplitStream, now: u64) -> (r: Result<(Vec<i128>, i128), Error>)
    ensures
        match s@.cancel_refusal(now) {
            Some(err) => r is Err && r->Err_0 == err,
            None => {
                &&& r is Ok
                &&& r->Ok_0.0@.len() == s@.allocations.len()
                &&& forall|i: int|
                    0 <= i < s@.allocations.len() ==> #[trigger] r->Ok_0.0@[i] == s@.share(
                        i,
                        s@.vested(now),
                    ) - s@.allocations[i].released_amount
                &&& r->Ok_0.1 == s@.total_amount - s@.vested(now)
            },
        },
{
    if s.status == StreamStatus::Settled || s.status == StreamStatus::Cancelled {
        return Err(Error::InvalidState);
    }
    let vested: i128 = split_vested_amount(s, now)?;
    let amounts = match open_amounts(s, vested) {
        Ok(amounts) => amounts,
        Err(err) => {
            return Err(err);
        },
    };
    match s.total_amount.checked_sub(vested) {
        Some(refund) => Ok((amounts, refund)),
        None => Err(Error::Overflow),
    }
}

/// Pays every recipient what it has open, and brings the record up to date.
fn pay_shares(env: &mut Env, s: SplitStream, amounts: &Vec<i128>, Ghost(vested): Ghost<int>) -> (r:
    SplitStream)
    requires
        s@.all_open_fit(vested),
        amounts@.len() == s@.allocations.len(),
        forall|i: int|
            0 <= i < s@.allocations.len() ==> #[trigger] amounts@[i] == s@.share(i, vested)
                - s@.allocations[i].released_amount,
    ensures
        final(env)@ == old(env)@.pay_shares(s@, vested, s@.allocations.len() as int),
        r@ == (SplitStreamView { allocations: s@.paid_up(vested), ..s@ }),
{
    let contract = env.contract_address;
    let ghost before = s@;
    let mut after = s;
    let mut i: usize = 0;
    while i < after.allocations.len()
        invariant
            i <= before.allocations.len(),
            contract == old(env)@.contract_address,
            after@.allocations.len() == before.allocations.len(),
            after@ == (SplitStreamView { allocations: after@.allocations, ..before }),
            before.all_open_fit(vested),
            amounts@.len() == before.allocations.len(),
            forall|j: int|
                0 <= j < before.allocations.len() ==> #[trigger] amounts@[j] == before.share(
                    j,
                    vested,
                ) - before.allocations[j].released_amount,
            env@ == old(env)@.pay_shares(before, vested, i as int),
            forall|j: int|
                0 <= j < i ==> #[trigger] after@.allocations[j] == before.paid_up(vested)[j],
            forall|j: int|
                i <= j < before.allocations.len() ==> #[trigger] after@.allocations[j]
                    == before.allocations[j],
        decreases before.allocations.len() - i,
    {
        let due: i128 = amounts[i];
        let a = after.allocations[i];
        proof {
            assert(before.open_fits(i as int, vested));
            assert(a == before.allocations[i as int]);
        }
        if due > 0 {
            proof {
                lemma_quotient_bounds(vested * a.weight, before.total_weight as int);
            }
            env.transfer(after.token, contract, a.recipient, due);
            let released_amount: i128 = a.released_amount + due;
            after.allocations.set(i, RecipientAllocation { released_amount, ..a });
        }
        i = i + 1;
    }
    proof {
        assert(after@.allocations =~= before.paid_up(vested));
    }
    after
}

impl Contract {
    /// Creates a stream whose vested amount is shared by `recipients` in
    /// proportion to `weights`, and escrows `total_amount` from `sender`.
    ///
    /// Returns the id of the stream. Needs the authorisation of `sender`.
    pub fn create_split_stream(
        env: &mut Env,
        sender: Address,
        token: Address,
        total_amount: i128,
        start_time: u64,
        end_time: u64,
        recipients: Vec<Address>,
        weights: Vec<u64>,
    ) -> (r: Result<u64, Error>)
        ensures
            match old(env)@.create_split_refusal(
                sender,
                token,
                total_amount,
                start_time,
                end_time,
                recipients@,
                weights@,
            ) {
                Some(err) => {
                    &&& r == Err::<u64, Error>(err)
                    &&& final(env)@ == old(env)@.fail_create(sender)
                },
                None => {
                    &&& r == Ok::<u64, Error>(old(env)@.next_id())
                    &&& final(env)@ == old(env)@.create_split(
                        sender,
                        token,
                        total_amount,
                        start_time,
                        end_time,
                        recipients@,
                        weights@,
                    )
                },
            },
    {
        let kept: usize = env.calls.len();
        let contract = env.contract_address;
        let total_weight: u64 = match check_split_terms(
            env,
            sender,
            token,
            total_amount,
            start_time,
            end_time,
            &recipients,
            &weights,
        ) {
            Ok(total_weight) => total_weight,
            Err(err) => {
                env.revert(kept);
                return Err(err);
            },
        };
        let mut allocations: Vec<RecipientAllocation> = Vec::new();
        let mut i: usize = 0;
        while i < recipients.len()
            invariant
                recipients@.len() == weights@.len(),
                i <= recipients@.len(),
                allocations@ =~= new_allocations(recipients@, weights@).take(i as int),
            decreases recipients.len() - i,
        {
            allocations.push(
                RecipientAllocation {
                    recipient: recipients[i],
                    weight: weights[i],
                    released_amount: 0,
                },
            );
            i = i + 1;
        }
        proof {
            assert(allocations@ =~= new_allocations(recipients@, weights@));
        }
        let id: u64 = storage::next_stream_id(env);
        env.transfer(token, sender, contract, total_amount);
        let s = SplitStream {
            id,
            sender,
            token,
            total_amount,
            start_time,
            end_time,
            last_update: start_time,
            status: StreamStatus::Active,
            total_weight,
            allocations,
        };
        set_split(env, id, s);
        Ok(id)
    }

    /// Pays `amount` of what has accrued to one recipient of a split stream.
    ///
    /// Returns `amount`. Needs the authorisation of `recipient`.
    pub fn withdraw_split(env: &mut Env, stream_id: u64, recipient: Address, amount: i128) -> (r:
        Result<i128, Error>)
        ensures
            match old(env)@.withdraw_split_refusal(stream_id, recipient, amount) {
                Some(err) => {
                    &&& r == Err::<i128, Error>(err)
                    &&& final(env)@ == old(env)@.fail_withdraw_split(stream_id, recipient, amount)
                },
                None => {
                    &&& r == Ok::<i128, Error>(amount)
                    &&& final(env)@ == old(env)@.withdraw_split(stream_id, recipient, amount)
                },
            },
    {
        broadcast use crate::env::group_calls_added;

        let kept: usize = env.calls.len();
        let now: u64 = env.timestamp;
        let contract = env.contract_address;
        if let Err(err) = require_not_paused(env) {
            proof {
                assert(env@.only_calls_added(old(env)@));
            }
            env.revert(kept);
            return Err(err);
        }
        if amount <= 0 {
            proof {
                assert(env@.only_calls_added(old(env)@));
            }
            env.revert(kept);
            return Err(Error::InvalidAmount);
        }
        let s = match get_existing_split(env, stream_id) {
            Ok(s) => s,
            Err(err) => {
                proof {
                    assert(env@.only_calls_added(old(env)@));
                }
                env.revert(kept);
                return Err(err);
            },
        };
        let token = s.token;
        env.require_auth(recipient);
        let after = match draw_split(s, recipient, amount, now) {
            Ok(after) => after,
            Err(err) => {
                proof {
                    assert(env@.only_calls_added(old(env)@.demand(recipient)));
                }
                env.revert(kept);
                return Err(err);
            },
        };
        env.transfer(token, contract, recipient, amount);
        set_split(env, stream_id, after);
        Ok(amount)
    }

    /// Ends a split stream that is not over: every recipient gets its share of
    /// what has vested, the sender what has not vested.
    ///
    /// Needs the authorisation of the stream's sender.
    pub fn cancel_split_stream(env: &mut Env, stream_id: u64) -> (r: Result<SplitStream, Error>)
        ensures
            if !old(env)@.splits.contains_key(stream_id) {
                r is Err && r->Err_0 == Error::NotFound && final(env)@ == old(env)@
            } else {
                let s = old(env)@.splits[stream_id];
                match s.cancel_refusal(old(env)@.timestamp) {
                    Some(err) => {
                        &&& r is Err
                        &&& r->Err_0 == err
                        &&& final(env)@ == old(env)@.demand(s.sender)
                    },
                    None => {
                        &&& r is Ok
                        &&& r->Ok_0@ == s.cancelled(old(env)@.timestamp)
                        &&& final(env)@ == old(env)@.cancel_split(stream_id)
                    },
                }
            },
    {
        broadcast use crate::env::group_calls_added;

        let kept: usize = env.calls.len();
        let now: u64 = env.timestamp;
        let contract = env.contract_address;
        let s = match get_existing_split(env, stream_id) {
            Ok(s) => s,
            Err(err) => {
                return Err(err);
            },
        };
        let token = s.token;
        let sender = s.sender;
        env.require_auth(sender);
        let (amounts, refund) = match split_cancel_shares(&s, now) {
            Ok(shares) => shares,
            Err(err) => {
                proof {
                    assert(env@.only_calls_added(old(env)@.demand(sender)));
                }
                env.revert(kept);
                return Err(err);
            },
        };
        let ghost before = s@;
        let mut after = pay_shares(env, s, &amounts, Ghost(before.vested(now)));
        if refund > 0 {
            env.transfer(token, contract, sender, refund);
        }
        after.status = StreamStatus::Cancelled;
        after.last_update = now;
        let record = copy_split(&after);
        set_split(env, stream_id, record);
        Ok(after)
    }

    /// The record of a split stream.
    pub fn get_split_stream(env: &mut Env, stream_id: u64) -> (r: Result<SplitStream, Error>)
        ensures
            match r {
                Ok(s) => old(env)@.splits.contains_key(stream_id) && s@
                    == old(env)@.splits[stream_id],
                Err(err) => !old(env)@.splits.contains_key(stream_id) && err == Error::NotFound,
            },
            final(env)@ == old(env)@.read_split(stream_id),
    {
        get_existing_split(env, stream_id)
    }

    /// What one recipient of a split stream may withdraw by now, from all its
    /// allocations together.
    pub fn split_withdrawable(env: &mut Env, stream_id: u64, recipient: Address) -> (r: Result<
        i128,
        Error,
    >)
        ensures
            r == ({
                let s = old(env)@.splits[stream_id];
                if old(env)@.splits.contains_key(stream_id) && s.has_recipient(recipient) {
                    s.open_result(recipient, old(env)@.timestamp)
                } else {
                    Err::<i128, Error>(Error::NotFound)
                }
            }),
            r is Ok ==> final(env)@ == old(env)@.read_split(stream_id),
            r is Err ==> final(env)@ == old(env)@,
    {
        broadcast use crate::env::group_calls_added;

        let kept: usize = env.calls.len();
        let now: u64 = env.timestamp;
        let s = match get_existing_split(env, stream_id) {
            Ok(s) => s,
            Err(err) => {
                return Err(err);
            },
        };
        let r: Result<i128, Error> = if !is_recipient(&s, recipient) {
            Err(Error::NotFound)
        } else {
            match split_vested_amount(&s, now) {
                Ok(vested) => open_of_recipient(&s, recipient, vested),
                Err(err) => Err(err),
            }
        };
        if r.is_err() {
            proof {
                assert(env@.only_calls_added(old(env)@));
            }
            env.revert(kept);
        }
        r
    }

    /// What has vested of a split stream by now.
    pub fn split_stream_balance(env: &mut Env, stream_id: u64) -> (r: Result<i128, Error>)
        ensures
            r == ({
                let s = old(env)@.splits[stream_id];
                if !old(env)@.splits.contains_key(stream_id) {
                    Err::<i128, Error>(Error::NotFound)
                } else if s.accrual_fits(old(env)@.timestamp) {
                    Ok(s.vested(old(env)@.timestamp) as i128)
                } else {
                    Err(Error::Overflow)
                }
            }),
            r is Ok ==> final(env)@ == old(env)@.read_split(stream_id),
            r is Err ==> final(env)@ == old(env)@,
    {
        broadcast use crate::env::group_calls_added;

        let kept: usize = env.calls.len();
        let now: u64 = env.timestamp;
        let s = match get_existing_split(env, stream_id) {
            Ok(s) => s,
            Err(err) => {
                return Err(err);
            },
        };
        let r = split_vested_amount(&s, now);
        if r.is_err() {
            proof {
                assert(env@.only_calls_added(old(env)@));
            }
            env.revert(kept);
        }
        r
    }
}

} // verus!
