//! The reasons for which the contract refuses a call.
use vstd::prelude::*;

verus! {

/// Why an entrypoint refused a call. A refused call leaves no trace in storage.
#[derive(Copy, Clone, Debug, PartialEq, Eq, Structural)]
pub enum Error {
    /// The contract already has an admin.
    AlreadyInitialized,
    /// The contract has no admin yet, or the stream does not exist.
    NotFound,
    /// The caller does not hold the role that the call needs.
    Unauthorized,
    /// The global emergency pause is on.
    ContractPaused,
    /// A token amount, a rate or a list of weights is out of range.
    InvalidAmount,
    /// A fee is above 10 000 basis points.
    InvalidFeeBps,
    /// The token is blocked.
    TokenNotAllowed,
    /// Sender and recipient are the same address.
    SelfStream,
    /// The time window is empty, in the past or out of range, or would take back
    /// what has vested.
    InvalidTimeRange,
    /// The recipient cannot hold the token.
    RecipientTrustlineMissing,
    /// The sender has as many live streams as the limit permits.
    StreamLimitExceeded,
    /// The current protocol fee is above what the caller accepts.
    FeeTooHigh,
    /// The stream is fully paid out.
    AlreadySettled,
    /// The stream is in a status in which the call makes no sense.
    InvalidState,
    /// The amount is above what has accrued and not been released.
    OverWithdraw,
    /// An amount computation leaves the range of `i128`.
    Overflow,
    /// The admin nonce was used before.
    NonceTooLow,
    /// The admin nonce skips ahead.
    NonceOutOfOrder,
}

} // verus!
