use vstd::prelude::*;

verus! {

/// Everything that can make a request fail. Each error is terminal for the
/// triggering request: the caller persists no state change on an `Err`.
#[derive(Clone, Copy, Debug, PartialEq, Eq, Structural)]
pub enum ContractError {
    /// The funding owner's address is not in canonical form.
    InvalidOwner,
    /// The recipient's address is not in canonical form, or the recipient is
    /// the funding owner or the configured administrative owner.
    InvalidRecipient,
    /// The effective start lies after the end, or in the past.
    InvalidStartTime,
    /// The deposited amount is smaller than the stream duration, so the
    /// per-second rate would be zero.
    InvalidDuration,
    /// A funding notification arrived from a sender other than the
    /// configured token contract.
    Unauthorized,
    /// A withdrawal was attempted by someone other than the stream's
    /// recipient.
    NotStreamRecipient,
    /// The stream's whole amount has already been paid out.
    StreamFullyClaimed,
    /// A withdrawal was attempted at or before the stream's start.
    StreamNotStarted,
    /// No stream exists under the requested id.
    NotFound,
    /// An intermediate settlement computation left the unsigned 128-bit
    /// domain; the request aborts rather than pay a wrong amount.
    Arithmetic,
}

} // verus!
