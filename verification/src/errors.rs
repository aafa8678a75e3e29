//! The error taxonomy of the protocol.

use vstd::prelude::*;

verus! {

/// Every way an operation of this library can fail, as a discriminated
/// value so that callers can tell a missing secret from a stale cookie.
#[derive(Clone, Copy, Debug, PartialEq, Eq, Structural)]
pub enum Error {
    /// No secret has ever been installed.
    NotReady,
    /// A zero-length buffer was handed to a boundary call.
    InvalidInput,
    /// The cookie text is not canonical URL-safe Base64, or the decoded
    /// length is not exactly `RAW_LEN` bytes.
    DecodeError,
    /// The authentication tag does not verify under the held secret.
    IntegrityError,
    /// The current time is strictly past `expires_at`.
    ExpiredError,
    /// The digest of `payload || nonce` has fewer leading zero bits than
    /// `difficulty_bits` demands.
    DifficultyError,
    /// The system clock is unavailable, before the epoch, or cannot
    /// represent the requested expiry instant.
    ClockError,
}

} // verus!
