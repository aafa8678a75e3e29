//! A stateless proof-of-work challenge-response library.
//!
//! A caller issues a cryptographically random, time-bounded challenge; a
//! remote party invests bounded computational effort to produce a nonce whose
//! digest clears a difficulty threshold; the issuer verifies the solution
//! without any stored state, because everything needed for verification
//! travels inside the authenticated cookie itself.

pub mod boundary;
pub mod challenge;
pub mod codec;
pub mod errors;
pub mod hasher;
pub mod hmac256;
