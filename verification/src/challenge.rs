//! The core entity: a random, time-bounded, difficulty-tagged challenge,
//! with issuance and validation logic built atop a digest provider.

use vstd::prelude::*;

use rand::Rng;

use crate::errors::Error;
use crate::hasher::{lemma_concat_of_two, views_of, Hasher};

verus! {

/// A proof-of-work challenge: 32 random payload bytes, an absolute expiry
/// in UNIX seconds, and the number of leading zero bits a solution's digest
/// must exhibit.
#[derive(Clone, Copy)]
pub struct Challenge {
    pub data: [u8; 32],
    pub expires_at: u64,
    pub difficulty_bits: u16,
}

/// The number of leading zero bits of one byte.
pub open spec fn spec_byte_lz(b: u8) -> nat {
    if b >= 0x80 {
        0
    } else if b >= 0x40 {
        1
    } else if b >= 0x20 {
        2
    } else if b >= 0x10 {
        3
    } else if b >= 0x08 {
        4
    } else if b >= 0x04 {
        5
    } else if b >= 0x02 {
        6
    } else if b >= 0x01 {
        7
    } else {
        8
    }
}

/// The number of leading zero bits of a byte sequence: each leading zero
/// byte contributes 8; the first nonzero byte contributes its own count and
/// ends the scan.
pub open spec fn spec_lz_bits(bytes: Seq<u8>) -> nat
    decreases bytes.len(),
{
    if bytes.len() == 0 {
        0
    } else if bytes.first() == 0 {
        (8 + spec_lz_bits(bytes.drop_first())) as nat
    } else {
        spec_byte_lz(bytes.first())
    }
}

/// The difficulty predicate: the digest clears `bits` leading zero bits.
pub open spec fn difficulty_ok(digest: Seq<u8>, bits: u16) -> bool {
    spec_lz_bits(digest) >= bits
}

/// A digest that clears a threshold clears every lower threshold.
pub proof fn lemma_difficulty_monotone(digest: Seq<u8>, d: u16, d2: u16)
    requires
        difficulty_ok(digest, d),
        d2 <= d,
    ensures
        difficulty_ok(digest, d2),
{
}

/// Counts the leading zero bits of `bytes`, as `spec_lz_bits` describes.
pub fn lz_bits(bytes: &[u8]) -> (r: u16)
    requires
        8 * bytes@.len() <= u16::MAX,
    ensures
        r == spec_lz_bits(bytes@),
{
    let n = bytes.len();
    let mut bits: u16 = 0;
    let mut i: usize = 0;
    proof {
        assert(bytes@.skip(0) =~= bytes@);
    }
    while i < n
        invariant
            i <= n,
            n == bytes@.len(),
            8 * n <= u16::MAX,
            bits == 8 * i,
            spec_lz_bits(bytes@) == bits + spec_lz_bits(bytes@.skip(i as int)),
        decreases n - i,
    {
        let b = bytes[i];
        proof {
            assert(bytes@.skip(i as int).first() == bytes@[i as int]);
        }
        if b == 0 {
            proof {
                assert(bytes@.skip(i as int).drop_first() =~= bytes@.skip(i as int + 1));
            }
            bits = bits + 8;
            i = i + 1;
        } else {
            let lzb: u16 = if b >= 0x80 {
                0
            } else if b >= 0x40 {
                1
            } else if b >= 0x20 {
                2
            } else if b >= 0x10 {
                3
            } else if b >= 0x08 {
                4
            } else if b >= 0x04 {
                5
            } else if b >= 0x02 {
                6
            } else {
                7
            };
            return bits + lzb;
        }
    }
    proof {
        assert(bytes@.skip(n as int) =~= Seq::<u8>::empty());
    }
    bits
}

/// Relies on rand's thread-local generator (rand::rng, Rng::fill_bytes),
/// a cryptographically secure random source; nothing is assumed of the
/// bytes drawn.
#[verifier::external_body]
pub(crate) fn random_payload() -> (r: [u8; 32]) {
    let mut data = [0u8; 32];
    rand::rng().fill_bytes(&mut data);
    data
}

/// Relies on std's SystemTime (now, duration_since UNIX_EPOCH, as_millis):
/// the milliseconds since the epoch, or None when the clock reads before
/// the epoch or past what a u64 holds.
#[verifier::external_body]
pub(crate) fn now_unix_millis() -> (r: Option<u64>) {
    match std::time::SystemTime::now().duration_since(std::time::UNIX_EPOCH) {
        Ok(d) => u64::try_from(d.as_millis()).ok(),
        Err(_) => None,
    }
}

impl Challenge {
    /// The expiry instant of a challenge issued at `now_millis` with the
    /// given TTL: issuance time plus TTL, truncated to whole seconds.
    pub open spec fn spec_expires_at(now_millis: u64, ttl_millis: u64) -> int {
        (now_millis + ttl_millis) / 1000
    }

    /// What validation returns for a given current time: expiry is checked
    /// first, then the difficulty predicate over the digest of
    /// `payload || nonce`.
    pub open spec fn spec_validate<H: Hasher>(self, nonce: u64, now: u64) -> Result<(), Error> {
        if now > self.expires_at {
            Err(Error::ExpiredError)
        } else if !difficulty_ok(
            H::spec_digest(self.data@ + vstd::bytes::spec_u64_to_le_bytes(nonce)),
            self.difficulty_bits,
        ) {
            Err(Error::DifficultyError)
        } else {
            Ok(())
        }
    }

    /// Constructs a challenge from its fields, unchanged.
    pub fn from(data: [u8; 32], expires_at: u64, difficulty_bits: u16) -> (c: Challenge)
        ensures
            c == (Challenge { data, expires_at, difficulty_bits }),
    {
        Challenge { data, expires_at, difficulty_bits }
    }

    /// Builds the challenge issued at `now_millis`: the payload and
    /// difficulty are taken unchanged and the expiry is `now + ttl`,
    /// truncated to seconds; a TTL the clock cannot represent is a
    /// `ClockError`.
    pub fn issue_at(
        data: [u8; 32],
        now_millis: u64,
        ttl_millis: u64,
        difficulty_bits: u16,
    ) -> (r: Result<Challenge, Error>)
        ensures
            now_millis + ttl_millis <= u64::MAX ==> r == Ok::<Challenge, Error>(
                Challenge {
                    data,
                    expires_at: Self::spec_expires_at(now_millis, ttl_millis) as u64,
                    difficulty_bits,
                },
            ),
            now_millis + ttl_millis > u64::MAX ==> r == Err::<Challenge, Error>(Error::ClockError),
    {
        match now_millis.checked_add(ttl_millis) {
            Some(t) => Ok(Challenge { data, expires_at: t / 1000, difficulty_bits }),
            None => Err(Error::ClockError),
        }
    }

    /// Issues a fresh challenge: 32 bytes from a cryptographically secure
    /// random source, expiry computed from the clock now, the difficulty
    /// taken unchanged; fails only when the clock is unusable.
    pub fn issue(ttl_millis: u64, difficulty_bits: u16) -> (r: Result<Challenge, Error>)
        ensures
            r matches Ok(c) ==> c.difficulty_bits == difficulty_bits,
            r matches Ok(c) ==> exists|nm: u64|
                nm + ttl_millis <= u64::MAX && c.expires_at == Self::spec_expires_at(
                    nm,
                    ttl_millis,
                ),
            r matches Err(e) ==> e == Error::ClockError,
    {
        let data = random_payload();
        match now_unix_millis() {
            Some(now_millis) => {
                let r = Self::issue_at(data, now_millis, ttl_millis, difficulty_bits);
                proof {
                    match r {
                        Ok(c) => {
                            assert(now_millis + ttl_millis <= u64::MAX);
                            assert(c.expires_at == Self::spec_expires_at(now_millis, ttl_millis));
                            assert(exists|nm: u64|
                                nm + ttl_millis <= u64::MAX && c.expires_at
                                    == Self::spec_expires_at(nm, ttl_millis));
                        },
                        Err(_) => {},
                    }
                }
                r
            },
            None => Err(Error::ClockError),
        }
    }

    /// Validates `nonce` against this challenge as of the instant `now`
    /// (UNIX seconds): rejects an expired challenge before looking at the
    /// proof of work, then demands `difficulty_bits` leading zero bits of
    /// the digest of `payload || nonce`.
    pub fn validate_at<H: Hasher>(&self, nonce: u64, now: u64) -> (r: Result<(), Error>)
        ensures
            r == self.spec_validate::<H>(nonce, now),
    {
        if now > self.expires_at {
            return Err(Error::ExpiredError);
        }
        let nonce_bytes = vstd::bytes::u64_to_le_bytes(nonce);
        let mut parts: Vec<&[u8]> = Vec::new();
        parts.push(self.data.as_slice());
        parts.push(nonce_bytes.as_slice());
        let hash = H::digest(parts.as_slice());
        proof {
            assert(views_of(parts@) =~= seq![self.data@, nonce_bytes@]);
            lemma_concat_of_two(self.data@, nonce_bytes@);
        }
        let lz = lz_bits(hash.as_slice());
        if lz >= self.difficulty_bits {
            Ok(())
        } else {
            Err(Error::DifficultyError)
        }
    }

    /// Validates `nonce` against this challenge as of the clock now: the
    /// result is the verdict of `spec_validate` at some single instant,
    /// unless the clock was unreadable, which is a `ClockError`; the
    /// difficulty verdict holds whatever instant the clock returned.
    pub fn validate<H: Hasher>(&self, nonce: u64) -> (r: Result<(), Error>)
        ensures
            r == Ok::<(), Error>(()) ==> difficulty_ok(
                H::spec_digest(self.data@ + vstd::bytes::spec_u64_to_le_bytes(nonce)),
                self.difficulty_bits,
            ),
            r == Err::<(), Error>(Error::DifficultyError) ==> !difficulty_ok(
                H::spec_digest(self.data@ + vstd::bytes::spec_u64_to_le_bytes(nonce)),
                self.difficulty_bits,
            ),
            r matches Err(e) ==> (e == Error::ClockError || e == Error::ExpiredError
                || e == Error::DifficultyError),
            (exists|now: u64| r == self.spec_validate::<H>(nonce, now)) || r == Err::<(), Error>(
                Error::ClockError,
            ),
    {
        match now_unix_millis() {
            Some(now_millis) => {
                let now_secs = now_millis / 1000;
                let r = self.validate_at::<H>(nonce, now_secs);
                proof {
                    assert(r == self.spec_validate::<H>(nonce, now_secs));
                    assert(exists|now: u64| r == self.spec_validate::<H>(nonce, now));
                }
                r
            },
            None => Err(Error::ClockError),
        }
    }
}

/// Any nonce validates an unexpired challenge of difficulty zero.
pub proof fn lemma_difficulty_zero_validates<H: Hasher>(c: Challenge, nonce: u64, now: u64)
    requires
        c.difficulty_bits == 0,
        now <= c.expires_at,
    ensures
        c.spec_validate::<H>(nonce, now) == Ok::<(), Error>(()),
{
}

} // verus!
