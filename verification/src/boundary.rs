//! The boundary operations: installing the shared secret, issuing a
//! challenge record, and validating a cookie, over plain byte buffers.

use vstd::prelude::*;

use crate::challenge::{difficulty_ok, now_unix_millis, Challenge};
use crate::codec::{b64_of, spec_signed_bytes, Cookie, RAW_LEN};
use crate::errors::Error;
use crate::hasher::{lemma_concat_of_one, lemma_concat_of_three, sha256_of, views_of, BastetSha256};
use crate::hmac256::{hmac256_verify, hmac_sha256_of, hmac256_finalize};

verus! {

/// Holds the shared secret: a single byte sequence, installed at most once,
/// read by every signing and verification operation, never handed back.
pub struct SecretContext {
    secret: Option<Vec<u8>>,
}

impl SecretContext {
    /// Whether a secret has been installed.
    pub closed spec fn is_set(&self) -> bool {
        self.secret is Some
    }

    /// The bytes of the installed secret.
    pub closed spec fn secret_view(&self) -> Seq<u8> {
        match self.secret {
            Some(s) => s@,
            None => Seq::empty(),
        }
    }

    /// An installed secret is never empty.
    pub closed spec fn wf(&self) -> bool {
        self.is_set() ==> self.secret_view().len() > 0
    }

    /// A context with no secret installed.
    pub fn new() -> (r: SecretContext)
        ensures
            !r.is_set(),
            r.wf(),
    {
        SecretContext { secret: None }
    }

    /// Whether signing and verification are ready to run.
    pub fn is_initialized(&self) -> (r: bool)
        ensures
            r == self.is_set(),
    {
        self.secret.is_some()
    }

    /// Attempts to install `bytes` as the secret. An empty buffer is
    /// rejected. If a secret is already installed the call is a no-op with
    /// respect to state -- the original secret is retained -- but still
    /// reports success; callers must not rely on the return value to detect
    /// whether their value took effect.
    pub fn set_secret(&mut self, bytes: Vec<u8>) -> (ok: bool)
        requires
            old(self).wf(),
        ensures
            final(self).wf(),
            ok == (bytes@.len() > 0),
            old(self).is_set() ==> final(self).is_set() && final(self).secret_view() == old(self).secret_view(),
            !old(self).is_set() && bytes@.len() > 0 ==> final(self).is_set() && final(self).secret_view() == bytes@,
            !old(self).is_set() && bytes@.len() == 0 ==> !final(self).is_set(),
    {
        if bytes.len() == 0 {
            return false;
        }
        if self.secret.is_none() {
            self.secret = Some(bytes);
        }
        true
    }

    /// Borrows the installed secret for signing and verification.
    fn secret_bytes(&self) -> (r: Option<&Vec<u8>>)
        ensures
            match r {
                Some(s) => self.is_set() && s@ == self.secret_view(),
                None => !self.is_set(),
            },
    {
        self.secret.as_ref()
    }
}

/// An issued challenge together with the HMAC tag over its fields (no
/// nonce exists yet), ready to be forwarded to the solving party.
pub struct IssuedChallenge {
    pub challenge: Challenge,
    pub sig: [u8; 32],
}

/// What validating an 82-byte cookie against a secret returns at the
/// instant `now`, checked in canonical order: layout, then integrity, then
/// expiry, then difficulty.
pub open spec fn validate_raw_spec(secret: Seq<u8>, raw: Seq<u8>, now: u64) -> Result<(), Error> {
    if raw.len() != RAW_LEN {
        Err(Error::DecodeError)
    } else if raw.subrange(50, 82) != hmac_sha256_of(secret, raw.subrange(0, 42)) {
        Err(Error::IntegrityError)
    } else if now > vstd::bytes::spec_u64_from_le_bytes(raw.subrange(32, 40)) {
        Err(Error::ExpiredError)
    } else if !difficulty_ok(
        sha256_of(raw.subrange(0, 32) + raw.subrange(42, 50)),
        vstd::bytes::spec_u16_from_le_bytes(raw.subrange(40, 42)),
    ) {
        Err(Error::DifficultyError)
    } else {
        Ok(())
    }
}

/// Validates a decoded 82-byte cookie against the secret as of the instant
/// `now` (UNIX seconds), exactly as `validate_raw_spec` describes.
pub fn validate_raw(secret: &[u8], raw: &[u8], now: u64) -> (r: Result<(), Error>)
    ensures
        r == validate_raw_spec(secret@, raw@, now),
{
    let c = match Cookie::from_bytes(raw) {
        Ok(c) => c,
        Err(e) => {
            return Err(e);
        },
    };
    proof {
        vstd::bytes::lemma_auto_spec_u64_to_from_le_bytes();
        vstd::bytes::lemma_auto_spec_u16_to_from_le_bytes();
        assert(c.challenge.data@ =~= raw@.subrange(0, 32));
        assert(vstd::bytes::spec_u64_to_le_bytes(c.challenge.expires_at) =~= raw@.subrange(
            32,
            40,
        ));
        assert(vstd::bytes::spec_u16_to_le_bytes(c.challenge.difficulty_bits) =~= raw@.subrange(
            40,
            42,
        ));
        assert(vstd::bytes::spec_u64_to_le_bytes(c.nonce) =~= raw@.subrange(42, 50));
        assert(c.tag@ =~= raw@.subrange(50, 82));
    }
    let msg = vstd::slice::slice_subrange(raw, 0, 42);
    let mut parts: Vec<&[u8]> = Vec::new();
    parts.push(msg);
    let tag = vstd::slice::slice_subrange(raw, 50, 82);
    proof {
        assert(views_of(parts@) =~= seq![msg@]);
        lemma_concat_of_one(msg@);
    }
    if !hmac256_verify(secret, parts.as_slice(), tag) {
        return Err(Error::IntegrityError);
    }
    proof {
        assert(c.challenge.data@ + vstd::bytes::spec_u64_to_le_bytes(c.nonce) == raw@.subrange(
            0,
            32,
        ) + raw@.subrange(42, 50));
    }
    c.challenge.validate_at::<BastetSha256>(c.nonce, now)
}

/// Validates a Base64 cookie text against the held secret as of the instant
/// `now` (UNIX seconds): an empty buffer is invalid input, a missing secret
/// means not ready, and otherwise the verdict is `validate_raw_spec` on the
/// decoded bytes, or `DecodeError` when the text decodes to nothing.
pub fn validate_cookie_at(ctx: &SecretContext, text: &[u8], now: u64) -> (r: Result<(), Error>)
    ensures
        text@.len() == 0 ==> r == Err::<(), Error>(Error::InvalidInput),
        text@.len() > 0 && !ctx.is_set() ==> r == Err::<(), Error>(Error::NotReady),
        text@.len() > 0 && ctx.is_set() ==> {
            &&& (forall|v: Seq<u8>| b64_of(v) != text@) ==> r == Err::<(), Error>(
                Error::DecodeError,
            )
            &&& forall|v: Seq<u8>|
                b64_of(v) == text@ ==> r == validate_raw_spec(ctx.secret_view(), v, now)
        },
{
    if text.len() == 0 {
        return Err(Error::InvalidInput);
    }
    let secret = match ctx.secret_bytes() {
        Some(s) => s,
        None => {
            return Err(Error::NotReady);
        },
    };
    let cookie = match Cookie::decode(text) {
        Ok(c) => c,
        Err(e) => {
            proof {
                assert forall|v: Seq<u8>| b64_of(v) == text@ implies Err::<(), Error>(
                    Error::DecodeError,
                ) == validate_raw_spec(ctx.secret_view(), v, now) by {
                    assert(v.len() != RAW_LEN);
                }
            }
            return Err(e);
        },
    };
    let raw = cookie.to_bytes();
    validate_raw(secret.as_slice(), raw.as_slice(), now)
}

/// Validates a Base64 cookie text against the held secret as of the clock
/// now. Whatever instant the clock returned: success implies the text is a
/// well-formed cookie whose tag verifies and whose proof of work clears its
/// difficulty, and the layout, integrity and difficulty verdicts are as
/// `validate_raw_spec` states them.
pub fn validate_cookie(ctx: &SecretContext, text: &[u8]) -> (r: Result<(), Error>)
    ensures
        text@.len() == 0 ==> r == Err::<(), Error>(Error::InvalidInput),
        text@.len() > 0 && !ctx.is_set() ==> r == Err::<(), Error>(Error::NotReady),
        text@.len() > 0 && ctx.is_set() ==> {
            &&& (forall|v: Seq<u8>| b64_of(v) != text@) ==> r == Err::<(), Error>(
                Error::DecodeError,
            )
            &&& forall|v: Seq<u8>|
                b64_of(v) == text@ ==> (exists|now: u64|
                    r == validate_raw_spec(ctx.secret_view(), v, now)) || r == Err::<(), Error>(
                    Error::ClockError,
                )
        },
{
    if text.len() == 0 {
        return Err(Error::InvalidInput);
    }
    if !ctx.is_initialized() {
        return Err(Error::NotReady);
    }
    match now_unix_millis() {
        Some(now_millis) => {
            let r = validate_cookie_at(ctx, text, now_millis / 1000);
            proof {
                if text@.len() > 0 && ctx.is_set() {
                    assert forall|v: Seq<u8>| b64_of(v) == text@ implies (exists|now: u64|
                        r == validate_raw_spec(ctx.secret_view(), v, now)) || r == Err::<(),
                        Error,
                    >(Error::ClockError) by {
                        let now = (now_millis / 1000) as u64;
                        assert(r == validate_raw_spec(ctx.secret_view(), v, now));
                    }
                }
            }
            r
        },
        None => {
            match Cookie::decode(text) {
                Ok(_) => Err(Error::ClockError),
                Err(e) => {
                    proof {
                        assert forall|v: Seq<u8>| b64_of(v) == text@ implies (exists|now: u64|
                            Err::<(), Error>(Error::DecodeError) == validate_raw_spec(
                                ctx.secret_view(),
                                v,
                                now,
                            )) || Err::<(), Error>(Error::DecodeError) == Err::<(), Error>(
                            Error::ClockError,
                        ) by {
                            assert(v.len() != RAW_LEN);
                            let now: u64 = 0;
                            assert(validate_raw_spec(ctx.secret_view(), v, now) == Err::<(),
                                Error,
                            >(Error::DecodeError));
                        }
                    }
                    Err(e)
                },
            }
        },
    }
}

/// Builds the issued-challenge record for a payload drawn at the instant
/// `now_millis`: the expiry is `now + ttl` truncated to seconds, and the
/// tag is HMAC-SHA-256 over the challenge fields under the held secret.
pub fn issue_challenge_at(
    ctx: &SecretContext,
    difficulty_bits: u16,
    ttl_millis: u64,
    data: [u8; 32],
    now_millis: u64,
) -> (r: Result<IssuedChallenge, Error>)
    ensures
        !ctx.is_set() <==> r == Err::<IssuedChallenge, Error>(Error::NotReady),
        ctx.is_set() && now_millis + ttl_millis > u64::MAX <==> r == Err::<IssuedChallenge, Error>(
            Error::ClockError,
        ),
        r matches Ok(ic) ==> {
            &&& ic.challenge == (Challenge {
                data,
                expires_at: Challenge::spec_expires_at(now_millis, ttl_millis) as u64,
                difficulty_bits,
            })
            &&& ic.sig@ == hmac_sha256_of(ctx.secret_view(), spec_signed_bytes(ic.challenge))
        },
        ctx.is_set() && now_millis + ttl_millis <= u64::MAX ==> r matches Ok(_),
{
    let secret = match ctx.secret_bytes() {
        Some(s) => s,
        None => {
            return Err(Error::NotReady);
        },
    };
    let challenge = match Challenge::issue_at(data, now_millis, ttl_millis, difficulty_bits) {
        Ok(c) => c,
        Err(e) => {
            return Err(e);
        },
    };
    let exp_b = vstd::bytes::u64_to_le_bytes(challenge.expires_at);
    let dif_b = vstd::bytes::u16_to_le_bytes(challenge.difficulty_bits);
    let mut parts: Vec<&[u8]> = Vec::new();
    parts.push(challenge.data.as_slice());
    parts.push(exp_b.as_slice());
    parts.push(dif_b.as_slice());
    let sig = hmac256_finalize(secret.as_slice(), parts.as_slice());
    proof {
        assert(views_of(parts@) =~= seq![challenge.data@, exp_b@, dif_b@]);
        lemma_concat_of_three(challenge.data@, exp_b@, dif_b@);
    }
    Ok(IssuedChallenge { challenge, sig })
}

/// Issues a challenge record for the external caller to forward to the
/// solving party: a fresh random payload, expiry computed from the clock
/// now, the given difficulty unchanged, and the HMAC tag over the challenge
/// fields. Fails exactly with `NotReady` when no secret is held, and
/// otherwise only with `ClockError` when the clock is unusable.
pub fn issue_challenge(ctx: &SecretContext, difficulty_bits: u16, ttl_millis: u64) -> (r: Result<
    IssuedChallenge,
    Error,
>)
    ensures
        !ctx.is_set() <==> r == Err::<IssuedChallenge, Error>(Error::NotReady),
        r matches Err(e) ==> (e == Error::NotReady || e == Error::ClockError),
        r matches Ok(ic) ==> {
            &&& ic.challenge.difficulty_bits == difficulty_bits
            &&& ic.sig@ == hmac_sha256_of(ctx.secret_view(), spec_signed_bytes(ic.challenge))
            &&& exists|nm: u64|
                nm + ttl_millis <= u64::MAX && ic.challenge.expires_at
                    == Challenge::spec_expires_at(nm, ttl_millis)
        },
{
    let data = crate::challenge::random_payload();
    match now_unix_millis() {
        Some(now_millis) => {
            let r = issue_challenge_at(ctx, difficulty_bits, ttl_millis, data, now_millis);
            proof {
                match r {
                    Ok(ref ic) => {
                        assert(now_millis + ttl_millis <= u64::MAX);
                        assert(ic.challenge.expires_at == Challenge::spec_expires_at(
                            now_millis,
                            ttl_millis,
                        ));
                        assert(exists|nm: u64|
                            nm + ttl_millis <= u64::MAX && ic.challenge.expires_at
                                == Challenge::spec_expires_at(nm, ttl_millis));
                    },
                    Err(_) => {},
                }
            }
            r
        },
        None => {
            if !ctx.is_initialized() {
                Err(Error::NotReady)
            } else {
                Err(Error::ClockError)
            }
        },
    }
}

/// Round trip: a well-formed cookie whose tag verifies, whose expiry has
/// not passed, and whose difficulty is zero validates successfully,
/// whatever nonce it carries.
pub proof fn lemma_round_trip(secret: Seq<u8>, raw: Seq<u8>, now: u64)
    requires
        raw.len() == RAW_LEN,
        raw.subrange(50, 82) == hmac_sha256_of(secret, raw.subrange(0, 42)),
        now <= vstd::bytes::spec_u64_from_le_bytes(raw.subrange(32, 40)),
        vstd::bytes::spec_u16_from_le_bytes(raw.subrange(40, 42)) == 0,
    ensures
        validate_raw_spec(secret, raw, now) == Ok::<(), Error>(()),
{
}

/// Expiry enforcement: a cookie whose expiry has passed fails validation
/// even when its tag verifies and its nonce is a genuine solution.
pub proof fn lemma_expiry_enforced(secret: Seq<u8>, raw: Seq<u8>, now: u64)
    requires
        raw.len() == RAW_LEN,
        raw.subrange(50, 82) == hmac_sha256_of(secret, raw.subrange(0, 42)),
        now > vstd::bytes::spec_u64_from_le_bytes(raw.subrange(32, 40)),
    ensures
        validate_raw_spec(secret, raw, now) == Err::<(), Error>(Error::ExpiredError),
{
}

/// Integrity gate: a cookie whose tag is not the HMAC of its challenge
/// fields under the verifying secret -- a tampered field, or a tag made
/// under a different secret -- fails with `IntegrityError` before its
/// expiry or nonce is ever looked at.
pub proof fn lemma_integrity_gate(secret: Seq<u8>, raw: Seq<u8>, now: u64)
    requires
        raw.len() == RAW_LEN,
        raw.subrange(50, 82) != hmac_sha256_of(secret, raw.subrange(0, 42)),
    ensures
        validate_raw_spec(secret, raw, now) == Err::<(), Error>(Error::IntegrityError),
{
}

/// Tamper sensitivity: a cookie built from a genuine one by altering the
/// signed fields (payload, expiry or difficulty) while carrying the tag
/// over fails with `IntegrityError`, whatever its nonce and the clock. The
/// last premise -- that HMAC-SHA-256 gives the altered fields a different
/// tag -- is the collision-freeness of HMAC, which no contract over the
/// uninterpreted tag function can supply.
pub proof fn lemma_tamper_detected(secret: Seq<u8>, raw: Seq<u8>, tampered: Seq<u8>, now: u64)
    requires
        raw.len() == RAW_LEN,
        tampered.len() == RAW_LEN,
        raw.subrange(50, 82) == hmac_sha256_of(secret, raw.subrange(0, 42)),
        tampered.subrange(50, 82) == raw.subrange(50, 82),
        hmac_sha256_of(secret, tampered.subrange(0, 42)) != hmac_sha256_of(
            secret,
            raw.subrange(0, 42),
        ),
    ensures
        validate_raw_spec(secret, tampered, now) == Err::<(), Error>(Error::IntegrityError),
{
}

/// Wrong secret: a cookie whose tag was made under one secret fails with
/// `IntegrityError` when verified under another, whatever its nonce, expiry
/// and difficulty. The last premise -- that the two keys tag the message
/// differently -- excludes HMAC key collisions (a key longer than one
/// block and its SHA-256 produce identical tags), which no contract over
/// the uninterpreted tag function can rule out.
pub proof fn lemma_wrong_secret_detected(
    secret_a: Seq<u8>,
    secret_b: Seq<u8>,
    raw: Seq<u8>,
    now: u64,
)
    requires
        raw.len() == RAW_LEN,
        raw.subrange(50, 82) == hmac_sha256_of(secret_a, raw.subrange(0, 42)),
        hmac_sha256_of(secret_b, raw.subrange(0, 42)) != hmac_sha256_of(
            secret_a,
            raw.subrange(0, 42),
        ),
    ensures
        validate_raw_spec(secret_b, raw, now) == Err::<(), Error>(Error::IntegrityError),
{
}

/// Decode robustness: any decoded length other than 82 bytes is rejected
/// as a `DecodeError`, without partial parsing.
pub proof fn lemma_decode_length_gate(secret: Seq<u8>, raw: Seq<u8>, now: u64)
    requires
        raw.len() != RAW_LEN,
    ensures
        validate_raw_spec(secret, raw, now) == Err::<(), Error>(Error::DecodeError),
{
}

} // verus!
