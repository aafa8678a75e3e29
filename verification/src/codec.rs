//! The cookie codec: the fixed 82-byte binary layout that carries a
//! challenge, a candidate nonce and the authentication tag, and its
//! URL-safe Base64 text encoding without padding.

use vstd::prelude::*;

use base64::Engine;

use crate::challenge::Challenge;
use crate::errors::Error;

verus! {

broadcast use vstd::array::group_array_axioms;

pub const DATA_LEN: usize = 32;

pub const EXP_LEN: usize = 8;

pub const DIF_LEN: usize = 2;

pub const NON_LEN: usize = 8;

pub const SIG_LEN: usize = 32;

/// `payload || expires_at (LE8) || difficulty_bits (LE2) || nonce (LE8) || tag`.
pub const RAW_LEN: usize = DATA_LEN + EXP_LEN + DIF_LEN + NON_LEN + SIG_LEN;

/// The bytes covered by the authentication tag: the challenge fields in
/// wire order, without any nonce.
pub open spec fn spec_signed_bytes(c: Challenge) -> Seq<u8> {
    c.data@ + vstd::bytes::spec_u64_to_le_bytes(c.expires_at)
        + vstd::bytes::spec_u16_to_le_bytes(c.difficulty_bits)
}

/// The authenticated, transportable encoding of a challenge plus a
/// candidate solution. The nonce is not covered by the tag: the tag
/// authenticates the challenge, not the solution.
#[derive(Clone, Copy)]
pub struct Cookie {
    pub challenge: Challenge,
    pub nonce: u64,
    pub tag: [u8; 32],
}

/// What URL-safe Base64 encoding without padding returns for a byte
/// sequence; a function of the bytes alone.
pub uninterp spec fn b64_of(bytes: Seq<u8>) -> Seq<u8>;

/// Relies on base64's URL_SAFE_NO_PAD engine (Engine::encode): the text is
/// a function of the input bytes alone.
#[verifier::external_body]
fn b64_encode(bytes: &[u8]) -> (r: Vec<u8>)
    ensures
        r@ == b64_of(bytes@),
{
    base64::engine::general_purpose::URL_SAFE_NO_PAD.encode(bytes).into_bytes()
}

/// Relies on base64's URL_SAFE_NO_PAD engine (Engine::decode): the engine
/// rejects padding characters and nonzero trailing bits, so it accepts
/// exactly the canonical encodings and inverts Engine::encode. A successful
/// decode therefore returns the unique preimage of the text, and a failure
/// means the text is the encoding of no byte sequence at all.
#[verifier::external_body]
fn b64_decode(text: &[u8]) -> (r: Result<Vec<u8>, ()>)
    ensures
        match r {
            Ok(v) => text@ == b64_of(v@) && (forall|w: Seq<u8>| b64_of(w) == text@ ==> w == v@),
            Err(_) => forall|w: Seq<u8>| b64_of(w) != text@,
        },
{
    match base64::engine::general_purpose::URL_SAFE_NO_PAD.decode(text) {
        Ok(v) => Ok(v),
        Err(_) => Err(()),
    }
}

/// Copies the 32 bytes of `raw` starting at `start` into an owned array.
fn read_bytes32(raw: &[u8], start: usize) -> (r: [u8; 32])
    requires
        start + 32 <= raw@.len(),
    ensures
        r@ == raw@.subrange(start as int, start + 32),
{
    let n = raw.len();
    let mut out = [0u8; 32];
    let mut i: usize = 0;
    while i < 32
        invariant
            i <= 32,
            n == raw@.len(),
            start + 32 <= n,
            forall|j: int| 0 <= j < i ==> out@[j] == raw@[start + j],
        decreases 32 - i,
    {
        out[i] = raw[start + i];
        i = i + 1;
    }
    proof {
        assert(out@ =~= raw@.subrange(start as int, start + 32));
    }
    out
}

impl Cookie {
    /// The fixed 82-byte wire layout of this cookie.
    pub open spec fn spec_bytes(self) -> Seq<u8> {
        spec_signed_bytes(self.challenge) + vstd::bytes::spec_u64_to_le_bytes(self.nonce)
            + self.tag@
    }

    /// Serializes the cookie into its 82-byte wire layout, fields in fixed
    /// order, all integers little-endian.
    pub fn to_bytes(&self) -> (r: Vec<u8>)
        ensures
            r@ == self.spec_bytes(),
            r@.len() == RAW_LEN,
    {
        proof {
            vstd::bytes::lemma_auto_spec_u64_to_from_le_bytes();
            vstd::bytes::lemma_auto_spec_u16_to_from_le_bytes();
        }
        let mut out: Vec<u8> = Vec::new();
        out.extend_from_slice(self.challenge.data.as_slice());
        let mut exp_b = vstd::bytes::u64_to_le_bytes(self.challenge.expires_at);
        out.append(&mut exp_b);
        let mut dif_b = vstd::bytes::u16_to_le_bytes(self.challenge.difficulty_bits);
        out.append(&mut dif_b);
        let mut non_b = vstd::bytes::u64_to_le_bytes(self.nonce);
        out.append(&mut non_b);
        out.extend_from_slice(self.tag.as_slice());
        out
    }

    /// Deserializes the 82-byte wire layout; any other length is rejected
    /// outright as a `DecodeError`, without partial parsing.
    pub fn from_bytes(raw: &[u8]) -> (r: Result<Cookie, Error>)
        ensures
            match r {
                Ok(c) => raw@.len() == RAW_LEN && c.spec_bytes() == raw@,
                Err(e) => e == Error::DecodeError && raw@.len() != RAW_LEN,
            },
    {
        if raw.len() != RAW_LEN {
            return Err(Error::DecodeError);
        }
        proof {
            vstd::bytes::lemma_auto_spec_u64_to_from_le_bytes();
            vstd::bytes::lemma_auto_spec_u16_to_from_le_bytes();
        }
        let data = read_bytes32(raw, 0);
        let expires_at = vstd::bytes::u64_from_le_bytes(vstd::slice::slice_subrange(raw, 32, 40));
        let difficulty_bits = vstd::bytes::u16_from_le_bytes(
            vstd::slice::slice_subrange(raw, 40, 42),
        );
        let nonce = vstd::bytes::u64_from_le_bytes(vstd::slice::slice_subrange(raw, 42, 50));
        let tag = read_bytes32(raw, 50);
        let c = Cookie { challenge: Challenge { data, expires_at, difficulty_bits }, nonce, tag };
        proof {
            assert(vstd::bytes::spec_u64_to_le_bytes(c.challenge.expires_at) == raw@.subrange(
                32,
                40,
            ));
            assert(vstd::bytes::spec_u16_to_le_bytes(c.challenge.difficulty_bits) == raw@.subrange(
                40,
                42,
            ));
            assert(vstd::bytes::spec_u64_to_le_bytes(c.nonce) == raw@.subrange(42, 50));
            assert(c.spec_bytes() =~= raw@);
        }
        Ok(c)
    }

    /// Serializes the cookie and encodes it as URL-safe Base64 text with no
    /// padding characters.
    pub fn encode(&self) -> (t: Vec<u8>)
        ensures
            t@ == b64_of(self.spec_bytes()),
    {
        let raw = self.to_bytes();
        b64_encode(raw.as_slice())
    }

    /// Reverses the Base64 step and deserializes: fails on text that is not
    /// canonical URL-safe Base64 without padding, and on any decoded length
    /// other than 82 bytes.
    pub fn decode(text: &[u8]) -> (r: Result<Cookie, Error>)
        ensures
            match r {
                Ok(c) => text@ == b64_of(c.spec_bytes()) && (forall|w: Seq<u8>|
                    b64_of(w) == text@ ==> w == c.spec_bytes()),
                Err(e) => e == Error::DecodeError && (forall|w: Seq<u8>|
                    b64_of(w) == text@ ==> w.len() != RAW_LEN),
            },
    {
        match b64_decode(text) {
            Ok(raw) => Self::from_bytes(raw.as_slice()),
            Err(_) => Err(Error::DecodeError),
        }
    }
}

/// Two cookies with the same wire bytes are the same cookie; together with
/// the serializer's contract this makes deserialization the exact inverse
/// of serialization.
pub proof fn lemma_cookie_bytes_injective(a: Cookie, b: Cookie)
    requires
        a.spec_bytes() == b.spec_bytes(),
    ensures
        a == b,
{
    vstd::bytes::lemma_auto_spec_u64_to_from_le_bytes();
    vstd::bytes::lemma_auto_spec_u16_to_from_le_bytes();
    let sa = a.spec_bytes();
    let sb = b.spec_bytes();
    assert(a.challenge.data@ =~= sa.subrange(0, 32));
    assert(b.challenge.data@ =~= sb.subrange(0, 32));
    assert(a.challenge.data@ == b.challenge.data@);
    assert(a.challenge.data == b.challenge.data);
    assert(vstd::bytes::spec_u64_to_le_bytes(a.challenge.expires_at) =~= sa.subrange(32, 40));
    assert(vstd::bytes::spec_u64_to_le_bytes(b.challenge.expires_at) =~= sb.subrange(32, 40));
    assert(a.challenge.expires_at == b.challenge.expires_at);
    assert(vstd::bytes::spec_u16_to_le_bytes(a.challenge.difficulty_bits) =~= sa.subrange(40, 42));
    assert(vstd::bytes::spec_u16_to_le_bytes(b.challenge.difficulty_bits) =~= sb.subrange(40, 42));
    assert(a.challenge.difficulty_bits == b.challenge.difficulty_bits);
    assert(vstd::bytes::spec_u64_to_le_bytes(a.nonce) =~= sa.subrange(42, 50));
    assert(vstd::bytes::spec_u64_to_le_bytes(b.nonce) =~= sb.subrange(42, 50));
    assert(a.nonce == b.nonce);
    assert(a.tag@ =~= sa.subrange(50, 82));
    assert(b.tag@ =~= sb.subrange(50, 82));
    assert(a.tag@ == b.tag@);
    assert(a.tag == b.tag);
}

} // verus!
