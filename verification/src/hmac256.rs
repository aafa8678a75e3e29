//! The authenticator: a keyed HMAC-SHA-256 tag over concatenated byte
//! segments, with constant-time verification.

use vstd::prelude::*;

use hmac::Mac;

use crate::hasher::{concat_of, concat_parts, views_of};

verus! {

/// What HMAC-SHA-256 returns; a function of the key and message alone.
pub uninterp spec fn hmac_sha256_of(key: Seq<u8>, msg: Seq<u8>) -> Seq<u8>;

/// Relies on hmac::Hmac<sha2::Sha256> (Mac::new_from_slice, update,
/// finalize): the tag is a function of key and message alone, 32 bytes
/// long; new_from_slice accepts keys of any length.
#[verifier::external_body]
fn hmac_sha256_tag(key: &[u8], msg: &[u8]) -> (r: [u8; 32])
    ensures
        r@ == hmac_sha256_of(key@, msg@),
        r@.len() == 32,
{
    let mut mac = <hmac::Hmac<sha2::Sha256> as hmac::KeyInit>::new_from_slice(key)
        .expect("HMAC accepts keys of any length");
    mac.update(msg);
    mac.finalize().into_bytes().into()
}

/// Relies on hmac's Mac::verify_slice, a constant-time comparison that
/// succeeds exactly when the tag equals HMAC-SHA-256 of the message
/// (a tag of any other length never matches the 32-byte output).
#[verifier::external_body]
fn hmac_sha256_check(key: &[u8], msg: &[u8], tag: &[u8]) -> (r: bool)
    ensures
        r == (tag@ == hmac_sha256_of(key@, msg@)),
{
    let mut mac = <hmac::Hmac<sha2::Sha256> as hmac::KeyInit>::new_from_slice(key)
        .expect("HMAC accepts keys of any length");
    mac.update(msg);
    mac.verify_slice(tag).is_ok()
}

/// The HMAC-SHA-256 tag over the concatenation of `parts`, keyed by `secret`.
pub fn hmac256_finalize(secret: &[u8], parts: &[&[u8]]) -> (r: [u8; 32])
    ensures
        r@ == hmac_sha256_of(secret@, concat_of(views_of(parts@))),
{
    let msg = concat_parts(parts);
    hmac_sha256_tag(secret, msg.as_slice())
}

/// Whether `tag` is the HMAC-SHA-256 tag over the concatenation of `parts`
/// under `secret`; the comparison runs in constant time.
pub fn hmac256_verify(secret: &[u8], parts: &[&[u8]], tag: &[u8]) -> (r: bool)
    ensures
        r == (tag@ == hmac_sha256_of(secret@, concat_of(views_of(parts@)))),
{
    let msg = concat_parts(parts);
    hmac_sha256_check(secret, msg.as_slice(), tag)
}

} // verus!
