//! The digest provider: a 32-byte hash over concatenated byte segments.

use vstd::prelude::*;

use sha2::Digest;

verus! {

/// The views of a list of byte segments, in order.
pub open spec fn views_of(parts: Seq<&[u8]>) -> Seq<Seq<u8>> {
    parts.map_values(|p: &[u8]| p@)
}

/// The concatenation of byte segments, in the given order.
pub open spec fn concat_of(parts: Seq<Seq<u8>>) -> Seq<u8>
    decreases parts.len(),
{
    if parts.len() == 0 {
        Seq::empty()
    } else {
        concat_of(parts.drop_last()) + parts.last()
    }
}

/// Concatenating a single segment yields that segment.
pub proof fn lemma_concat_of_one(a: Seq<u8>)
    ensures
        concat_of(seq![a]) == a,
{
    assert(seq![a].drop_last() =~= Seq::<Seq<u8>>::empty());
    assert(concat_of(Seq::<Seq<u8>>::empty()) == Seq::<u8>::empty());
    assert(seq![a].last() == a);
    assert(concat_of(seq![a]) =~= Seq::<u8>::empty() + a);
    assert(concat_of(seq![a]) =~= a);
}

/// Concatenating two segments yields exactly the first followed by the second.
pub proof fn lemma_concat_of_two(a: Seq<u8>, b: Seq<u8>)
    ensures
        concat_of(seq![a, b]) == a + b,
{
    let s = seq![a, b];
    assert(s.drop_last() =~= seq![a]);
    lemma_concat_of_one(a);
    assert(s.last() == b);
    assert(concat_of(s) =~= a + b);
}

/// Concatenating three segments yields them in order.
pub proof fn lemma_concat_of_three(a: Seq<u8>, b: Seq<u8>, c: Seq<u8>)
    ensures
        concat_of(seq![a, b, c]) == a + b + c,
{
    let s = seq![a, b, c];
    assert(s.drop_last() =~= seq![a, b]);
    lemma_concat_of_two(a, b);
    assert(s.last() == c);
    assert(concat_of(s) =~= a + b + c);
}

/// Joins byte segments into one buffer, in order.
pub fn concat_parts(parts: &[&[u8]]) -> (r: Vec<u8>)
    ensures
        r@ == concat_of(views_of(parts@)),
{
    let mut out: Vec<u8> = Vec::new();
    let n = parts.len();
    assert(views_of(parts@).take(0) =~= Seq::<Seq<u8>>::empty());
    for i in 0..n
        invariant
            n == parts@.len(),
            out@ == concat_of(views_of(parts@).take(i as int)),
    {
        out.extend_from_slice(parts[i]);
        proof {
            let v = views_of(parts@);
            assert(v.take(i + 1).drop_last() =~= v.take(i as int));
            assert(v.take(i + 1).last() == parts@[i as int]@);
        }
    }
    proof {
        assert(views_of(parts@).take(n as int) =~= views_of(parts@));
    }
    out
}

/// The capability "produce a fixed-length digest from concatenated inputs".
/// One variant (SHA-256) is required; the abstraction keeps the algorithm
/// swappable without touching challenge or cookie logic.
pub trait Hasher {
    /// The mathematical digest this hasher computes over a byte sequence.
    spec fn spec_digest(data: Seq<u8>) -> Seq<u8>;

    /// Hashes the concatenation of the given segments to a 32-byte digest.
    fn digest(data: &[&[u8]]) -> (r: Vec<u8>)
        ensures
            r@ == Self::spec_digest(concat_of(views_of(data@))),
            r@.len() == 32,
    ;
}

/// What SHA-256 returns; a function of the input bytes alone.
pub uninterp spec fn sha256_of(data: Seq<u8>) -> Seq<u8>;

/// Relies on sha2::Sha256 (Digest::new, update, finalize): the digest is a
/// function of the input bytes alone and is exactly 32 bytes long.
#[verifier::external_body]
fn sha256_digest(data: &[u8]) -> (r: Vec<u8>)
    ensures
        r@ == sha256_of(data@),
        r@.len() == 32,
{
    let mut h = sha2::Sha256::new();
    h.update(data);
    h.finalize().as_slice().to_vec()
}

/// The required digest provider: SHA-256.
pub struct BastetSha256;

impl Hasher for BastetSha256 {
    open spec fn spec_digest(data: Seq<u8>) -> Seq<u8> {
        sha256_of(data)
    }

    fn digest(data: &[&[u8]]) -> (r: Vec<u8>) {
        let msg = concat_parts(data);
        sha256_digest(msg.as_slice())
    }
}

} // verus!
