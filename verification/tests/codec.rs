use powlib::challenge::{lz_bits, Challenge};
use powlib::codec::{Cookie, RAW_LEN};
use powlib::errors::Error;
use powlib::hasher::{BastetSha256, Hasher};
use powlib::hmac256::{hmac256_finalize, hmac256_verify};

fn sample_cookie() -> Cookie {
    Cookie {
        challenge: Challenge::from([5u8; 32], 258, 513),
        nonce: 3,
        tag: [9u8; 32],
    }
}

#[test]
fn to_bytes_has_fixed_layout() {
    let raw = sample_cookie().to_bytes();
    assert_eq!(raw.len(), RAW_LEN);
    let mut expected = vec![5u8; 32];
    expected.extend_from_slice(&[2, 1, 0, 0, 0, 0, 0, 0]);
    expected.extend_from_slice(&[1, 2]);
    expected.extend_from_slice(&[3, 0, 0, 0, 0, 0, 0, 0]);
    expected.extend_from_slice(&[9u8; 32]);
    assert_eq!(raw, expected);
}

#[test]
fn from_bytes_round_trips() {
    let cookie = sample_cookie();
    let raw = cookie.to_bytes();
    let back = Cookie::from_bytes(&raw).unwrap();
    assert_eq!(back.challenge.data, cookie.challenge.data);
    assert_eq!(back.challenge.expires_at, cookie.challenge.expires_at);
    assert_eq!(back.challenge.difficulty_bits, cookie.challenge.difficulty_bits);
    assert_eq!(back.nonce, cookie.nonce);
    assert_eq!(back.tag, cookie.tag);
}

#[test]
fn from_bytes_rejects_every_other_length() {
    assert!(matches!(Cookie::from_bytes(&[]), Err(Error::DecodeError)));
    assert!(matches!(Cookie::from_bytes(&[0u8; 81]), Err(Error::DecodeError)));
    assert!(matches!(Cookie::from_bytes(&[0u8; 83]), Err(Error::DecodeError)));
    assert!(matches!(Cookie::from_bytes(&[0u8; 1]), Err(Error::DecodeError)));
}

#[test]
fn encode_uses_urlsafe_base64_without_padding() {
    let mut raw = Vec::new();
    for i in 0..82u8 {
        raw.push(i);
    }
    let cookie = Cookie::from_bytes(&raw).unwrap();
    let text = cookie.encode();
    assert_eq!(
        text,
        b"AAECAwQFBgcICQoLDA0ODxAREhMUFRYXGBkaGxwdHh8gISIjJCUmJygpKissLS4vMDEyMzQ1Njc4OTo7PD0-P0BBQkNERUZHSElKS0xNTk9QUQ".to_vec()
    );
}

#[test]
fn decode_inverts_encode() {
    let cookie = sample_cookie();
    let text = cookie.encode();
    let back = Cookie::decode(&text).unwrap();
    assert_eq!(back.challenge.data, cookie.challenge.data);
    assert_eq!(back.challenge.expires_at, cookie.challenge.expires_at);
    assert_eq!(back.challenge.difficulty_bits, cookie.challenge.difficulty_bits);
    assert_eq!(back.nonce, cookie.nonce);
    assert_eq!(back.tag, cookie.tag);
}

#[test]
fn decode_rejects_malformed_text() {
    // invalid characters
    assert!(matches!(Cookie::decode(b"!!!"), Err(Error::DecodeError)));
    // padding characters are refused by the no-pad engine
    assert!(matches!(Cookie::decode(b"AB=="), Err(Error::DecodeError)));
    // an impossible base64 length
    assert!(matches!(Cookie::decode(b"A"), Err(Error::DecodeError)));
    // valid base64, but the decoded length is 3 bytes, not 82
    assert!(matches!(Cookie::decode(b"AAAA"), Err(Error::DecodeError)));
    // the standard alphabet's '+' and '/' are not in the URL-safe alphabet
    assert!(matches!(Cookie::decode(b"++++"), Err(Error::DecodeError)));
}

#[test]
fn lz_bits_follows_the_scan_rule() {
    assert_eq!(lz_bits(&[]), 0);
    assert_eq!(lz_bits(&[0x80]), 0);
    assert_eq!(lz_bits(&[0x01]), 7);
    assert_eq!(lz_bits(&[0x00, 0x00, 0xff]), 16);
    assert_eq!(lz_bits(&[0x00, 0x10]), 11);
    assert_eq!(lz_bits(&[0u8; 32]), 256);
    // bytes after the first nonzero byte are never inspected
    assert_eq!(lz_bits(&[0x00, 0x20, 0x00, 0xff]), 10);
}

#[test]
fn sha256_digest_matches_known_vector() {
    let abc: [&[u8]; 1] = [b"abc"];
    let d = BastetSha256::digest(&abc);
    assert_eq!(
        d,
        vec![
            186, 120, 22, 191, 143, 1, 207, 234, 65, 65, 64, 222, 93, 174, 34, 35, 176, 3, 97,
            163, 150, 23, 122, 156, 180, 16, 255, 97, 242, 0, 21, 173,
        ]
    );
}

#[test]
fn sha256_digest_concatenates_segments() {
    let whole_parts: [&[u8]; 1] = [b"abc"];
    let split_parts: [&[u8]; 2] = [b"a", b"bc"];
    let split3_parts: [&[u8]; 3] = [b"a", b"b", b"c"];
    let whole = BastetSha256::digest(&whole_parts);
    let split = BastetSha256::digest(&split_parts);
    let split3 = BastetSha256::digest(&split3_parts);
    assert_eq!(whole, split);
    assert_eq!(whole, split3);
}

#[test]
fn hmac256_finalize_matches_known_vector() {
    let parts: [&[u8]; 1] = [b"what do ya want for nothing?"];
    let tag = hmac256_finalize(b"Jefe", &parts);
    assert_eq!(
        tag,
        [
            91, 220, 193, 70, 191, 96, 117, 78, 106, 4, 36, 38, 8, 149, 117, 199, 90, 0, 63, 8,
            157, 39, 57, 131, 157, 236, 88, 185, 100, 236, 56, 67,
        ]
    );
    let split_parts: [&[u8]; 2] = [b"what do ya want", b" for nothing?"];
    let split = hmac256_finalize(b"Jefe", &split_parts);
    assert_eq!(tag, split);
}

#[test]
fn hmac256_verify_accepts_the_tag_and_nothing_else() {
    let parts: [&[u8]; 2] = [b"hello ", b"world"];
    let tag = hmac256_finalize(b"key", &parts);
    assert!(hmac256_verify(b"key", &parts, &tag));
    let mut bad = tag;
    bad[0] ^= 1;
    assert!(!hmac256_verify(b"key", &parts, &bad));
    assert!(!hmac256_verify(b"other key", &parts, &tag));
    assert!(!hmac256_verify(b"key", &parts, &tag[..31]));
}
