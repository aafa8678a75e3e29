use base64::Engine;
use powlib::boundary::{
    issue_challenge, issue_challenge_at, validate_cookie, validate_cookie_at, validate_raw,
    IssuedChallenge, SecretContext,
};
use powlib::challenge::{lz_bits, Challenge};
use powlib::codec::Cookie;
use powlib::errors::Error;
use powlib::hasher::{BastetSha256, Hasher};

const FAR_FUTURE_MILLIS: u64 = 4_000_000_000_000;

fn context_with(secret: &[u8]) -> SecretContext {
    let mut ctx = SecretContext::new();
    assert!(ctx.set_secret(secret.to_vec()));
    ctx
}

fn issue_far_future(ctx: &SecretContext, difficulty_bits: u16, data: [u8; 32]) -> IssuedChallenge {
    issue_challenge_at(ctx, difficulty_bits, FAR_FUTURE_MILLIS, data, 0).unwrap()
}

#[test]
fn issue_and_validate_difficulty_zero() {
    let mut ctx = SecretContext::new();
    assert!(ctx.set_secret(b"a shared secret".to_vec()));
    let issued = issue_challenge(&ctx, 0, 60_000).unwrap();
    assert_eq!(issued.challenge.difficulty_bits, 0);
    let cookie = Cookie { challenge: issued.challenge, nonce: 0, tag: issued.sig };
    let text = cookie.encode();
    assert_eq!(validate_cookie(&ctx, &text), Ok(()));
}

#[test]
fn expired_cookie_is_rejected() {
    let ctx = context_with(b"a shared secret");
    // issued at 5000 ms with a 1000 ms TTL: expires at second 6
    let issued = issue_challenge_at(&ctx, 0, 1000, [1u8; 32], 5000).unwrap();
    assert_eq!(issued.challenge.expires_at, 6);
    let cookie = Cookie { challenge: issued.challenge, nonce: 0, tag: issued.sig };
    let text = cookie.encode();
    assert_eq!(validate_cookie_at(&ctx, &text, 6), Ok(()));
    assert_eq!(validate_cookie_at(&ctx, &text, 7), Err(Error::ExpiredError));
}

#[test]
fn wrong_secret_fails_integrity() {
    let ctx_a = context_with(b"secret A");
    let ctx_b = context_with(b"secret B");
    let issued = issue_far_future(&ctx_a, 0, [2u8; 32]);
    let cookie = Cookie { challenge: issued.challenge, nonce: 0, tag: issued.sig };
    let text = cookie.encode();
    assert_eq!(validate_cookie_at(&ctx_a, &text, 100), Ok(()));
    assert_eq!(validate_cookie_at(&ctx_b, &text, 100), Err(Error::IntegrityError));
}

#[test]
fn flipping_any_signed_bit_fails_integrity() {
    let ctx = context_with(b"a shared secret");
    let issued = issue_far_future(&ctx, 0, [3u8; 32]);
    let cookie = Cookie { challenge: issued.challenge, nonce: 7, tag: issued.sig };
    let raw = cookie.to_bytes();
    assert_eq!(validate_cookie_at(&ctx, &cookie.encode(), 100), Ok(()));
    let engine = base64::engine::general_purpose::URL_SAFE_NO_PAD;
    // every bit of payload (0..32), expires_at (32..40) and difficulty (40..42)
    for byte in 0..42 {
        for bit in 0..8 {
            let mut tampered = raw.clone();
            tampered[byte] ^= 1 << bit;
            let text = engine.encode(&tampered).into_bytes();
            assert_eq!(
                validate_cookie_at(&ctx, &text, 100),
                Err(Error::IntegrityError),
                "byte {byte} bit {bit}"
            );
        }
    }
}

#[test]
fn flipping_the_nonce_does_not_break_integrity() {
    let ctx = context_with(b"a shared secret");
    let issued = issue_far_future(&ctx, 0, [4u8; 32]);
    let cookie = Cookie { challenge: issued.challenge, nonce: 7, tag: issued.sig };
    let mut raw = cookie.to_bytes();
    // the nonce is not covered by the tag: difficulty 0 accepts any nonce
    raw[42] ^= 0xff;
    let engine = base64::engine::general_purpose::URL_SAFE_NO_PAD;
    let text = engine.encode(&raw).into_bytes();
    assert_eq!(validate_cookie_at(&ctx, &text, 100), Ok(()));
}

#[test]
fn missing_secret_reports_not_ready() {
    let ctx = SecretContext::new();
    assert!(matches!(issue_challenge(&ctx, 0, 1000), Err(Error::NotReady)));
    assert_eq!(validate_cookie_at(&ctx, b"AAAA", 0), Err(Error::NotReady));
}

#[test]
fn empty_cookie_text_is_invalid_input() {
    let ctx = context_with(b"a shared secret");
    assert_eq!(validate_cookie_at(&ctx, b"", 0), Err(Error::InvalidInput));
    assert_eq!(validate_cookie(&ctx, b""), Err(Error::InvalidInput));
}

#[test]
fn set_secret_keeps_the_first_value() {
    let mut ctx = SecretContext::new();
    assert!(!ctx.set_secret(Vec::new()));
    assert!(ctx.set_secret(b"first".to_vec()));
    let issued = issue_far_future(&ctx, 0, [6u8; 32]);
    let cookie = Cookie { challenge: issued.challenge, nonce: 0, tag: issued.sig };
    let text = cookie.encode();
    // a second install reports success but is a no-op on state
    assert!(ctx.set_secret(b"second".to_vec()));
    assert_eq!(validate_cookie_at(&ctx, &text, 100), Ok(()));
    let under_second = context_with(b"second");
    assert_eq!(validate_cookie_at(&under_second, &text, 100), Err(Error::IntegrityError));
}

#[test]
fn unrepresentable_expiry_is_a_clock_error() {
    let ctx = context_with(b"a shared secret");
    let r = issue_challenge_at(&ctx, 0, u64::MAX, [0u8; 32], 2);
    assert!(matches!(r, Err(Error::ClockError)));
}

#[test]
fn expiry_is_truncated_to_whole_seconds() {
    let ctx = context_with(b"a shared secret");
    let issued = issue_challenge_at(&ctx, 0, 1500, [0u8; 32], 1000).unwrap();
    assert_eq!(issued.challenge.expires_at, 2);
    let exact = issue_challenge_at(&ctx, 0, 1000, [0u8; 32], 1000).unwrap();
    assert_eq!(exact.challenge.expires_at, 2);
    let just_under = issue_challenge_at(&ctx, 0, 999, [0u8; 32], 1000).unwrap();
    assert_eq!(just_under.challenge.expires_at, 1);
}

#[test]
fn brute_force_meets_difficulty_eight() {
    let ctx = context_with(b"a shared secret");
    let payload = [7u8; 32];
    let mut nonce: u64 = 0;
    let mut last_failing: Option<u64> = None;
    loop {
        let parts: [&[u8]; 2] = [&payload, &nonce.to_le_bytes()];
        let digest = BastetSha256::digest(&parts);
        if lz_bits(&digest) >= 8 {
            break;
        }
        last_failing = Some(nonce);
        nonce += 1;
        assert!(nonce < 1_000_000, "no solution found in a million tries");
    }
    let issued = issue_far_future(&ctx, 8, payload);
    let good = Cookie { challenge: issued.challenge, nonce, tag: issued.sig };
    assert_eq!(validate_cookie_at(&ctx, &good.encode(), 100), Ok(()));
    let bad_nonce = last_failing.expect("nonce 0 already solved difficulty 8");
    let bad = Cookie { challenge: issued.challenge, nonce: bad_nonce, tag: issued.sig };
    assert_eq!(validate_cookie_at(&ctx, &bad.encode(), 100), Err(Error::DifficultyError));
}

#[test]
fn satisfied_difficulty_is_monotone() {
    let payload = [8u8; 32];
    let mut nonce: u64 = 0;
    loop {
        let parts: [&[u8]; 2] = [&payload, &nonce.to_le_bytes()];
        let digest = BastetSha256::digest(&parts);
        if lz_bits(&digest) >= 8 {
            break;
        }
        nonce += 1;
        assert!(nonce < 1_000_000, "no solution found in a million tries");
    }
    for lower in [0u16, 1, 5, 8] {
        let challenge = Challenge::from(payload, u64::MAX, lower);
        assert_eq!(challenge.validate_at::<BastetSha256>(nonce, 100), Ok(()));
    }
}

#[test]
fn validate_raw_checks_in_canonical_order() {
    let ctx = context_with(b"a shared secret");
    let issued = issue_far_future(&ctx, 16, [9u8; 32]);
    let cookie = Cookie { challenge: issued.challenge, nonce: 0, tag: issued.sig };
    let raw = cookie.to_bytes();
    let secret = b"a shared secret";
    // wrong length wins over everything
    assert_eq!(validate_raw(secret, &raw[..81], 100), Err(Error::DecodeError));
    // a tampered byte reports integrity, not expiry, even when expired
    let mut tampered = raw.clone();
    tampered[0] ^= 1;
    assert_eq!(validate_raw(secret, &tampered, u64::MAX), Err(Error::IntegrityError));
    // an intact but expired cookie reports expiry before difficulty
    assert_eq!(validate_raw(secret, &raw, u64::MAX), Err(Error::ExpiredError));
}

#[test]
fn issue_draws_fresh_payloads() {
    let a = Challenge::issue(60_000, 0).unwrap();
    let b = Challenge::issue(60_000, 0).unwrap();
    assert_ne!(a.data, b.data, "payloads must be unique per issuance");
    assert_eq!(a.difficulty_bits, 0);
    assert_eq!(a.validate_at::<BastetSha256>(12345, 0), Ok(()));
    assert_eq!(a.validate::<BastetSha256>(99), Ok(()));
}
