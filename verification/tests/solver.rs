use base64::Engine;
use duckity::{Challenge, CHALLENGE_SIZE};
use num_bigint::BigUint;

/// Builds a 397-byte challenge buffer with `x` and `p` right-aligned in
/// their fields and the given hardness; other regions hold a fixed pattern.
fn make_challenge(x: &[u8], p: &[u8], t: u32) -> Vec<u8> {
    let mut buf = vec![0u8; CHALLENGE_SIZE];
    for (i, b) in buf.iter_mut().enumerate() {
        *b = (i % 251) as u8;
    }
    buf[32..64].fill(0);
    buf[32 + 32 - x.len()..64].copy_from_slice(x);
    buf[64..320].fill(0);
    buf[64 + 256 - p.len()..320].copy_from_slice(p);
    buf[320..324].copy_from_slice(&t.to_be_bytes());
    buf[340] = 4;
    buf
}

#[test]
fn known_vector_small_prime() {
    // p = 11 (prime, 11 % 4 == 3), x = 9 (a quadratic residue mod 11), t = 1:
    // e = (11 + 1) / 4 = 3 and y = 9^3 mod 11 = 729 mod 11 = 3.
    let buf = make_challenge(&[9], &[11], 1);
    let c = Challenge::decode(&buf).unwrap();
    let sol = c.solve();
    assert_eq!(sol.y, vec![3]);
    assert_eq!(sol.raw_size(), CHALLENGE_SIZE + 1);
}

#[test]
fn zero_rounds_returns_x_unchanged() {
    // t = 0: y = x, with leading zero bytes of the field trimmed.
    let buf = make_challenge(&[9], &[11], 0);
    let c = Challenge::decode(&buf).unwrap();
    let sol = c.solve();
    assert_eq!(sol.y, vec![9]);
    assert_eq!(sol.raw_size(), CHALLENGE_SIZE + 1);
}

#[test]
fn zero_rounds_on_zero_x() {
    let buf = make_challenge(&[0], &[11], 0);
    let c = Challenge::decode(&buf).unwrap();
    let sol = c.solve();
    assert_eq!(sol.y, vec![0]);
    assert_eq!(sol.raw_size(), CHALLENGE_SIZE + 1);
}

#[test]
fn solve_is_deterministic() {
    let buf = make_challenge(&[0x12, 0x34, 0x56], &[0x01, 0x00, 0x03], 5);
    let c1 = Challenge::decode(&buf).unwrap();
    let c2 = Challenge::decode(&buf).unwrap();
    let s1 = c1.solve();
    let s2 = c2.solve();
    assert_eq!(s1.y, s2.y);
    assert_eq!(s1.encode(), s2.encode());
}

#[test]
fn solve_matches_reference_arithmetic() {
    // A 2048-bit-style check scaled down: follow the defining recurrence
    // with an independent big-integer computation and compare.
    let x_bytes = [0xAB, 0xCD, 0xEF, 0x01];
    let p_bytes = [0x05, 0x44, 0x91, 0x63]; // odd modulus, several rounds
    let t = 4u32;
    let buf = make_challenge(&x_bytes, &p_bytes, t);
    let c = Challenge::decode(&buf).unwrap();
    let sol = c.solve();

    let p = BigUint::from_bytes_be(&p_bytes);
    let e = (&p + 1u32) >> 2u32;
    let mut y = BigUint::from_bytes_be(&x_bytes);
    for _ in 0..t {
        y = y.modpow(&e, &p);
    }
    assert_eq!(sol.y, y.to_bytes_be());
    assert_eq!(sol.raw_size(), CHALLENGE_SIZE + y.to_bytes_be().len());
}

#[test]
fn raw_size_is_challenge_plus_y_length() {
    let buf = make_challenge(&[0xFF; 32], &[0xF3; 256], 2);
    let c = Challenge::decode(&buf).unwrap();
    let sol = c.solve();
    assert_eq!(sol.raw_size(), CHALLENGE_SIZE + sol.y.len());
    let text = sol.encode();
    let raw = base64::prelude::BASE64_URL_SAFE_NO_PAD
        .decode(text.as_bytes())
        .unwrap();
    assert_eq!(raw.len(), sol.raw_size());
}
