use kp::zkp::ZKP;
use num_bigint::BigUint;

#[test]
fn test_toy_example() {
    let alpha = BigUint::from(4u32);
    let beta = BigUint::from(9u32);
    let p = BigUint::from(23u32);
    let q = BigUint::from(11u32);
    let zkp = ZKP {
        q,
        p: p.clone(),
        alpha: alpha.clone(),
        beta: beta.clone(),
    };

    let x = BigUint::from(6u32);
    let k = BigUint::from(7u32);

    let c = BigUint::from(4u32);

    let y1 = ZKP::exponentiate(&alpha, &x, &p);
    let y2 = ZKP::exponentiate(&beta, &x, &p);

    assert_eq!(y1, BigUint::from(2u32));
    assert_eq!(y2, BigUint::from(3u32));

    let r1 = ZKP::exponentiate(&alpha, &k, &p);
    let r2 = ZKP::exponentiate(&beta, &k, &p);

    assert_eq!(r1, BigUint::from(8u32));
    assert_eq!(r2, BigUint::from(4u32));

    let s = zkp.solve(&k, &c, &x);
    assert_eq!(s, BigUint::from(5u32));

    let result = zkp.verify(&r1, &r2, &y1, &y2, &c, &s);
    assert!(result);

    // fake secret
    let x_fake = BigUint::from(7u32);
    let s_fake = zkp.solve(&k, &c, &x_fake);

    let result = zkp.verify(&r1, &r2, &y1, &y2, &c, &s_fake);
    assert!(!result);
}

#[test]
fn test_toy_example_with_random_numbers() {
    let alpha = BigUint::from(4u32);
    let beta = BigUint::from(9u32);
    let p = BigUint::from(23u32);
    let q = BigUint::from(11u32);
    let zkp = ZKP {
        q: q.clone(),
        p: p.clone(),
        alpha: alpha.clone(),
        beta: beta.clone(),
    };
    let x = BigUint::from(6u32);
    let k = ZKP::generate_random_number_below(&q);

    let c = ZKP::generate_random_number_below(&q);

    let y1 = ZKP::exponentiate(&alpha, &x, &p);
    let y2 = ZKP::exponentiate(&beta, &x, &p);

    assert_eq!(y1, BigUint::from(2u32));
    assert_eq!(y2, BigUint::from(3u32));

    let r1 = ZKP::exponentiate(&alpha, &k, &p);
    let r2 = ZKP::exponentiate(&beta, &k, &p);

    let s = zkp.solve(&k, &c, &x);

    let result = zkp.verify(&r1, &r2, &y1, &y2, &c, &s);
    assert!(result);
}

fn toy_zkp() -> ZKP {
    ZKP {
        p: BigUint::from(23u32),
        q: BigUint::from(11u32),
        alpha: BigUint::from(4u32),
        beta: BigUint::from(9u32),
    }
}

#[test]
fn test_exponentiate_exact_values() {
    let p = BigUint::from(23u32);
    assert_eq!(
        ZKP::exponentiate(&BigUint::from(4u32), &BigUint::from(6u32), &p),
        BigUint::from(2u32)
    );
    assert_eq!(
        ZKP::exponentiate(&BigUint::from(9u32), &BigUint::from(7u32), &p),
        BigUint::from(4u32)
    );
    // Exponent zero and base zero.
    assert_eq!(
        ZKP::exponentiate(&BigUint::from(5u32), &BigUint::from(0u32), &p),
        BigUint::from(1u32)
    );
    assert_eq!(
        ZKP::exponentiate(&BigUint::from(0u32), &BigUint::from(3u32), &p),
        BigUint::from(0u32)
    );
}

#[test]
fn test_exponentiate_deterministic() {
    let (alpha, _, p, q) = ZKP::get_constants();
    let e = ZKP::generate_random_number_below(&q);
    let first = ZKP::exponentiate(&alpha, &e, &p);
    let second = ZKP::exponentiate(&alpha, &e, &p);
    assert_eq!(first, second);
}

#[test]
fn test_solve_unsigned_subtraction() {
    let zkp = toy_zkp();
    let q = BigUint::from(11u32);

    // A negative literal difference: k - c*x = 3 - 8 = -5, and -5 mod 11 = 6.
    let s = zkp.solve(
        &BigUint::from(3u32),
        &BigUint::from(2u32),
        &BigUint::from(4u32),
    );
    assert_eq!(s, BigUint::from(6u32));

    // The difference is a multiple of q: the result is congruent to 0.
    let s = zkp.solve(
        &BigUint::from(0u32),
        &BigUint::from(1u32),
        &BigUint::from(11u32),
    );
    assert_eq!(&s % &q, BigUint::from(0u32));

    // A nonnegative literal difference: 9 - 2*3 = 3.
    let s = zkp.solve(
        &BigUint::from(9u32),
        &BigUint::from(2u32),
        &BigUint::from(3u32),
    );
    assert_eq!(s, BigUint::from(3u32));
}

#[test]
fn test_verify_deterministic() {
    let zkp = toy_zkp();
    let r1 = BigUint::from(8u32);
    let r2 = BigUint::from(4u32);
    let y1 = BigUint::from(2u32);
    let y2 = BigUint::from(3u32);
    let c = BigUint::from(4u32);
    let s = BigUint::from(5u32);
    let first = zkp.verify(&r1, &r2, &y1, &y2, &c, &s);
    let second = zkp.verify(&r1, &r2, &y1, &y2, &c, &s);
    assert!(first);
    assert_eq!(first, second);
}

#[test]
fn test_random_below_bound() {
    let bound = BigUint::from(11u32);
    for _ in 0..32 {
        assert!(ZKP::generate_random_number_below(&bound) < bound);
    }
    // The only value below one is zero.
    let one = BigUint::from(1u32);
    assert_eq!(ZKP::generate_random_number_below(&one), BigUint::from(0u32));
}

#[test]
fn test_random_string_length_and_freshness() {
    let first = ZKP::generate_random_string(12);
    let second = ZKP::generate_random_string(12);
    assert_eq!(first.len(), 12);
    assert_eq!(second.len(), 12);
    assert!(first.chars().all(|ch| ch.is_ascii_alphanumeric()));
    assert_ne!(first, second);
    assert_eq!(ZKP::generate_random_string(0).len(), 0);
}

#[test]
fn test_constants_match_their_hex_writing() {
    let (alpha, beta, p, q) = ZKP::get_constants();
    let expected_p = BigUint::parse_bytes(
        b"B10B8F96A080E01DDE92DE5EAE5D54EC52C99FBCFB06A3C69A6A9DCA52D23B616073E28675A23D189838EF1E2EE652C013ECB4AEA906112324975C3CD49B83BFACCBDD7D90C4BD7098488E9C219A73724EFFD6FAE5644738FAA31A4FF55BCCC0A151AF5F0DC8B4BD45BF37DF365C1A65E68CFDA76D4DA708DF1FB2BC2E4A4371",
        16,
    )
    .unwrap();
    let expected_q = BigUint::parse_bytes(b"F518AA8781A8DF278ABA4E7D64B7CB9D49462353", 16).unwrap();
    let expected_alpha = BigUint::parse_bytes(
        b"A4D1CBD5C3FD34126765A442EFB99905F8104DD258AC507FD6406CFF14266D31266FEA1E5C41564B777E690F5504F213160217B4B01B886A5E91547F9E2749F4D7FBD7D3B9A92EE1909D0D2263F80A76A6A24C087A091F531DBF0A0169B6A28AD662A4D18E73AFA32D779D5918D08BC8858F4DCEF97C2A24855E6EEB22B3B2E5",
        16,
    )
    .unwrap();
    let expected_w = BigUint::parse_bytes(b"266FEA1E5C41564B777E69", 16).unwrap();
    assert_eq!(p, expected_p);
    assert_eq!(q, expected_q);
    assert_eq!(alpha, expected_alpha);
    assert_eq!(beta, expected_alpha.modpow(&expected_w, &expected_p));
}

#[test]
fn test_full_round_with_real_constants() {
    let (alpha, beta, p, q) = ZKP::get_constants();
    let zkp = ZKP {
        p: p.clone(),
        q: q.clone(),
        alpha: alpha.clone(),
        beta: beta.clone(),
    };
    let x = ZKP::generate_random_number_below(&q);
    let k = ZKP::generate_random_number_below(&q);
    let c = ZKP::generate_random_number_below(&q);

    let y1 = ZKP::exponentiate(&alpha, &x, &p);
    let y2 = ZKP::exponentiate(&beta, &x, &p);
    let r1 = ZKP::exponentiate(&alpha, &k, &p);
    let r2 = ZKP::exponentiate(&beta, &k, &p);
    let s = zkp.solve(&k, &c, &x);
    assert!(zkp.verify(&r1, &r2, &y1, &y2, &c, &s));

    // A response for a different secret must be rejected.
    let x_other = &x + BigUint::from(1u32);
    let s_fake = zkp.solve(&k, &c, &x_other);
    assert!(!zkp.verify(&r1, &r2, &y1, &y2, &c, &s_fake));
}
