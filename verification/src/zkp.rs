//! The Chaum-Pedersen proof engine: pure algebraic operations over group
//! elements, each with an exact contract over the values of its operands.

use vstd::arithmetic::power::lemma_pow1;
use vstd::arithmetic::div_mod::lemma_mod_division_less_than_divisor;
use vstd::prelude::*;

use num_bigint::BigUint;
use num_bigint::RandBigInt;
use rand::Rng;

use crate::bignum::biguint_eq;
use crate::bignum::biguint_from_bytes_be;
use crate::bignum::biguint_from_u64;
use crate::bignum::biguint_ge;
use crate::bignum::biguint_mul;
use crate::bignum::biguint_sub;
use crate::bignum::const_of_hex;
use crate::bignum::decode_hex;
use crate::bignum::mod_exp;
use crate::bignum::modpow;
use crate::bignum::nat_of;

verus! {

/// The fixed group description: prime modulus `p`, prime order `q` of the
/// subgroup, and the two generators `alpha` and `beta` of that subgroup.
pub struct ZKP {
    pub p: BigUint,
    pub q: BigUint,
    pub alpha: BigUint,
    pub beta: BigUint,
}

/// The values of the four group parameters.
pub ghost struct GroupParams {
    pub p: nat,
    pub q: nat,
    pub alpha: nat,
    pub beta: nat,
}

impl View for ZKP {
    type V = GroupParams;

    open spec fn view(&self) -> GroupParams {
        GroupParams {
            p: nat_of(self.p),
            q: nat_of(self.q),
            alpha: nat_of(self.alpha),
            beta: nat_of(self.beta),
        }
    }
}

/// The response to a challenge: `(k - c * x) mod q`, computed over unsigned
/// magnitudes, so a negative literal difference becomes `q - ((c*x - k) mod q)`.
pub open spec fn solve_spec(k: nat, c: nat, x: nat, q: nat) -> nat
    recommends
        q > 0,
{
    if k >= c * x {
        ((k - c * x) % (q as int)) as nat
    } else {
        (q - (c * x - k) % (q as int)) as nat
    }
}

/// The verification predicate of the protocol: both
/// `r1 == alpha^s * y1^c (mod p)` and `r2 == beta^s * y2^c (mod p)`.
pub open spec fn verify_spec(
    r1: nat,
    r2: nat,
    y1: nat,
    y2: nat,
    c: nat,
    s: nat,
    g: GroupParams,
) -> bool
    recommends
        g.p > 0,
{
    &&& r1 == (mod_exp(g.alpha, s, g.p) * mod_exp(y1, c, g.p)) as int % (g.p as int)
    &&& r2 == (mod_exp(g.beta, s, g.p) * mod_exp(y2, c, g.p)) as int % (g.p as int)
}

/// An ASCII alphanumeric character: the alphabet that attempt and session
/// identifiers are drawn from.
pub open spec fn is_alnum(c: char) -> bool {
    ('0' <= c && c <= '9') || ('a' <= c && c <= 'z') || ('A' <= c && c <= 'Z')
}

/// The hexadecimal writing of the 1024-bit prime modulus `p` shared by all
/// parties (a fixed, pre-agreed group).
pub open spec fn modulus_hex() -> Seq<char> {
    "B10B8F96A080E01DDE92DE5EAE5D54EC52C99FBCFB06A3C69A6A9DCA52D23B616073E28675A23D189838EF1E2EE652C013ECB4AEA906112324975C3CD49B83BFACCBDD7D90C4BD7098488E9C219A73724EFFD6FAE5644738FAA31A4FF55BCCC0A151AF5F0DC8B4BD45BF37DF365C1A65E68CFDA76D4DA708DF1FB2BC2E4A4371"@
}

/// The hexadecimal writing of `q`, the prime order of the subgroup.
pub open spec fn order_hex() -> Seq<char> {
    "F518AA8781A8DF278ABA4E7D64B7CB9D49462353"@
}

/// The hexadecimal writing of the first generator `alpha`.
pub open spec fn alpha_hex() -> Seq<char> {
    "A4D1CBD5C3FD34126765A442EFB99905F8104DD258AC507FD6406CFF14266D31266FEA1E5C41564B777E690F5504F213160217B4B01B886A5E91547F9E2749F4D7FBD7D3B9A92EE1909D0D2263F80A76A6A24C087A091F531DBF0A0169B6A28AD662A4D18E73AFA32D779D5918D08BC8858F4DCEF97C2A24855E6EEB22B3B2E5"@
}

/// The hexadecimal writing of the fixed, protocol-internal exponent relating
/// the two generators: `beta = alpha ^ w mod p`. A deployment-time constant,
/// never exchanged at runtime.
pub open spec fn beta_exp_hex() -> Seq<char> {
    "266FEA1E5C41564B777E69"@
}

/// The values of the fixed group parameters, read fail-closed from their
/// hexadecimal writings: an unreadable constant stands for zero, and `beta`
/// is zero where no reduction modulo `p` is possible.
pub open spec fn spec_constants() -> GroupParams {
    let alpha = const_of_hex(alpha_hex());
    let p = const_of_hex(modulus_hex());
    let q = const_of_hex(order_hex());
    let w = const_of_hex(beta_exp_hex());
    GroupParams {
        p,
        q,
        alpha,
        beta: if p > 0 {
            mod_exp(alpha, w, p)
        } else {
            0
        },
    }
}

/// One group constant from its hexadecimal writing, fail-closed: an invalid
/// string gives zero.
fn decode_constant(s: &str) -> (r: BigUint)
    ensures
        nat_of(r) == const_of_hex(s@),
{
    match decode_hex(s) {
        Some(bytes) => biguint_from_bytes_be(&bytes),
        None => biguint_from_u64(0),
    }
}

impl ZKP {
    /// Modular exponentiation: `n ^ exponent mod modulus`.
    pub fn exponentiate(n: &BigUint, exponent: &BigUint, modulus: &BigUint) -> (r: BigUint)
        requires
            nat_of(*modulus) > 0,
        ensures
            nat_of(r) == mod_exp(nat_of(*n), nat_of(*exponent), nat_of(*modulus)),
    {
        modpow(n, exponent, modulus)
    }

    /// The prover's response `s = (k - c * x) mod q` over unsigned magnitudes.
    pub fn solve(&self, k: &BigUint, c: &BigUint, x: &BigUint) -> (s: BigUint)
        requires
            nat_of(self.q) > 0,
        ensures
            nat_of(s) == solve_spec(nat_of(*k), nat_of(*c), nat_of(*x), self@.q),
    {
        let cx = biguint_mul(c, x);
        let one = biguint_from_u64(1);
        if biguint_ge(k, &cx) {
            let d = biguint_sub(k, &cx);
            let r = modpow(&d, &one, &self.q);
            proof {
                lemma_pow1(nat_of(d) as int);
            }
            r
        } else {
            let d = biguint_sub(&cx, k);
            let m = modpow(&d, &one, &self.q);
            proof {
                lemma_pow1(nat_of(d) as int);
                lemma_mod_division_less_than_divisor(nat_of(d) as int, nat_of(self.q) as int);
            }
            biguint_sub(&self.q, &m)
        }
    }

    /// The verifier's check: true exactly when both verification equations of
    /// the Chaum-Pedersen relation hold.
    pub fn verify(
        &self,
        r1: &BigUint,
        r2: &BigUint,
        y1: &BigUint,
        y2: &BigUint,
        c: &BigUint,
        s: &BigUint,
    ) -> (res: bool)
        requires
            nat_of(self.p) > 0,
        ensures
            res == verify_spec(
                nat_of(*r1),
                nat_of(*r2),
                nat_of(*y1),
                nat_of(*y2),
                nat_of(*c),
                nat_of(*s),
                self@,
            ),
    {
        let one = biguint_from_u64(1);
        let a1 = modpow(&self.alpha, s, &self.p);
        let b1 = modpow(y1, c, &self.p);
        let prod1 = biguint_mul(&a1, &b1);
        let v1 = modpow(&prod1, &one, &self.p);
        let cond1 = biguint_eq(r1, &v1);
        proof {
            lemma_pow1(nat_of(prod1) as int);
        }
        let a2 = modpow(&self.beta, s, &self.p);
        let b2 = modpow(y2, c, &self.p);
        let prod2 = biguint_mul(&a2, &b2);
        let v2 = modpow(&prod2, &one, &self.p);
        let cond2 = biguint_eq(r2, &v2);
        proof {
            lemma_pow1(nat_of(prod2) as int);
        }
        cond1 && cond2
    }

    /// The fixed group parameters `(alpha, beta, p, q)` shared by all
    /// parties.
    pub fn get_constants() -> (r: (BigUint, BigUint, BigUint, BigUint))
        ensures
            nat_of(r.0) == spec_constants().alpha,
            nat_of(r.1) == spec_constants().beta,
            nat_of(r.2) == spec_constants().p,
            nat_of(r.3) == spec_constants().q,
    {
        let alpha = decode_constant(
            "A4D1CBD5C3FD34126765A442EFB99905F8104DD258AC507FD6406CFF14266D31266FEA1E5C41564B777E690F5504F213160217B4B01B886A5E91547F9E2749F4D7FBD7D3B9A92EE1909D0D2263F80A76A6A24C087A091F531DBF0A0169B6A28AD662A4D18E73AFA32D779D5918D08BC8858F4DCEF97C2A24855E6EEB22B3B2E5",
        );
        let p = decode_constant(
            "B10B8F96A080E01DDE92DE5EAE5D54EC52C99FBCFB06A3C69A6A9DCA52D23B616073E28675A23D189838EF1E2EE652C013ECB4AEA906112324975C3CD49B83BFACCBDD7D90C4BD7098488E9C219A73724EFFD6FAE5644738FAA31A4FF55BCCC0A151AF5F0DC8B4BD45BF37DF365C1A65E68CFDA76D4DA708DF1FB2BC2E4A4371",
        );
        let q = decode_constant("F518AA8781A8DF278ABA4E7D64B7CB9D49462353");
        let w = decode_constant("266FEA1E5C41564B777E69");
        let zero = biguint_from_u64(0);
        let beta = if !biguint_eq(&p, &zero) {
            modpow(&alpha, &w, &p)
        } else {
            biguint_from_u64(0)
        };
        (alpha, beta, p, q)
    }

    /// Relies on num_bigint's `RandBigInt::gen_biguint_below` over
    /// `rand::thread_rng`: a uniformly random value below the bound; panics on
    /// a zero bound, which the precondition rules out. Nothing relates two
    /// calls: each may return any value below the bound.
    #[verifier::external_body]
    pub fn generate_random_number_below(bound: &BigUint) -> (r: BigUint)
        requires
            nat_of(*bound) > 0,
        ensures
            nat_of(r) < nat_of(*bound),
    {
        let mut rng = rand::thread_rng();
        rng.gen_biguint_below(bound)
    }

    /// Relies on rand's `Alphanumeric` distribution over `rand::thread_rng`:
    /// exactly `size` random characters, each drawn from the 62-character
    /// ASCII alphanumeric set. Nothing relates two calls: each may return any
    /// such string.
    #[verifier::external_body]
    pub fn generate_random_string(size: usize) -> (r: String)
        ensures
            r@.len() == size as int,
            forall|i: int| 0 <= i < r@.len() ==> is_alnum(#[trigger] r@[i]),
    {
        rand::thread_rng().sample_iter(rand::distributions::Alphanumeric).take(size).map(
            char::from,
        ).collect()
    }
}

} // verus!
