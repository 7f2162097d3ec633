//! The laws of the protocol, proved once and for all over the value-level
//! model of the proof engine.

use vstd::arithmetic::div_mod::lemma_add_mod_noop;
use vstd::arithmetic::div_mod::lemma_fundamental_div_mod;
use vstd::arithmetic::div_mod::lemma_mod_bound;
use vstd::arithmetic::div_mod::lemma_mod_equivalence;
use vstd::arithmetic::div_mod::lemma_mod_multiples_vanish;
use vstd::arithmetic::div_mod::lemma_mod_twice;
use vstd::arithmetic::div_mod::lemma_mul_mod_noop_general;
use vstd::arithmetic::div_mod::lemma_small_mod;
use vstd::arithmetic::power::lemma1_pow;
use vstd::arithmetic::power::lemma_pow_adds;
use vstd::arithmetic::power::lemma_pow_mod_noop;
use vstd::arithmetic::power::lemma_pow_multiplies;
use vstd::arithmetic::power::pow;
use vstd::prelude::*;

use crate::bignum::mod_exp;
use crate::zkp::solve_spec;
use crate::zkp::verify_spec;
use crate::zkp::GroupParams;

verus! {

/// Law (unsigned-subtraction correctness): the response agrees with the
/// signed difference modulo `q`, `(k - c*x) mod q == solve(k, c, x) mod q`,
/// also where the literal difference `k - c*x` is negative.
pub proof fn lemma_solve_congruence(k: nat, c: nat, x: nat, q: nat)
    requires
        q > 0,
    ensures
        (k - c * x) % (q as int) == (solve_spec(k, c, x, q) as int) % (q as int),
{
    let qi: int = q as int;
    let cx: int = (c * x) as int;
    let ki: int = k as int;
    if k >= c * x {
        lemma_mod_twice(ki - cx, qi);
    } else {
        let d: int = cx - ki;
        let z: int = d / qi;
        let m: int = d % qi;
        lemma_fundamental_div_mod(d, qi);
        lemma_mod_bound(d, qi);
        assert(qi * (-z - 1) == -(qi * z) - qi) by (nonlinear_arith);
        assert(qi * (-z - 1) + (qi - m) == -d);
        lemma_mod_multiples_vanish(-z - 1, qi - m, qi);
        assert((ki - cx) % qi == (qi - m) % qi);
    }
}

/// Helper: where `g ^ q == 1 (mod p)`, an exponent of `g` matters only
/// modulo `q`.
proof fn lemma_pow_mod_cycle(g: nat, p: nat, q: nat, a: nat)
    requires
        p > 1,
        q > 0,
        pow(g as int, q) % (p as int) == 1,
    ensures
        mod_exp(g, a, p) == mod_exp(g, ((a as int % (q as int)) as nat), p),
{
    let gi: int = g as int;
    let pi: int = p as int;
    let qi: int = q as int;
    let z: int = a as int / qi;
    let r: int = a as int % qi;
    lemma_fundamental_div_mod(a as int, qi);
    lemma_mod_bound(a as int, qi);
    assert(z >= 0) by (nonlinear_arith)
        requires
            a as int == qi * z + r,
            qi > 0,
            a >= 0,
            r < qi,
    ;
    let qz: nat = (qi * z) as nat;
    lemma_pow_adds(gi, qz, r as nat);
    assert(pow(gi, a) == pow(gi, qz) * pow(gi, r as nat));
    lemma_pow_multiplies(gi, q, z as nat);
    assert(q * (z as nat) == qz);
    assert(pow(pow(gi, q), z as nat) == pow(gi, qz));
    lemma_pow_mod_noop(pow(gi, q), z as nat, pi);
    lemma1_pow(z as nat);
    lemma_small_mod(1, p);
    assert(pow(gi, qz) % pi == 1);
    lemma_mul_mod_noop_general(pow(gi, qz), pow(gi, r as nat), pi);
    assert(pow(gi, a) % pi == (1 * (pow(gi, r as nat) % pi)) % pi);
    lemma_mod_twice(pow(gi, r as nat), pi);
}

/// Helper: for any response value `s`, the verifier's right-hand side
/// `g^s * (g^x mod p)^c mod p` collapses to a single power of `g`, at the
/// exponent `s + x*c` reduced modulo `q`.
proof fn lemma_collapse(g: nat, p: nat, q: nat, x: nat, c: nat, s: nat)
    requires
        p > 1,
        q > 0,
        pow(g as int, q) % (p as int) == 1,
    ensures
        (mod_exp(g, s, p) * mod_exp(mod_exp(g, x, p), c, p)) as int % (p as int) == mod_exp(
            g,
            (((s + x * c) as int % (q as int)) as nat),
            p,
        ),
{
    let gi: int = g as int;
    let pi: int = p as int;
    let xc: nat = x * c;

    // The inner commitment: (g^x mod p)^c mod p == g^(x*c) mod p.
    lemma_pow_mod_noop(pow(gi, x), c, pi);
    lemma_pow_multiplies(gi, x, c);
    assert(mod_exp(mod_exp(g, x, p), c, p) == pow(gi, xc) % pi);

    // Fold the product of the two reduced powers into one power.
    lemma_mul_mod_noop_general(pow(gi, s), pow(gi, xc), pi);
    lemma_pow_adds(gi, s, xc);
    assert((mod_exp(g, s, p) * (pow(gi, xc) % pi)) as int % pi == pow(gi, s + xc) % pi);

    // Reduce the exponent modulo q.
    lemma_pow_mod_cycle(g, p, q, s + xc);
}

/// Helper: the exponent `solve(k, c, x', q) + x*c` is congruent to
/// `k - (c*x' - c*x)` modulo `q`.
proof fn lemma_exponent_congruence(q: nat, x: nat, xf: nat, k: nat, c: nat)
    requires
        q > 0,
    ensures
        (solve_spec(k, c, xf, q) + x * c) as int % (q as int) == (k - ((c * xf) - (c * x))) % (
        q as int),
{
    let qi: int = q as int;
    let s: nat = solve_spec(k, c, xf, q);
    let cxf: int = (c * xf) as int;
    let cx: int = (c * x) as int;
    assert(x * c == c * x) by (nonlinear_arith);
    lemma_solve_congruence(k, c, xf, q);
    assert((s as int) % qi == (k - cxf) % qi);
    lemma_add_mod_noop(s as int, cx, qi);
    lemma_add_mod_noop(k - cxf, cx, qi);
    assert((s as int + cx) % qi == (k - cxf + cx) % qi);
}

/// Helper: one Chaum-Pedersen verification equation, for one generator `g`:
/// with `y = g^x mod p`, `r = g^k mod p` and `s = solve(k, c, x, q)`,
/// `g^s * y^c == r (mod p)`.
proof fn lemma_equation(g: nat, p: nat, q: nat, x: nat, k: nat, c: nat)
    requires
        p > 1,
        q > 0,
        pow(g as int, q) % (p as int) == 1,
        k < q,
    ensures
        (mod_exp(g, solve_spec(k, c, x, q), p) * mod_exp(mod_exp(g, x, p), c, p)) as int % (
        p as int) == mod_exp(g, k, p),
{
    let qi: int = q as int;
    let s: nat = solve_spec(k, c, x, q);
    lemma_collapse(g, p, q, x, c, s);
    lemma_exponent_congruence(q, x, x, k, c);
    lemma_small_mod(k, q);
    assert((s + x * c) as int % qi == k as int);
}

/// Law (completeness): for every secret `x`, every ephemeral `k` below `q`
/// and every challenge `c`, the honestly computed commitments
/// `y1 = alpha^x, y2 = beta^x, r1 = alpha^k, r2 = beta^k` (all mod `p`) and
/// response `s = solve(k, c, x)` make the verification predicate true.
pub proof fn lemma_completeness(g: GroupParams, x: nat, k: nat, c: nat)
    requires
        g.p > 1,
        g.q > 0,
        pow(g.alpha as int, g.q) % (g.p as int) == 1,
        pow(g.beta as int, g.q) % (g.p as int) == 1,
        k < g.q,
    ensures
        verify_spec(
            mod_exp(g.alpha, k, g.p),
            mod_exp(g.beta, k, g.p),
            mod_exp(g.alpha, x, g.p),
            mod_exp(g.beta, x, g.p),
            c,
            solve_spec(k, c, x, g.q),
            g,
        ),
{
    lemma_equation(g.alpha, g.p, g.q, x, k, c);
    lemma_equation(g.beta, g.p, g.q, x, k, c);
}

/// Law (soundness): a response computed from a wrong secret is rejected.
/// Where the generator `alpha` has order exactly `q` (its powers at distinct
/// exponents below `q` are distinct group elements, part of the group's
/// validity), a response computed from a secret `x_fake` is rejected for
/// every challenge `c` with `c * (x_fake - x)` not divisible by `q`. A
/// uniformly random challenge lands in the excluded set with probability
/// `1/q` at most, so rejection holds with overwhelming probability.
pub proof fn lemma_soundness(g: GroupParams, x: nat, x_fake: nat, k: nat, c: nat)
    requires
        g.p > 1,
        g.q > 0,
        pow(g.alpha as int, g.q) % (g.p as int) == 1,
        k < g.q,
        forall|i: nat, j: nat|
            i < j < g.q ==> mod_exp(g.alpha, i, g.p) != mod_exp(g.alpha, j, g.p),
        ((c * x_fake) - (c * x)) % (g.q as int) != 0,
    ensures
        !verify_spec(
            mod_exp(g.alpha, k, g.p),
            mod_exp(g.beta, k, g.p),
            mod_exp(g.alpha, x, g.p),
            mod_exp(g.beta, x, g.p),
            c,
            solve_spec(k, c, x_fake, g.q),
            g,
        ),
{
    let qi: int = g.q as int;
    let s: nat = solve_spec(k, c, x_fake, g.q);
    let d: int = (c * x_fake) - (c * x);

    // The first verification equation compares g^k against g^e for the
    // reduced exponent e == (k - d) % q.
    lemma_collapse(g.alpha, g.p, g.q, x, c, s);
    lemma_exponent_congruence(g.q, x, x_fake, k, c);
    let e: nat = ((s + x * c) as int % qi) as nat;
    assert(e == (k - d) % qi);

    // e differs from k: otherwise d would be divisible by q.
    lemma_mod_bound((s + x * c) as int, qi);
    lemma_small_mod(k, g.q);
    lemma_mod_equivalence(k - d, k as int, qi);
    lemma_mod_equivalence(0, d, qi);
    lemma_small_mod(0, g.q);
    assert(e != k);

    // Distinct exponents below q give distinct powers, so the equation fails.
    if e < k {
        assert(mod_exp(g.alpha, e, g.p) != mod_exp(g.alpha, k, g.p));
    } else {
        assert(mod_exp(g.alpha, k, g.p) != mod_exp(g.alpha, e, g.p));
    }
}

/// Law (determinism): `exponentiate` is pure. Its contract pins the result to
/// a function of the argument values alone, so two calls on equal values
/// return equal results.
pub proof fn lemma_exponentiate_deterministic(
    n1: nat,
    e1: nat,
    m1: nat,
    n2: nat,
    e2: nat,
    m2: nat,
)
    requires
        n1 == n2,
        e1 == e2,
        m1 == m2,
    ensures
        mod_exp(n1, e1, m1) == mod_exp(n2, e2, m2),
{
}

/// Law (determinism): `verify` is pure. Its contract pins the result to a
/// function of the argument values alone, so two calls on equal values return
/// equal results.
pub proof fn lemma_verify_deterministic(
    r1: nat,
    r2: nat,
    y1: nat,
    y2: nat,
    c: nat,
    s: nat,
    g: GroupParams,
    r1b: nat,
    r2b: nat,
    y1b: nat,
    y2b: nat,
    cb: nat,
    sb: nat,
    gb: GroupParams,
)
    requires
        r1 == r1b,
        r2 == r2b,
        y1 == y1b,
        y2 == y2b,
        c == cb,
        s == sb,
        g == gb,
    ensures
        verify_spec(r1, r2, y1, y2, c, s, g) == verify_spec(r1b, r2b, y1b, y2b, cb, sb, gb),
{
}

} // verus!
