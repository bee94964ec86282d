//! Modular arithmetic on machine integers: exact residue operations and
//! a modular inverse computed by the extended Euclidean algorithm.
//!
//! Everything is stated against mathematical integer arithmetic (`int`),
//! so the curve and solver modules can reason about residues directly.

use vstd::prelude::*;
use vstd::arithmetic::div_mod::{
    lemma_fundamental_div_mod, lemma_mod_add_multiples_vanish, lemma_mul_mod_noop_general,
    lemma_mul_mod_noop_left, lemma_mul_mod_noop_right, lemma_small_mod, lemma_sub_mod_noop,
};
use vstd::arithmetic::mul::{
    lemma_mul_is_associative, lemma_mul_is_commutative, lemma_mul_is_distributive_sub,
};

verus! {

/// `d` divides `x`.
pub open spec fn divides(d: int, x: int) -> bool {
    exists|k: int| x == #[trigger] (d * k)
}

/// `a` has a multiplicative inverse modulo `m`.
pub open spec fn has_inverse(a: int, m: int) -> bool {
    exists|x: int| 0 <= x < m && #[trigger] ((a * x) % m) == 1
}

/// The multiplicative inverse of `a` modulo `m`, or 0 when none exists.
/// An inverse is never 0 itself (since `(a * 0) % m == 0 != 1`), so the
/// result is 0 exactly when `a` is not invertible.
pub open spec fn inverse_mod(a: int, m: int) -> int {
    if has_inverse(a, m) {
        choose|x: int| 0 <= x < m && #[trigger] ((a * x) % m) == 1
    } else {
        0
    }
}

/// The inverse modulo `m` is unique among residues.
pub proof fn lemma_inverse_unique(a: int, m: int, x: int, y: int)
    requires
        m >= 2,
        0 <= x < m,
        0 <= y < m,
        (a * x) % m == 1,
        (a * y) % m == 1,
    ensures
        x == y,
{
    // x == x * ((a*y) % m) % m == (x*a*y) % m == ((a*x) % m) * y % m == y
    lemma_small_mod(x as nat, m as nat);
    lemma_small_mod(y as nat, m as nat);
    assert((x * ((a * y) % m)) % m == (x * (a * y)) % m) by {
        lemma_mul_mod_noop_right(x, a * y, m);
    }
    assert(x * ((a * y) % m) == x);
    assert(x * (a * y) == (x * a) * y) by {
        lemma_mul_is_associative(x, a, y);
    }
    assert(((x * a) * y) % m == (((x * a) % m) * y) % m) by {
        lemma_mul_mod_noop_left(x * a, y, m);
    }
    assert(x * a == a * x) by {
        lemma_mul_is_commutative(x, a);
    }
    assert((1 * y) % m == y % m);
    assert(x % m == y % m);
}

/// A common divisor of 2 or more rules out a multiplicative inverse.
pub proof fn lemma_no_inverse(a: int, m: int, g: int)
    requires
        m >= 2,
        g >= 2,
        divides(g, a),
        divides(g, m),
    ensures
        !has_inverse(a, m),
{
    if has_inverse(a, m) {
        let x = choose|x: int| 0 <= x < m && #[trigger] ((a * x) % m) == 1;
        lemma_fundamental_div_mod(a * x, m);
        let q = (a * x) / m;
        assert(a * x == m * q + 1);
        let ka = choose|k: int| a == #[trigger] (g * k);
        let km = choose|k: int| m == #[trigger] (g * k);
        assert(1 == a * x - m * q);
        assert((g * ka) * x == g * (ka * x)) by {
            lemma_mul_is_associative(g, ka, x);
        }
        assert((g * km) * q == g * (km * q)) by {
            lemma_mul_is_associative(g, km, q);
        }
        assert(g * (ka * x) - g * (km * q) == g * (ka * x - km * q)) by {
            lemma_mul_is_distributive_sub(g, ka * x, km * q);
        }
        let k = ka * x - km * q;
        assert(1 == g * k);
        assert(false) by (nonlinear_arith)
            requires
                g >= 2,
                1 == g * k,
        ;
    }
}

/// `(a + b) % m` on machine integers.
pub fn add_mod(a: u64, b: u64, m: u64) -> (r: u64)
    requires
        m >= 1,
    ensures
        r as int == (a + b) % (m as int),
        r < m,
{
    (((a as u128) + (b as u128)) % (m as u128)) as u64
}

/// `(a - b) % m` on machine integers, with the result in `[0, m)`.
pub fn sub_mod(a: u64, b: u64, m: u64) -> (r: u64)
    requires
        m >= 1,
        a < m,
        b < m,
    ensures
        r as int == (a - b) % (m as int),
        r < m,
{
    proof {
        // (a - b) + m and (a - b) agree modulo m.
        lemma_mod_add_multiples_vanish(a - b, m as int);
    }
    (((a as u128) + (m as u128) - (b as u128)) % (m as u128)) as u64
}

/// `(a * b) % m` on machine integers.
pub fn mul_mod(a: u64, b: u64, m: u64) -> (r: u64)
    requires
        m >= 1,
    ensures
        r as int == (a * b) % (m as int),
        r < m,
{
    proof {
        assert((a as int) * (b as int) <= 0xFFFF_FFFF_FFFF_FFFFu64 * 0xFFFF_FFFF_FFFF_FFFFu64)
            by (nonlinear_arith)
            requires
                a <= 0xFFFF_FFFF_FFFF_FFFFu64,
                b <= 0xFFFF_FFFF_FFFF_FFFFu64,
        ;
    }
    (((a as u128) * (b as u128)) % (m as u128)) as u64
}

/// Extended Euclidean algorithm. Returns `(g, u)` where `g` is a common
/// divisor of `a` and `m` witnessed as `a * u ≡ g (mod m)`, and every
/// common divisor of `a` and `m` divides into the pair, so `g == 1`
/// decides invertibility.
pub fn ext_gcd(a: u64, m: u64) -> (res: (u64, u64))
    requires
        m >= 2,
        a < m,
    ensures
        1 <= res.0 <= m,
        res.1 < m,
        divides(res.0 as int, a as int),
        divides(res.0 as int, m as int),
        (a as int * res.1 as int) % (m as int) == res.0 as int % (m as int),
{
    let mut r0: u64 = a;
    let mut r1: u64 = m;
    let mut u0: u64 = 1;
    let mut u1: u64 = 0;
    proof {
        lemma_small_mod(a as nat, m as nat);
        assert(a as int * 0 == 0);
        assert(m as int % m as int == 0) by {
            vstd::arithmetic::div_mod::lemma_mod_self_0(m as int);
        }
    }
    while r1 != 0
        invariant
            m >= 2,
            r0 <= m,
            r1 <= m,
            u0 < m,
            u1 < m,
            r0 > 0 || r1 > 0,
            (a as int * u0 as int) % (m as int) == r0 as int % (m as int),
            (a as int * u1 as int) % (m as int) == r1 as int % (m as int),
            forall|d: int|
                1 <= d && #[trigger] divides(d, r0 as int) && divides(d, r1 as int) ==> divides(
                    d,
                    a as int,
                ) && divides(d, m as int),
        decreases r1,
    {
        let q: u64 = r0 / r1;
        let r2: u64 = r0 % r1;
        let t: u64 = mul_mod(q % m, u1, m);
        let u2: u64 = sub_mod(u0, t, m);
        proof {
            let ai = a as int;
            let mi = m as int;
            let qi = q as int;
            let r0i = r0 as int;
            let r1i = r1 as int;
            // a * u2 ≡ a*u0 - a*t ≡ r0 - q*r1 == r0 % r1 (mod m)
            assert((ai * u2 as int) % mi == (ai * ((u0 as int - t as int) % mi)) % mi);
            assert((ai * ((u0 as int - t as int) % mi)) % mi == (ai * (u0 as int - t as int))
                % mi) by {
                lemma_mul_mod_noop_right(ai, u0 as int - t as int, mi);
            }
            assert(ai * (u0 as int - t as int) == ai * u0 as int - ai * t as int) by {
                lemma_mul_is_distributive_sub(ai, u0 as int, t as int);
            }
            // a * t ≡ q * r1 (mod m)
            assert((ai * t as int) % mi == (ai * (((qi % mi) * u1 as int) % mi)) % mi);
            assert((ai * (((qi % mi) * u1 as int) % mi)) % mi == (ai * ((qi % mi) * u1 as int))
                % mi) by {
                lemma_mul_mod_noop_right(ai, (qi % mi) * u1 as int, mi);
            }
            assert(ai * ((qi % mi) * u1 as int) == (qi % mi) * (ai * u1 as int)) by {
                lemma_mul_is_associative(ai, qi % mi, u1 as int);
                lemma_mul_is_commutative(ai, qi % mi);
                lemma_mul_is_associative(qi % mi, ai, u1 as int);
            }
            assert(((qi % mi) * (ai * u1 as int)) % mi == (qi * r1i) % mi) by {
                lemma_mul_mod_noop_general(qi, ai * u1 as int, mi);
                lemma_mul_mod_noop_general(qi, r1i, mi);
            }
            // a*u0 - a*t ≡ r0 - q*r1 (mod m)
            assert((ai * u0 as int - ai * t as int) % mi == (r0i - qi * r1i) % mi) by {
                lemma_sub_mod_noop(ai * u0 as int, ai * t as int, mi);
                lemma_sub_mod_noop(r0i, qi * r1i, mi);
            }
            // r0 - q*r1 is exactly r0 % r1
            assert(r0i % r1i == r0i - (r0i / r1i) * r1i) by {
                lemma_fundamental_div_mod(r0i, r1i);
                lemma_mul_is_commutative(r1i, r0i / r1i);
            }
            assert((ai * u2 as int) % mi == r2 as int % mi);
            // common divisors of (r1, r0 % r1) are common divisors of (r0, r1)
            assert forall|d: int|
                1 <= d && #[trigger] divides(d, r1 as int) && divides(d, r2 as int) implies divides(
                d,
                a as int,
            ) && divides(d, m as int) by {
                let k1 = choose|k: int| r1i == #[trigger] (d * k);
                let k2 = choose|k: int| r2 as int == #[trigger] (d * k);
                assert(r0i == qi * (d * k1) + d * k2);
                assert(qi * (d * k1) == d * (qi * k1)) by {
                    lemma_mul_is_associative(qi, d, k1);
                    lemma_mul_is_commutative(qi, d);
                    lemma_mul_is_associative(d, qi, k1);
                }
                assert(d * (qi * k1) + d * k2 == d * (qi * k1 + k2)) by (nonlinear_arith);
                assert(divides(d, r0i));
            }
        }
        r0 = r1;
        u0 = u1;
        r1 = r2;
        u1 = u2;
    }
    proof {
        assert(divides(r0 as int, r0 as int)) by {
            assert(r0 as int == r0 as int * 1);
        }
        assert(divides(r0 as int, 0int)) by {
            assert(0int == r0 as int * 0);
        }
    }
    (r0, u0)
}

/// The inverse of `a` modulo `m` when it exists, `None` otherwise.
pub fn mod_inverse(a: u64, m: u64) -> (r: Option<u64>)
    requires
        m >= 2,
        a < m,
    ensures
        r is Some <==> has_inverse(a as int, m as int),
        r matches Some(v) ==> v < m && (a as int * v as int) % (m as int) == 1 && v as int
            == inverse_mod(a as int, m as int),
{
    let (g, u) = ext_gcd(a, m);
    if g == 1 {
        proof {
            lemma_small_mod(1nat, m as nat);
            assert((a as int * u as int) % (m as int) == 1);
            assert(has_inverse(a as int, m as int));
            let c = choose|x: int|
                0 <= x < m as int && #[trigger] ((a as int * x) % (m as int)) == 1;
            lemma_inverse_unique(a as int, m as int, u as int, c);
        }
        Some(u)
    } else {
        proof {
            lemma_no_inverse(a as int, m as int, g as int);
        }
        None
    }
}

/// The inverse of `a` modulo `m`, or 0 when `a` is not invertible;
/// this is exactly the spec-level `inverse_mod`.
pub fn inverse_or_zero(a: u64, m: u64) -> (r: u64)
    requires
        m >= 2,
        a < m,
    ensures
        r as int == inverse_mod(a as int, m as int),
        r < m,
{
    match mod_inverse(a, m) {
        Some(v) => v,
        None => 0,
    }
}

} // verus!
