//! Pollard's-rho discrete-log solver over the small curve: given the
//! generator `g` and a target `w*g`, recover `w` modulo the group order.
//!
//! The walk, the region partition, and the collision equation are all
//! verified; only the random starting coefficients come from outside.

use vstd::prelude::*;
use crate::ec::{pt_valid, spec_add, spec_double, spec_mul, Point, CURVE_N, CURVE_P};
use crate::errors::ViperError;
use crate::field::{add_mod, has_inverse, inverse_mod, mod_inverse, mul_mod, sub_mod};
use vstd::arithmetic::div_mod::lemma_mul_mod_noop_left;

verus! {

/// Relies on rand::Rng::gen_range over `1..=hi`: a value uniform in
/// that range; the range is not empty since `hi >= 1`.
#[verifier::external_body]
fn sample_in_range(hi: u64) -> (r: u64)
    requires
        hi >= 1,
    ensures
        1 <= r <= hi,
{
    rand::Rng::gen_range(&mut rand::thread_rng(), 1..=hi)
}

/// State of one rho walk: the two base points, two random linear
/// combinations with their coefficients, and the running combination.
#[derive(Clone, Copy, Debug, PartialEq, Eq, Structural)]
struct PollardRhoSequence {
    p1: Point,
    p2: Point,
    a1: u64,
    b1: u64,
    x1: Point,
    a2: u64,
    b2: u64,
    x2: Point,
    a: u64,
    b: u64,
    x: Point,
}

/// Well-formed walk state: reduced running coefficients, valid points.
spec fn seq_wf(s: PollardRhoSequence) -> bool {
    &&& pt_valid(s.p1)
    &&& pt_valid(s.p2)
    &&& pt_valid(s.x1)
    &&& pt_valid(s.x2)
    &&& pt_valid(s.x)
    &&& s.a < CURVE_N
    &&& s.b < CURVE_N
}

/// The region of the current point: its x-coordinate divided by
/// `p/3 + 1`, so always 0, 1 or 2; infinity counts as region 0.
spec fn spec_region(x: Point) -> int {
    match x {
        Point::Infinity => 0,
        Point::Affine { x: xc, y } => xc as int / (CURVE_P as int / 3 + 1),
    }
}

/// One transition of the walk. Region 0 folds in the first random
/// combination, region 1 doubles, region 2 folds in the second; the
/// running coefficients are reduced modulo the group order.
spec fn spec_rho_step(s: PollardRhoSequence) -> PollardRhoSequence {
    let n = CURVE_N as int;
    let i = spec_region(s.x);
    if i == 0 {
        PollardRhoSequence {
            a: (((s.a + s.a1) % n) as u64),
            b: (((s.b + s.b1) % n) as u64),
            x: spec_add(s.x, s.x1),
            ..s
        }
    } else if i == 1 {
        PollardRhoSequence {
            a: (((2 * s.a) % n) as u64),
            b: (((2 * s.b) % n) as u64),
            x: spec_double(s.x),
            ..s
        }
    } else {
        PollardRhoSequence {
            a: (((s.a + s.a2) % n) as u64),
            b: (((s.b + s.b2) % n) as u64),
            x: spec_add(s.x, s.x2),
            ..s
        }
    }
}

impl PollardRhoSequence {
    /// Start a walk on base points `p1` and `p2` with fresh random
    /// coefficients in `[1, n]`.
    fn build(p1: Point, p2: Point) -> (s: Self)
        requires
            pt_valid(p1),
            pt_valid(p2),
        ensures
            seq_wf(s),
            s.p1 == p1,
            s.p2 == p2,
            s.a == 0,
            s.b == 0,
            s.x == Point::Infinity,
            s.x1 == spec_add(spec_mul(p1, s.a1 as int), spec_mul(p2, s.b1 as int)),
            s.x2 == spec_add(spec_mul(p1, s.a2 as int), spec_mul(p2, s.b2 as int)),
    {
        let a1 = sample_in_range(CURVE_N);
        let b1 = sample_in_range(CURVE_N);
        let x1 = p1.mul(a1 as i64).add(&p2.mul(b1 as i64));

        let a2 = sample_in_range(CURVE_N);
        let b2 = sample_in_range(CURVE_N);
        let x2 = p1.mul(a2 as i64).add(&p2.mul(b2 as i64));

        PollardRhoSequence {
            p1,
            p2,
            a1,
            b1,
            x1,
            a2,
            b2,
            x2,
            a: 0,
            b: 0,
            x: Point::Infinity,
        }
    }

    /// Advance the walk one step and return the new point with its
    /// coefficients. The region index is proved to lie in {0, 1, 2},
    /// so the step is total.
    fn next_step(&mut self) -> (r: (Point, u64, u64))
        requires
            seq_wf(*old(self)),
        ensures
            seq_wf(*final(self)),
            *final(self) == spec_rho_step(*old(self)),
            r == (final(self).x, final(self).a, final(self).b),
    {
        let region: u64 = match self.x {
            Point::Infinity => 0,
            Point::Affine { x, .. } => x / (CURVE_P / 3 + 1),
        };
        proof {
            if let Point::Affine { x, y } = self.x {
                assert(x < CURVE_P);
                assert(x as int / (CURVE_P as int / 3 + 1) <= 2) by (nonlinear_arith)
                    requires
                        x < 2756527723u64,
                ;
            }
        }
        if region == 0 {
            self.a = add_mod(self.a, self.a1, CURVE_N);
            self.b = add_mod(self.b, self.b1, CURVE_N);
            self.x = self.x.add(&self.x1);
        } else if region == 1 {
            self.a = add_mod(self.a, self.a, CURVE_N);
            self.b = add_mod(self.b, self.b, CURVE_N);
            self.x = self.x.double();
        } else {
            self.a = add_mod(self.a, self.a2, CURVE_N);
            self.b = add_mod(self.b, self.b2, CURVE_N);
            self.x = self.x.add(&self.x2);
        }
        (self.x, self.a, self.b)
    }
}

/// The scalar recovered from a collision of two walk states with
/// coefficients `(a1, b1)` and `(a2, b2)`:
/// `(a1 - a2) / (b2 - b1)` modulo the group order. `None` when
/// `b1 == b2` (a degenerate collision) or when the coefficient
/// difference has no inverse.
pub fn collision_scalar(a1: u64, b1: u64, a2: u64, b2: u64) -> (res: Option<u64>)
    requires
        a1 < CURVE_N,
        b1 < CURVE_N,
        a2 < CURVE_N,
        b2 < CURVE_N,
    ensures
        res is Some <==> (b1 != b2 && has_inverse(
            (b2 - b1) % (CURVE_N as int),
            CURVE_N as int,
        )),
        res matches Some(w) ==> w as int == ((a1 - a2) * inverse_mod(
            (b2 - b1) % (CURVE_N as int),
            CURVE_N as int,
        )) % (CURVE_N as int),
{
    if b1 == b2 {
        return None;
    }
    let db = sub_mod(b2, b1, CURVE_N);
    match mod_inverse(db, CURVE_N) {
        None => None,
        Some(inv) => {
            let da = sub_mod(a1, a2, CURVE_N);
            let w = mul_mod(da, inv, CURVE_N);
            proof {
                lemma_mul_mod_noop_left(a1 - a2, inv as int, CURVE_N as int);
            }
            Some(w)
        },
    }
}

/// Solve `target == w * g` for `w` by Pollard's rho with a tortoise and
/// hare over the random walk: up to 3 restarts of at most `n` steps.
/// A recovered scalar is checked against the target with the verified
/// scalar multiplication before it is returned, so any `Ok` result is a
/// true discrete log, reduced modulo the group order; a collision whose
/// scalar fails that check restarts, which cannot happen in the
/// prime-order group but keeps the contract unconditional.
/// `DlogExhaustion` reports that all restarts ran out, and
/// `InvariantViolation` that a collision's coefficient difference was
/// not invertible (per the protocol's error kinds; for the prime group
/// order this too is unreachable).
pub fn pollards_rho(g: &Point, target: &Point) -> (res: Result<u64, ViperError>)
    requires
        pt_valid(*g),
        pt_valid(*target),
    ensures
        res matches Ok(w) ==> w < CURVE_N && spec_mul(*g, w as int) == *target,
        res is Err ==> res == Err::<u64, ViperError>(ViperError::DlogExhaustion) || res
            == Err::<u64, ViperError>(ViperError::InvariantViolation),
{
    let mut attempt: u64 = 0;
    while attempt < 3
        invariant
            pt_valid(*g),
            pt_valid(*target),
        decreases 3 - attempt,
    {
        let start = PollardRhoSequence::build(*g, *target);
        let mut tortoise = start;
        let mut hare = start;

        let mut step: u64 = 0;
        while step < CURVE_N
            invariant
                pt_valid(*g),
                pt_valid(*target),
                seq_wf(tortoise),
                seq_wf(hare),
            decreases CURVE_N - step,
        {
            let (x1, a1, b1) = tortoise.next_step();
            hare.next_step();
            let (x2, a2, b2) = hare.next_step();

            if x1 == x2 {
                if b1 == b2 {
                    break ;
                }
                match collision_scalar(a1, b1, a2, b2) {
                    Some(w) => {
                        if g.mul(w as i64) == *target {
                            return Ok(w);
                        }
                        break ;
                    },
                    None => {
                        return Err(ViperError::InvariantViolation);
                    },
                }
            }
            step += 1;
        }
        attempt += 1;
    }
    Err(ViperError::DlogExhaustion)
}

} // verus!
