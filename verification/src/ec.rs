//! Affine point arithmetic on the protocol's small prime-order
//! short-Weierstrass curve `y^2 = x^3 + a*x + b (mod p)`.
//!
//! Every executable operation is proved equal to a mathematical model
//! (`spec_neg`, `spec_double`, `spec_add`, `spec_mul`) stated over
//! integer residues, with the slope's modular inverse given by
//! `field::inverse_mod`.

use vstd::prelude::*;
use crate::field::{add_mod, inverse_mod, inverse_or_zero, mul_mod, sub_mod};
use vstd::arithmetic::div_mod::{
    lemma_add_mod_noop, lemma_mod_self_0, lemma_mul_mod_noop_left, lemma_mul_mod_noop_right,
    lemma_small_mod, lemma_sub_mod_noop,
};

verus! {

/// Curve coefficient `a`.
pub const CURVE_A: u64 = 203298074;

/// Curve coefficient `b`.
pub const CURVE_B: u64 = 2030070442;

/// Field prime `p`.
pub const CURVE_P: u64 = 2756527723;

/// Group order `n`.
pub const CURVE_N: u64 = 2756629331;

/// x-coordinate of the distinguished generator.
pub const GEN_X: u64 = 1668671046;

/// y-coordinate of the distinguished generator.
pub const GEN_Y: u64 = 372808598;

/// The curve parameters as one value, for callers that want to read them.
#[derive(Clone, Copy, Debug, PartialEq, Eq, Structural)]
pub struct EC {
    pub a: u64,
    pub b: u64,
    pub p: u64,
    pub n: u64,
}

impl Default for EC {
    /// The protocol's fixed curve parameters.
    fn default() -> (r: EC)
        ensures
            r == (EC { a: CURVE_A, b: CURVE_B, p: CURVE_P, n: CURVE_N }),
    {
        EC { a: CURVE_A, b: CURVE_B, p: CURVE_P, n: CURVE_N }
    }
}

/// A curve point: the point at infinity or an affine pair of residues.
#[derive(Clone, Copy, Debug, PartialEq, Eq, Structural)]
pub enum Point {
    Infinity,
    Affine { x: u64, y: u64 },
}

/// Coordinates are reduced residues modulo `p`.
pub open spec fn pt_valid(pt: Point) -> bool {
    match pt {
        Point::Infinity => true,
        Point::Affine { x, y } => x < CURVE_P && y < CURVE_P,
    }
}

/// The distinguished generator.
pub open spec fn spec_generator() -> Point {
    Point::Affine { x: GEN_X, y: GEN_Y }
}

/// Negation: mirror the affine point across the x-axis.
pub open spec fn spec_neg(pt: Point) -> Point {
    match pt {
        Point::Infinity => Point::Infinity,
        Point::Affine { x, y } => Point::Affine {
            x,
            y: ((CURVE_P - y) % (CURVE_P as int)) as u64,
        },
    }
}

/// Tangent doubling. A point with `y == 0` doubles to infinity; otherwise
/// the tangent slope is `(3x^2 + a) / (2y)` modulo `p`.
pub open spec fn spec_double(pt: Point) -> Point {
    match pt {
        Point::Infinity => Point::Infinity,
        Point::Affine { x, y } => if y == 0 {
            Point::Infinity
        } else {
            let p = CURVE_P as int;
            let l = ((3 * x * x + CURVE_A) * inverse_mod((2 * y) % p, p)) % p;
            let x3 = (l * l - 2 * x) % p;
            let y3 = (l * (x - x3) - y) % p;
            Point::Affine { x: x3 as u64, y: y3 as u64 }
        },
    }
}

/// Chord-and-tangent addition, with the exact case order of the
/// executable code: equal operands double, infinity is the identity,
/// opposite points cancel, and otherwise the chord slope is
/// `(y_q - y_p) / (x_q - x_p)` modulo `p`.
pub open spec fn spec_add(pt: Point, qt: Point) -> Point {
    if pt == qt {
        spec_double(pt)
    } else if pt is Infinity {
        qt
    } else if qt is Infinity {
        pt
    } else if qt == spec_neg(pt) {
        Point::Infinity
    } else {
        let p = CURVE_P as int;
        let (xp, yp) = (pt->x, pt->y);
        let (xq, yq) = (qt->x, qt->y);
        let l = ((yq - yp) * inverse_mod((xq - xp) % p, p)) % p;
        let x3 = (l * l - xp - xq) % p;
        let y3 = (l * (xp - x3) - yp) % p;
        Point::Affine { x: x3 as u64, y: y3 as u64 }
    }
}

/// One step of double-and-add over the scalar's little-endian bits:
/// fold the current table point into the accumulator when the low bit
/// is set, then double and shift.
pub open spec fn spec_mul_loop(acc: Point, cur: Point, k: int) -> Point
    decreases k,
{
    if k <= 0 {
        acc
    } else {
        spec_mul_loop(
            if k % 2 == 1 {
                spec_add(acc, cur)
            } else {
                acc
            },
            spec_double(cur),
            k / 2,
        )
    }
}

/// Scalar multiplication. Infinity stays infinity; a scalar that is not
/// positive yields infinity, as the bit scan never runs.
pub open spec fn spec_mul(pt: Point, k: int) -> Point {
    if pt is Infinity {
        pt
    } else {
        spec_mul_loop(Point::Infinity, pt, k)
    }
}

impl Default for Point {
    /// The distinguished generator of the curve group.
    fn default() -> (r: Point)
        ensures
            r == spec_generator(),
            pt_valid(r),
    {
        Point::Affine { x: GEN_X, y: GEN_Y }
    }
}

impl Point {
    /// True exactly on the point at infinity.
    pub fn is_none(&self) -> (r: bool)
        ensures
            r == (*self is Infinity),
    {
        match *self {
            Point::Infinity => true,
            Point::Affine { .. } => false,
        }
    }

    /// The additive identity.
    pub fn infinity() -> (r: Point)
        ensures
            r == Point::Infinity,
    {
        Point::Infinity
    }

    /// Negation.
    pub fn neg(&self) -> (r: Point)
        requires
            pt_valid(*self),
        ensures
            r == spec_neg(*self),
            pt_valid(r),
    {
        match *self {
            Point::Infinity => Point::Infinity,
            Point::Affine { x, y } => {
                let ny = sub_mod(0, y, CURVE_P);
                proof {
                    // (0 - y) and (p - y) agree modulo p.
                    vstd::arithmetic::div_mod::lemma_mod_add_multiples_vanish(
                        0 - y as int,
                        CURVE_P as int,
                    );
                }
                Point::Affine { x, y: ny }
            },
        }
    }

    /// Tangent doubling.
    pub fn double(&self) -> (r: Point)
        requires
            pt_valid(*self),
        ensures
            r == spec_double(*self),
            pt_valid(r),
    {
        match *self {
            Point::Infinity => Point::Infinity,
            Point::Affine { x, y } => {
                if y == 0 {
                    return Point::Infinity;
                }
                let p = CURVE_P;
                let pi: Ghost<int> = Ghost(CURVE_P as int);
                let xx = mul_mod(x, x, p);
                let l1 = (3 * xx + CURVE_A) % p;
                let ty = add_mod(y, y, p);
                let inv = inverse_or_zero(ty, p);
                let l = mul_mod(l1, inv, p);
                proof {
                    let xi = x as int;
                    let nm = xi * xi;
                    let num = 3 * xi * xi + CURVE_A;
                    assert(3 * xi * xi == 3 * nm) by {
                        vstd::arithmetic::mul::lemma_mul_is_associative(3, xi, xi);
                    }
                    assert((3 * (xx as int)) % pi@ == (3 * nm) % pi@) by {
                        lemma_mul_mod_noop_right(3, nm, pi@);
                    }
                    assert(l1 as int == num % pi@) by {
                        lemma_add_mod_noop(3 * (xx as int), CURVE_A as int, pi@);
                        lemma_add_mod_noop(3 * nm, CURVE_A as int, pi@);
                        lemma_small_mod(CURVE_A as nat, CURVE_P as nat);
                    }
                    assert(ty as int == (2 * (y as int)) % pi@);
                    assert(l as int == (num * (inv as int)) % pi@) by {
                        lemma_mul_mod_noop_left(num, inv as int, pi@);
                    }
                }
                let ll = mul_mod(l, l, p);
                let tx = add_mod(x, x, p);
                let x3 = sub_mod(ll, tx, p);
                proof {
                    assert(x3 as int == ((l as int) * (l as int) - 2 * (x as int)) % pi@) by {
                        lemma_sub_mod_noop((l as int) * (l as int), 2 * (x as int), pi@);
                    }
                }
                let xd = sub_mod(x, x3, p);
                let t2 = mul_mod(l, xd, p);
                let y3 = sub_mod(t2, y, p);
                proof {
                    assert(t2 as int == ((l as int) * ((x as int) - (x3 as int))) % pi@) by {
                        lemma_mul_mod_noop_right(l as int, (x as int) - (x3 as int), pi@);
                    }
                    assert(y3 as int == ((l as int) * ((x as int) - (x3 as int)) - (y as int))
                        % pi@) by {
                        lemma_sub_mod_noop(
                            (l as int) * ((x as int) - (x3 as int)),
                            y as int,
                            pi@,
                        );
                        lemma_small_mod(y as nat, CURVE_P as nat);
                    }
                }
                Point::Affine { x: x3, y: y3 }
            },
        }
    }

    /// Chord-and-tangent addition.
    pub fn add(&self, rhs: &Point) -> (r: Point)
        requires
            pt_valid(*self),
            pt_valid(*rhs),
        ensures
            r == spec_add(*self, *rhs),
            pt_valid(r),
    {
        if *self == *rhs {
            return self.double();
        }
        match (*self, *rhs) {
            (Point::Infinity, _) => *rhs,
            (_, Point::Infinity) => *self,
            (Point::Affine { x: xp, y: yp }, Point::Affine { x: xq, y: yq }) => {
                let neg_self = self.neg();
                if *rhs == neg_self {
                    return Point::Infinity;
                }
                let p = CURVE_P;
                let pi: Ghost<int> = Ghost(CURVE_P as int);
                let dy = sub_mod(yq, yp, p);
                let dx = sub_mod(xq, xp, p);
                let inv = inverse_or_zero(dx, p);
                let l = mul_mod(dy, inv, p);
                proof {
                    assert(l as int == (((yq as int) - (yp as int)) * (inv as int)) % pi@) by {
                        lemma_mul_mod_noop_left((yq as int) - (yp as int), inv as int, pi@);
                    }
                }
                let ll = mul_mod(l, l, p);
                let t1 = sub_mod(ll, xp, p);
                let x3 = sub_mod(t1, xq, p);
                proof {
                    assert(t1 as int == ((l as int) * (l as int) - (xp as int)) % pi@) by {
                        lemma_sub_mod_noop((l as int) * (l as int), xp as int, pi@);
                        lemma_small_mod(xp as nat, CURVE_P as nat);
                    }
                    assert(x3 as int == ((l as int) * (l as int) - (xp as int) - (xq as int))
                        % pi@) by {
                        lemma_sub_mod_noop(
                            (l as int) * (l as int) - (xp as int),
                            xq as int,
                            pi@,
                        );
                        lemma_small_mod(xq as nat, CURVE_P as nat);
                    }
                }
                let xd = sub_mod(xp, x3, p);
                let t2 = mul_mod(l, xd, p);
                let y3 = sub_mod(t2, yp, p);
                proof {
                    assert(t2 as int == ((l as int) * ((xp as int) - (x3 as int))) % pi@) by {
                        lemma_mul_mod_noop_right(l as int, (xp as int) - (x3 as int), pi@);
                    }
                    assert(y3 as int == ((l as int) * ((xp as int) - (x3 as int)) - (yp as int))
                        % pi@) by {
                        lemma_sub_mod_noop(
                            (l as int) * ((xp as int) - (x3 as int)),
                            yp as int,
                            pi@,
                        );
                        lemma_small_mod(yp as nat, CURVE_P as nat);
                    }
                }
                Point::Affine { x: x3, y: y3 }
            },
        }
    }

    /// Double-and-add scalar multiplication over the scalar's bits,
    /// least significant first. A scalar that is not positive yields
    /// infinity, as in the model.
    pub fn mul(&self, k: i64) -> (r: Point)
        requires
            pt_valid(*self),
        ensures
            r == spec_mul(*self, k as int),
            pt_valid(r),
    {
        if self.is_none() {
            return *self;
        }
        let mut res = Point::Infinity;
        let mut cur = *self;
        let mut scalar = k;
        while scalar > 0
            invariant
                pt_valid(res),
                pt_valid(cur),
                spec_mul_loop(res, cur, scalar as int) == spec_mul(*self, k as int),
            decreases scalar,
        {
            if scalar % 2 == 1 {
                res = res.add(&cur);
            }
            cur = cur.double();
            scalar = scalar / 2;
        }
        res
    }
}

/// A point and its negation cancel: `P + (-P) == infinity`.
pub proof fn lemma_add_opposite(pt: Point)
    requires
        pt_valid(pt),
    ensures
        spec_add(pt, spec_neg(pt)) == Point::Infinity,
{
    match pt {
        Point::Infinity => {
        },
        Point::Affine { x, y } => {
            if y == 0 {
                assert((CURVE_P - 0int) % (CURVE_P as int) == 0) by {
                    lemma_mod_self_0(CURVE_P as int);
                }
            } else {
                assert((CURVE_P - y as int) % (CURVE_P as int) == CURVE_P - y as int) by {
                    lemma_small_mod((CURVE_P - y) as nat, CURVE_P as nat);
                }
            }
        },
    }
}

/// Infinity is the additive identity on both sides.
pub proof fn lemma_add_identity(pt: Point)
    ensures
        spec_add(pt, Point::Infinity) == pt,
        spec_add(Point::Infinity, pt) == pt,
{
}

/// Multiplying any point by the scalar 0 yields infinity.
pub proof fn lemma_mul_zero(pt: Point)
    ensures
        spec_mul(pt, 0) == Point::Infinity,
{
}

} // verus!
