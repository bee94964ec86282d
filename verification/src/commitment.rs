//! Additively homomorphic Pedersen-style commitments over the small
//! curve. Both the binding and the hiding term use the curve's
//! distinguished generator, a known limitation of the protocol:
//! `commit(w, r) = w*G + r*G`.

use vstd::prelude::*;
use crate::ec::{pt_valid, spec_add, spec_generator, spec_mul, Point};
use crate::errors::ViperError;

verus! {

/// The point committed to by value `w` under blinding `r`.
pub open spec fn spec_commit(w: int, r: int) -> Point {
    spec_add(spec_mul(spec_generator(), w), spec_mul(spec_generator(), r))
}

/// Opening a commitment point `c` with `(w, r)` succeeds exactly when
/// `c` is the point committed to by `(w, r)`.
pub open spec fn spec_open_ok(c: Point, w: int, r: int) -> bool {
    c == spec_commit(w, r)
}

/// A commitment is one curve point.
#[derive(Clone, Copy, Debug, PartialEq, Eq, Structural)]
pub struct Commitment {
    pub c: Point,
}

impl Default for Commitment {
    /// The additive identity: a commitment to the point at infinity.
    fn default() -> (r: Commitment)
        ensures
            r.c == Point::Infinity,
    {
        Commitment { c: Point::Infinity }
    }
}

impl Commitment {
    /// Wrap a point as a commitment.
    pub fn new(c: Point) -> (r: Commitment)
        ensures
            r.c == c,
    {
        Commitment { c }
    }

    /// Commit to `w` under blinding `r`.
    pub fn commit(w: i64, r: i64) -> (res: Commitment)
        ensures
            res.c == spec_commit(w as int, r as int),
            pt_valid(res.c),
    {
        let g_w = Point::default().mul(w);
        let h_r = Point::default().mul(r);
        Commitment { c: g_w.add(&h_r) }
    }

    /// Open the commitment with value `w` and blinding `r`. Succeeds if
    /// and only if the held point equals `commit(w, r)`.
    pub fn open(&self, w: i64, r: i64) -> (res: Result<(), ViperError>)
        ensures
            res is Ok <==> spec_open_ok(self.c, w as int, r as int),
            res is Err ==> res == Err::<(), ViperError>(ViperError::CommitmentOpenFailure),
    {
        let expected = Self::commit(w, r);
        if self.c == expected.c {
            Ok(())
        } else {
            Err(ViperError::CommitmentOpenFailure)
        }
    }

    /// Pointwise addition of commitments.
    pub fn add(&self, rhs: &Commitment) -> (res: Commitment)
        requires
            pt_valid(self.c),
            pt_valid(rhs.c),
        ensures
            res.c == spec_add(self.c, rhs.c),
            pt_valid(res.c),
    {
        Commitment { c: self.c.add(&rhs.c) }
    }

    /// Group sum of a sequence of commitments, folded from the additive
    /// identity in order.
    pub fn sum(items: &Vec<Commitment>) -> (res: Commitment)
        requires
            forall|i: int| 0 <= i < items@.len() ==> pt_valid(#[trigger] items@[i].c),
        ensures
            res.c == spec_sum_points(items@.map_values(|cm: Commitment| cm.c)),
            pt_valid(res.c),
    {
        let ghost pts = items@.map_values(|cm: Commitment| cm.c);
        let mut res = Point::Infinity;
        let mut i: usize = 0;
        while i < items.len()
            invariant
                i <= items@.len(),
                pts == items@.map_values(|cm: Commitment| cm.c),
                forall|j: int| 0 <= j < items@.len() ==> pt_valid(#[trigger] items@[j].c),
                pt_valid(res),
                res == spec_sum_points(pts.take(i as int)),
            decreases items@.len() - i,
        {
            res = res.add(&items[i].c);
            proof {
                assert(pts.take(i + 1).drop_last() =~= pts.take(i as int));
                assert(pts.take(i + 1).last() == items@[i as int].c);
            }
            i += 1;
        }
        proof {
            assert(pts.take(items@.len() as int) =~= pts);
        }
        Commitment { c: res }
    }
}

/// Group sum of a sequence of points, starting from infinity.
pub open spec fn spec_sum_points(s: Seq<Point>) -> Point
    decreases s.len(),
{
    if s.len() == 0 {
        Point::Infinity
    } else {
        spec_add(spec_sum_points(s.drop_last()), s.last())
    }
}

/// Committing to the value 0 yields the blinding term alone:
/// `0*G + r*G == r*G`.
pub proof fn lemma_commit_zero(r: int)
    ensures
        spec_commit(0, r) == spec_mul(spec_generator(), r),
{
    crate::ec::lemma_mul_zero(spec_generator());
    crate::ec::lemma_add_identity(spec_mul(spec_generator(), r));
}

/// A commitment opens under the exact value and blinding it was made
/// with, for every `w` and `r`.
pub proof fn lemma_open_after_commit(w: int, r: int)
    ensures
        spec_open_ok(spec_commit(w, r), w, r),
{
}

/// Summing a single commitment is the identity: the fold of one point
/// from infinity is that point.
pub proof fn lemma_sum_single(p: Point)
    ensures
        spec_sum_points(seq![p]) == p,
{
    assert(seq![p].drop_last() =~= Seq::<Point>::empty());
    assert(spec_sum_points(Seq::<Point>::empty()) == Point::Infinity);
    assert(seq![p].last() == p);
    assert(spec_sum_points(seq![p]) == spec_add(Point::Infinity, p));
    crate::ec::lemma_add_identity(p);
}

} // verus!
