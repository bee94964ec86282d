//! The untrusted aggregator: it sums the clients' commitments
//! column-wise, aggregates their signatures row-wise, and opens the
//! summed commitments by subtracting the combined blinding term and
//! running the discrete-log solver on each residual point.

use vstd::prelude::*;
use crate::commitment::{spec_sum_points, Commitment};
use crate::ec::{pt_valid, spec_add, spec_generator, spec_mul, spec_neg, Point, CURVE_N};
use crate::errors::ViperError;
use crate::mkhs::{distinct_ids, has_share_id, share_from_inputs, spec_take_count, Mkhs, Signature};
use crate::rho::pollards_rho;

verus! {

/// Every row has the width of the first one.
pub open spec fn rectangular<T>(grid: Seq<Vec<T>>) -> bool {
    forall|i: int| 0 <= i < grid.len() ==> (#[trigger] grid[i])@.len() == grid[0]@.len()
}

/// The column `c` of a grid of commitments, as the points of one cell
/// per client, in client order.
pub open spec fn commitment_column(grid: Seq<Vec<Commitment>>, c: int) -> Seq<Point> {
    Seq::new(grid.len(), |i: int| grid[i]@[c].c)
}

/// The column `r` of a grid of signatures: one row-`r` signature per
/// client, in client order.
pub open spec fn signature_column(grid: Seq<Vec<Signature>>, r: int) -> Seq<Signature> {
    Seq::new(grid.len(), |i: int| grid[i]@[r])
}

/// Swap the two indexings of a rectangular grid.
fn transpose_dataset<T: Copy>(dataset: &Vec<Vec<T>>) -> (r: Vec<Vec<T>>)
    requires
        dataset@.len() > 0,
        rectangular(dataset@),
    ensures
        r@.len() == dataset@[0]@.len(),
        forall|c: int| 0 <= c < r@.len() ==> (#[trigger] r@[c])@.len() == dataset@.len(),
        forall|c: int, i: int|
            0 <= c < r@.len() && 0 <= i < dataset@.len() ==> (#[trigger] r@[c]@[i]) == dataset@[i]@[c],
{
    let width = dataset[0].len();
    let mut out: Vec<Vec<T>> = Vec::new();
    let mut c: usize = 0;
    while c < width
        invariant
            width == dataset@[0]@.len(),
            c <= width,
            dataset@.len() > 0,
            rectangular(dataset@),
            out@.len() == c,
            forall|c2: int| 0 <= c2 < c ==> (#[trigger] out@[c2])@.len() == dataset@.len(),
            forall|c2: int, i: int|
                0 <= c2 < c && 0 <= i < dataset@.len() ==> (#[trigger] out@[c2]@[i])
                    == dataset@[i]@[c2],
        decreases width - c,
    {
        let mut col: Vec<T> = Vec::new();
        let mut i: usize = 0;
        while i < dataset.len()
            invariant
                width == dataset@[0]@.len(),
                c < width,
                rectangular(dataset@),
                i <= dataset@.len(),
                col@.len() == i,
                forall|i2: int| 0 <= i2 < i ==> (#[trigger] col@[i2]) == dataset@[i2]@[c as int],
            decreases dataset@.len() - i,
        {
            col.push(dataset[i][c]);
            i += 1;
        }
        out.push(col);
        c += 1;
    }
    out
}

/// Aggregating a single client's commitments is the identity: each
/// column holds one point, and the fold of one point from infinity is
/// that point.
pub proof fn lemma_single_client_aggregate(grid: Seq<Vec<Commitment>>, c: int)
    requires
        grid.len() == 1,
        0 <= c < grid[0]@.len(),
    ensures
        spec_sum_points(commitment_column(grid, c)) == grid[0]@[c].c,
{
    assert(commitment_column(grid, c) =~= seq![grid[0]@[c].c]);
    crate::commitment::lemma_sum_single(grid[0]@[c].c);
}

/// The aggregator role.
pub struct Aggregator;

impl Aggregator {
    /// Sum the clients' commitment grids cell-wise: the result holds,
    /// for each cell position, the group sum of that cell over all
    /// clients, in client order.
    pub fn aggregate_commitments(commitments: &Vec<Vec<Commitment>>) -> (r: Vec<Commitment>)
        requires
            commitments@.len() > 0,
            rectangular(commitments@),
            forall|i: int, j: int|
                0 <= i < commitments@.len() && 0 <= j < commitments@[i]@.len() ==> pt_valid(
                    (#[trigger] commitments@[i]@[j]).c,
                ),
        ensures
            r@.len() == commitments@[0]@.len(),
            forall|c: int|
                0 <= c < r@.len() ==> (#[trigger] r@[c]).c == spec_sum_points(
                    commitment_column(commitments@, c),
                ),
            forall|c: int| 0 <= c < r@.len() ==> pt_valid((#[trigger] r@[c]).c),
    {
        let transposed = transpose_dataset(commitments);
        let mut out: Vec<Commitment> = Vec::new();
        let mut c: usize = 0;
        while c < transposed.len()
            invariant
                transposed@.len() == commitments@[0]@.len(),
                c <= transposed@.len(),
                commitments@.len() > 0,
                rectangular(commitments@),
                forall|i: int, j: int|
                    0 <= i < commitments@.len() && 0 <= j < commitments@[i]@.len() ==> pt_valid(
                        (#[trigger] commitments@[i]@[j]).c,
                    ),
                forall|c2: int|
                    0 <= c2 < transposed@.len() ==> (#[trigger] transposed@[c2])@.len()
                        == commitments@.len(),
                forall|c2: int, i: int|
                    0 <= c2 < transposed@.len() && 0 <= i < commitments@.len() ==> (
                    #[trigger] transposed@[c2]@[i]) == commitments@[i]@[c2],
                out@.len() == c,
                forall|c2: int|
                    0 <= c2 < c ==> (#[trigger] out@[c2]).c == spec_sum_points(
                        commitment_column(commitments@, c2),
                    ),
                forall|c2: int| 0 <= c2 < c ==> pt_valid((#[trigger] out@[c2]).c),
            decreases transposed@.len() - c,
        {
            let col_sum = Commitment::sum(&transposed[c]);
            proof {
                assert(transposed@[c as int]@.map_values(|cm: Commitment| cm.c) =~= commitment_column(
                    commitments@,
                    c as int,
                ));
            }
            out.push(col_sum);
            c += 1;
        }
        out
    }

    /// Aggregate the clients' signature sequences row-wise: for each
    /// row, the signatures of all clients on that row are folded by
    /// `Mkhs::eval`, so each output signature carries at most one share
    /// per signer, exactly the signers of that row's column.
    pub fn aggregate_signatures(mkhs: &Mkhs, signatures: &Vec<Vec<Signature>>) -> (r: Vec<
        Signature,
    >)
        requires
            signatures@.len() > 0,
            rectangular(signatures@),
        ensures
            r@.len() == signatures@[0]@.len(),
            forall|row: int| 0 <= row < r@.len() ==> distinct_ids((#[trigger] r@[row]).lams@),
            forall|row: int, i: int|
                0 <= row < r@.len() && 0 <= i < r@[row].lams@.len() ==> share_from_inputs(
                    signature_column(signatures@, row),
                    spec_take_count(mkhs.n as int, signatures@.len() as int),
                    #[trigger] r@[row].lams@[i],
                ),
            forall|row: int, si: int, k: int|
                0 <= row < r@.len() && 0 <= si < spec_take_count(
                    mkhs.n as int,
                    signatures@.len() as int,
                ) && 0 <= k < signature_column(signatures@, row)[si].lams@.len() ==> has_share_id(
                    r@[row].lams@,
                    (#[trigger] signature_column(signatures@, row)[si].lams@[k]).client_id,
                ),
    {
        let width = signatures[0].len();
        let mut out: Vec<Signature> = Vec::new();
        let mut row: usize = 0;
        while row < width
            invariant
                width == signatures@[0]@.len(),
                row <= width,
                signatures@.len() > 0,
                rectangular(signatures@),
                out@.len() == row,
                forall|r2: int| 0 <= r2 < row ==> distinct_ids((#[trigger] out@[r2]).lams@),
                forall|r2: int, i: int|
                    0 <= r2 < row && 0 <= i < out@[r2].lams@.len() ==> share_from_inputs(
                        signature_column(signatures@, r2),
                        spec_take_count(mkhs.n as int, signatures@.len() as int),
                        #[trigger] out@[r2].lams@[i],
                    ),
                forall|r2: int, si: int, k: int|
                    0 <= r2 < row && 0 <= si < spec_take_count(
                        mkhs.n as int,
                        signatures@.len() as int,
                    ) && 0 <= k < signature_column(signatures@, r2)[si].lams@.len()
                        ==> has_share_id(
                        out@[r2].lams@,
                        (#[trigger] signature_column(signatures@, r2)[si].lams@[k]).client_id,
                    ),
            decreases width - row,
        {
            let mut col: Vec<Signature> = Vec::new();
            let mut i: usize = 0;
            while i < signatures.len()
                invariant
                    width == signatures@[0]@.len(),
                    row < width,
                    rectangular(signatures@),
                    i <= signatures@.len(),
                    col@.len() == i,
                    forall|i2: int|
                        0 <= i2 < i ==> (#[trigger] col@[i2]).lams@
                            == signatures@[i2]@[row as int].lams@,
                decreases signatures@.len() - i,
            {
                col.push(signatures[i][row].clone());
                i += 1;
            }
            let folded = mkhs.eval(&col);
            proof {
                let cnt = spec_take_count(mkhs.n as int, signatures@.len() as int);
                let column0 = signature_column(signatures@, row as int);
                assert forall|si: int, k: int|
                    0 <= si < cnt && 0 <= k < column0[si].lams@.len() implies has_share_id(
                    folded.lams@,
                    (#[trigger] column0[si].lams@[k]).client_id,
                ) by {
                    assert(col@[si].lams@ == column0[si].lams@);
                    assert(has_share_id(folded.lams@, (col@[si].lams@[k]).client_id));
                }
                assert forall|k: int| 0 <= k < folded.lams@.len() implies share_from_inputs(
                    signature_column(signatures@, row as int),
                    cnt,
                    #[trigger] folded.lams@[k],
                ) by {
                    let lam = folded.lams@[k];
                    let (wsi, wk): (int, int) = choose|wsi: int, wk: int|
                        0 <= wsi < cnt && 0 <= wk < col@[wsi].lams@.len()
                            && (#[trigger] col@[wsi].lams@[wk]).client_id == lam.client_id
                            && col@[wsi].lams@[wk].sig == lam.sig
                            && col@[wsi].lams@[wk].big_z == lam.big_z;
                    let column = signature_column(signatures@, row as int);
                    assert(column[wsi].lams@ == col@[wsi].lams@);
                    assert(0 <= wsi < cnt && 0 <= wk < column[wsi].lams@.len()
                        && column[wsi].lams@[wk].client_id == lam.client_id
                        && column[wsi].lams@[wk].sig == lam.sig
                        && column[wsi].lams@[wk].big_z == lam.big_z);
                }
            }
            out.push(folded);
            row += 1;
        }
        out
    }

    /// Open each aggregated commitment: subtract `secret * G` and run
    /// the discrete-log solver on the residual against the generator.
    /// On success every recovered sum is a reduced residue modulo the
    /// group order whose multiple of the generator equals that cell's
    /// residual point; opening nothing succeeds; a solver failure on
    /// any cell aborts.
    pub fn open_commitments(commitments: &Vec<Commitment>, secret: i64) -> (res: Result<
        Vec<i64>,
        ViperError,
    >)
        requires
            forall|i: int| 0 <= i < commitments@.len() ==> pt_valid((#[trigger] commitments@[i]).c),
        ensures
            commitments@.len() == 0 ==> res is Ok,
            res matches Ok(v) ==> v@.len() == commitments@.len() && forall|i: int|
                0 <= i < v@.len() ==> 0 <= #[trigger] v@[i] < CURVE_N && spec_mul(
                    spec_generator(),
                    v@[i] as int,
                ) == spec_add(
                    commitments@[i].c,
                    spec_neg(spec_mul(spec_generator(), secret as int)),
                ),
            res is Err ==> res == Err::<Vec<i64>, ViperError>(ViperError::DlogExhaustion) || res
                == Err::<Vec<i64>, ViperError>(ViperError::InvariantViolation),
    {
        let base = Point::default();
        let neg_blind = base.mul(secret).neg();
        let mut out: Vec<i64> = Vec::new();
        let mut i: usize = 0;
        while i < commitments.len()
            invariant
                pt_valid(neg_blind),
                neg_blind == spec_neg(spec_mul(spec_generator(), secret as int)),
                i <= commitments@.len(),
                forall|j: int|
                    0 <= j < commitments@.len() ==> pt_valid((#[trigger] commitments@[j]).c),
                out@.len() == i,
                forall|j: int|
                    0 <= j < i ==> 0 <= #[trigger] out@[j] < CURVE_N && spec_mul(
                        spec_generator(),
                        out@[j] as int,
                    ) == spec_add(commitments@[j].c, neg_blind),
            decreases commitments@.len() - i,
        {
            let residual = commitments[i].c.add(&neg_blind);
            match pollards_rho(&Point::default(), &residual) {
                Ok(w) => {
                    out.push(w as i64);
                },
                Err(e) => {
                    return Err(e);
                },
            }
            i += 1;
        }
        Ok(out)
    }
}

} // verus!
