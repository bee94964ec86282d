//! A client's private matrix of non-negative integers, and its view in
//! the BLS12-381 scalar field. Cells are bounded by the small curve's
//! group order so that across-client column sums can be recovered by
//! the discrete-log solver.

use vstd::prelude::*;
use crate::bls::{fr_from_u64, fr_of_u64, FrElem};
use crate::ec::CURVE_N;

verus! {

/// The number of cells in the first `i` rows: the row-major flat index
/// of the first cell of row `i`.
pub open spec fn cells_before(rows: Seq<Seq<u64>>, i: int) -> int
    decreases i,
{
    if i <= 0 {
        0
    } else {
        cells_before(rows, i - 1) + rows[i - 1].len()
    }
}

/// The prefix cell counts grow by whole rows: every cell of row `a`
/// sits strictly before the cells of any later row.
pub proof fn lemma_cells_before_mono(rows: Seq<Seq<u64>>, a: int, i: int)
    requires
        0 <= a < i,
    ensures
        cells_before(rows, a) + rows[a].len() <= cells_before(rows, i),
        cells_before(rows, a) >= 0,
    decreases i,
{
    if a == i - 1 {
        lemma_cells_before_nonneg(rows, a);
    } else {
        lemma_cells_before_mono(rows, a, i - 1);
    }
}

pub proof fn lemma_cells_before_nonneg(rows: Seq<Seq<u64>>, i: int)
    ensures
        cells_before(rows, i) >= 0,
    decreases i,
{
    if i > 0 {
        lemma_cells_before_nonneg(rows, i - 1);
    }
}

/// A matrix of cells, one row per signed message vector.
pub struct Dataset {
    pub dataset: Vec<Vec<u64>>,
}

impl Dataset {
    /// The rows of the matrix as mathematical sequences.
    pub open spec fn rows(&self) -> Seq<Seq<u64>> {
        self.dataset@.map_values(|row: Vec<u64>| row@)
    }

    /// Every cell stays below the small curve's group order, so sums of
    /// cells across clients can be opened by the discrete-log solver.
    pub open spec fn wf(&self) -> bool {
        forall|i: int, j: int|
            0 <= i < self.rows().len() && 0 <= j < self.rows()[i].len() ==> (
            #[trigger] self.rows()[i][j]) < CURVE_N
    }

    /// Wrap a matrix of values.
    pub fn new(data: Vec<Vec<u64>>) -> (r: Dataset)
        ensures
            r.dataset == data,
    {
        Dataset { dataset: data }
    }

    /// The matrix mapped cell-by-cell into the scalar field, with the
    /// same shape: cell `(i, j)` becomes the field element standing for
    /// its integer value.
    pub fn fr(&self) -> (r: Vec<Vec<FrElem>>)
        ensures
            r@.len() == self.rows().len(),
            forall|i: int| 0 <= i < r@.len() ==> (#[trigger] r@[i])@.len() == self.rows()[i].len(),
            forall|i: int, j: int|
                0 <= i < r@.len() && 0 <= j < r@[i]@.len() ==> (#[trigger] r@[i]@[j]) == fr_of_u64(
                    self.rows()[i][j],
                ),
    {
        let mut out: Vec<Vec<FrElem>> = Vec::new();
        let mut i: usize = 0;
        while i < self.dataset.len()
            invariant
                i <= self.dataset@.len(),
                out@.len() == i,
                forall|a: int| 0 <= a < i ==> (#[trigger] out@[a])@.len() == self.rows()[a].len(),
                forall|a: int, b: int|
                    0 <= a < i && 0 <= b < out@[a]@.len() ==> (#[trigger] out@[a]@[b]) == fr_of_u64(
                        self.rows()[a][b],
                    ),
            decreases self.dataset@.len() - i,
        {
            let row = &self.dataset[i];
            let mut frs: Vec<FrElem> = Vec::new();
            let mut j: usize = 0;
            while j < row.len()
                invariant
                    i < self.dataset@.len(),
                    row@ == self.rows()[i as int],
                    j <= row@.len(),
                    frs@.len() == j,
                    forall|b: int| 0 <= b < j ==> (#[trigger] frs@[b]) == fr_of_u64(row@[b]),
                decreases row@.len() - j,
            {
                frs.push(fr_from_u64(row[j]));
                j += 1;
            }
            out.push(frs);
            i += 1;
        }
        out
    }
}

impl Clone for Dataset {
    /// A cell-exact copy of the matrix.
    fn clone(&self) -> (r: Self)
        ensures
            r.rows() == self.rows(),
    {
        let mut data: Vec<Vec<u64>> = Vec::new();
        let mut i: usize = 0;
        while i < self.dataset.len()
            invariant
                i <= self.dataset@.len(),
                data@.len() == i,
                forall|a: int| 0 <= a < i ==> (#[trigger] data@[a])@ == self.rows()[a],
            decreases self.dataset@.len() - i,
        {
            let row = &self.dataset[i];
            let mut cells: Vec<u64> = Vec::new();
            let mut j: usize = 0;
            while j < row.len()
                invariant
                    j <= row@.len(),
                    cells@ == row@.take(j as int),
                decreases row@.len() - j,
            {
                cells.push(row[j]);
                proof {
                    assert(row@.take(j + 1) =~= row@.take(j as int).push(row@[j as int]));
                }
                j += 1;
            }
            proof {
                assert(row@.take(row@.len() as int) =~= row@);
            }
            data.push(cells);
            i += 1;
        }
        let r = Dataset { dataset: data };
        proof {
            assert(r.rows() =~= self.rows());
        }
        r
    }
}

} // verus!
