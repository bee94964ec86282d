//! The client role: committing to the cells of the private matrix,
//! signing its rows, and the verification routines any client or
//! auditor runs against the aggregator's outputs.

use vstd::prelude::*;
use std::collections::HashMap;
use crate::bls::FrElem;
use crate::commitment::{spec_commit, spec_open_ok, Commitment};
use crate::dataset::{cells_before, lemma_cells_before_mono, lemma_cells_before_nonneg, Dataset};
use crate::ec::CURVE_N;
use crate::errors::ViperError;
use crate::bls::{ed_sign_of, fr_of_u64, g2_mul_of, g2_sha256_of};
use crate::mkhs::{spec_verify_ok, tags_all_valid, KeyPair, Mkhs, Signature, PK};

verus! {

/// A participant: its session identifier, MKHS key pair, private
/// matrix, and blinding scalar.
pub struct Client {
    pub id: u64,
    pub key_pair: KeyPair,
    pub dataset: Dataset,
    pub secret: i64,
}

impl Client {
    /// Assemble a client from its parts.
    pub fn new(id: u64, key_pair: KeyPair, dataset: Dataset, secret: i64) -> (r: Client)
        ensures
            r.id == id,
            r.key_pair == key_pair,
            r.dataset == dataset,
            r.secret == secret,
    {
        Client { id, key_pair, dataset, secret }
    }

    /// Commit to every cell of the matrix under the client's blinding
    /// scalar, flattened in row-major order: the commitment of cell
    /// `(i, j)` stands at flat index `cells_before(rows, i) + j`.
    pub fn compute_commitments(&self) -> (r: Vec<Commitment>)
        requires
            self.dataset.wf(),
        ensures
            r@.len() == cells_before(self.dataset.rows(), self.dataset.rows().len() as int),
            forall|i: int, j: int|
                0 <= i < self.dataset.rows().len() && 0 <= j < self.dataset.rows()[i].len()
                    ==> r@[cells_before(self.dataset.rows(), i) + j].c == spec_commit(
                    (#[trigger] self.dataset.rows()[i][j]) as int,
                    self.secret as int,
                ),
    {
        let ghost rows = self.dataset.rows();
        let mut out: Vec<Commitment> = Vec::new();
        let mut i: usize = 0;
        while i < self.dataset.dataset.len()
            invariant
                self.dataset.wf(),
                rows == self.dataset.rows(),
                i <= rows.len(),
                out@.len() == cells_before(rows, i as int),
                forall|a: int, b: int|
                    0 <= a < i && 0 <= b < rows[a].len() ==> out@[cells_before(rows, a) + b].c
                        == spec_commit((#[trigger] rows[a][b]) as int, self.secret as int),
            decreases rows.len() - i,
        {
            let row = &self.dataset.dataset[i];
            let mut j: usize = 0;
            while j < row.len()
                invariant
                    self.dataset.wf(),
                    rows == self.dataset.rows(),
                    i < rows.len(),
                    row@ == rows[i as int],
                    j <= row@.len(),
                    out@.len() == cells_before(rows, i as int) + j,
                    forall|a: int, b: int|
                        0 <= a < i && 0 <= b < rows[a].len() ==> out@[cells_before(rows, a) + b].c
                            == spec_commit((#[trigger] rows[a][b]) as int, self.secret as int),
                    forall|b: int|
                        0 <= b < j ==> out@[cells_before(rows, i as int) + b].c == spec_commit(
                            (#[trigger] rows[i as int][b]) as int,
                            self.secret as int,
                        ),
                decreases row@.len() - j,
            {
                proof {
                    lemma_cells_before_nonneg(rows, i as int);
                }
                let cell = row[j];
                out.push(Commitment::commit(cell as i64, self.secret));
                proof {
                    assert forall|a: int, b: int| 0 <= a < i && 0 <= b < rows[a].len() implies out@[
                        cells_before(rows, a) + b].c == spec_commit(
                        (#[trigger] rows[a][b]) as int,
                        self.secret as int,
                    ) by {
                        lemma_cells_before_mono(rows, a, i as int);
                    }
                }
                j += 1;
            }
            proof {
                assert(cells_before(rows, i + 1) == cells_before(rows, i as int) + rows[
                    i as int].len());
            }
            i += 1;
        }
        out
    }

    /// Open each aggregated commitment with the corresponding claimed
    /// sum under the combined blinding scalar. Succeeds exactly when
    /// every commitment opens.
    pub fn verify_commitment(
        commitments: &Vec<Commitment>,
        aggregated_data: &Vec<i64>,
        random: i64,
    ) -> (res: Result<(), ViperError>)
        requires
            commitments@.len() <= aggregated_data@.len(),
        ensures
            res is Ok <==> forall|i: int|
                0 <= i < commitments@.len() ==> spec_open_ok(
                    (#[trigger] commitments@[i]).c,
                    aggregated_data@[i] as int,
                    random as int,
                ),
            res is Err ==> res == Err::<(), ViperError>(ViperError::CommitmentOpenFailure),
    {
        let mut i: usize = 0;
        while i < commitments.len()
            invariant
                commitments@.len() <= aggregated_data@.len(),
                i <= commitments@.len(),
                forall|j: int|
                    0 <= j < i ==> spec_open_ok(
                        (#[trigger] commitments@[j]).c,
                        aggregated_data@[j] as int,
                        random as int,
                    ),
            decreases commitments@.len() - i,
        {
            if let Err(e) = commitments[i].open(aggregated_data[i], random) {
                return Err(e);
            }
            i += 1;
        }
        Ok(())
    }

    /// Sign each row of the message matrix with the client's secret
    /// key. Succeeds exactly when the client's identifier is nonzero or
    /// there is nothing to sign; each output signature carries one
    /// share under the client's identifier.
    pub fn compute_signature(&self, mkhs: &Mkhs, messages: &Vec<Vec<FrElem>>) -> (res: Result<
        Vec<Signature>,
        ViperError,
    >)
        requires
            mkhs.wf(),
            self.key_pair.sk.xs@.len() >= 1,
            forall|i: int| 0 <= i < messages@.len() ==> (#[trigger] messages@[i])@.len() == mkhs.t,
        ensures
            res is Ok <==> (self.key_pair.sk.k != 0 || messages@.len() == 0),
            res matches Ok(v) ==> v@.len() == messages@.len() && forall|i: int|
                0 <= i < v@.len() ==> (#[trigger] v@[i]).lams@.len() == 1 && v@[i].lams@[0].client_id
                    == self.key_pair.sk.k && v@[i].lams@[0].big_z == g2_mul_of(
                    mkhs.g2,
                    fr_of_u64(self.key_pair.sk.k),
                ) && v@[i].lams@[0].sig == ed_sign_of(
                    self.key_pair.sk.sk_sig,
                    g2_sha256_of(v@[i].lams@[0].big_z),
                ),
            res is Err ==> res == Err::<Vec<Signature>, ViperError>(ViperError::InvariantViolation),
    {
        let mut out: Vec<Signature> = Vec::new();
        let mut i: usize = 0;
        while i < messages.len()
            invariant
                mkhs.wf(),
                self.key_pair.sk.xs@.len() >= 1,
                forall|a: int|
                    0 <= a < messages@.len() ==> (#[trigger] messages@[a])@.len() == mkhs.t,
                i <= messages@.len(),
                i > 0 ==> self.key_pair.sk.k != 0,
                out@.len() == i,
                forall|a: int|
                    0 <= a < i ==> (#[trigger] out@[a]).lams@.len() == 1 && out@[a].lams@[
                        0
                    ].client_id == self.key_pair.sk.k && out@[a].lams@[0].big_z == g2_mul_of(
                        mkhs.g2,
                        fr_of_u64(self.key_pair.sk.k),
                    ) && out@[a].lams@[0].sig == ed_sign_of(
                        self.key_pair.sk.sk_sig,
                        g2_sha256_of(out@[a].lams@[0].big_z),
                    ),
            decreases messages@.len() - i,
        {
            match mkhs.sign(&self.key_pair.sk, &messages[i]) {
                Ok(sig) => {
                    out.push(sig);
                },
                Err(e) => {
                    return Err(e);
                },
            }
            i += 1;
        }
        Ok(out)
    }

    /// Verify each aggregated signature against the corresponding row
    /// of claimed sums, failing on the first bad row. Wherever every
    /// row has at least one share and one message coordinate, success
    /// is exactly `Mkhs::verify`'s acceptance condition on every row;
    /// on success every share's tag verified and its signer's public
    /// key is known.
    pub fn verify_signature(
        mkhs: &Mkhs,
        pks: &HashMap<u64, PK>,
        aggregated_data: &Vec<Vec<FrElem>>,
        aggregated_signatures: &Vec<Signature>,
    ) -> (res: Result<(), ViperError>)
        requires
            mkhs.wf(),
            aggregated_signatures@.len() <= aggregated_data@.len(),
            forall|i: int|
                0 <= i < aggregated_data@.len() ==> (#[trigger] aggregated_data@[i])@.len()
                    <= mkhs.t,
            forall|k: u64| #[trigger] pks@.dom().contains(k) ==> pks@[k].wf(),
        ensures
            res is Ok ==> forall|s: int, l: int|
                0 <= s < aggregated_signatures@.len() && 0 <= l
                    < aggregated_signatures@[s].lams@.len() ==> pks@.dom().contains(
                    (#[trigger] aggregated_signatures@[s].lams@[l]).client_id,
                ),
            res is Ok ==> forall|s: int|
                0 <= s < aggregated_signatures@.len() ==> tags_all_valid(
                    (#[trigger] aggregated_signatures@[s]).lams@,
                    pks@,
                ),
            (forall|s: int|
                0 <= s < aggregated_signatures@.len() ==> (
                #[trigger] aggregated_signatures@[s]).lams@.len() >= 1
                    && aggregated_data@[s]@.len() >= 1) ==> (res is Ok <==> forall|s: int|
                0 <= s < aggregated_signatures@.len() ==> spec_verify_ok(
                    *mkhs,
                    pks@,
                    aggregated_data@[s]@,
                    #[trigger] aggregated_signatures@[s],
                )),
            res is Err ==> res == Err::<(), ViperError>(ViperError::SignatureVerifyFailure),
    {
        let mut i: usize = 0;
        while i < aggregated_signatures.len()
            invariant
                mkhs.wf(),
                aggregated_signatures@.len() <= aggregated_data@.len(),
                forall|a: int|
                    0 <= a < aggregated_data@.len() ==> (#[trigger] aggregated_data@[a])@.len()
                        <= mkhs.t,
                forall|k: u64| #[trigger] pks@.dom().contains(k) ==> pks@[k].wf(),
                i <= aggregated_signatures@.len(),
                forall|s: int, l: int|
                    0 <= s < i && 0 <= l < aggregated_signatures@[s].lams@.len() ==> pks@.dom()
                        .contains((#[trigger] aggregated_signatures@[s].lams@[l]).client_id),
                forall|s: int|
                    0 <= s < i ==> tags_all_valid(
                        (#[trigger] aggregated_signatures@[s]).lams@,
                        pks@,
                    ),
                forall|s: int|
                    0 <= s < i && (#[trigger] aggregated_signatures@[s]).lams@.len() >= 1
                        && aggregated_data@[s]@.len() >= 1 ==> spec_verify_ok(
                        *mkhs,
                        pks@,
                        aggregated_data@[s]@,
                        aggregated_signatures@[s],
                    ),
            decreases aggregated_signatures@.len() - i,
        {
            let ghost row_sig = aggregated_signatures@[i as int];
            let ghost row_msgs = aggregated_data@[i as int]@;
            if let Err(e) = mkhs.verify(pks, &aggregated_data[i], &aggregated_signatures[i]) {
                proof {
                    if row_sig.lams@.len() >= 1 && row_msgs.len() >= 1 {
                        assert(!spec_verify_ok(*mkhs, pks@, row_msgs, row_sig));
                    }
                }
                return Err(e);
            }
            i += 1;
        }
        Ok(())
    }
}

} // verus!
