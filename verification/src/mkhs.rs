//! Multi-key homomorphic signatures over BLS12-381 with Ed25519 tag
//! authentication: per-client key generation, per-row signing,
//! aggregation across distinct signers, and pairing-based verification.
//!
//! Group elements are opaque outside values; what is verified here is
//! the scheme's bookkeeping: the shapes of keys and signatures, when
//! signing and verification can fail, and the folding of signer shares
//! by client identifier during aggregation.

use vstd::prelude::*;
use std::collections::HashMap;
use crate::bls::{
    ed_generate, ed_pk_of, ed_sign, ed_sign_of, ed_verify, ed_verify_of, ed_verifying_key, fr_add,
    fr_add_of, fr_inverse_of_id, fr_neg, fr_neg_of, fr_of_u64, fr_rand, fr_sub,
    fr_sub_of, fr_from_u64, g1_add, g1_add_of, g1_generator, g1_mul, g1_mul_of, g1_rand, g1_zero,
    g2_add, g2_add_of, g2_generator, g2_hash_sha256, g2_mul, g2_mul_of, g2_sha256_of, g2_zero,
    gt_absorber, gt_add, gt_add_of, gt_default, gt_eq, gt_mul, gt_mul_of, is_gt_absorber,
    lemma_gt_absorber_unique, pairing, pairing_of, EdSig, EdSigningKey, EdVerifyingKey, FrElem,
    G1Elem, G2Elem, GtElem,
};
use crate::errors::ViperError;

verus! {

broadcast use vstd::std_specs::hash::group_hash_axioms;

/// One signer's share inside a signature: the signer's identifier, an
/// Ed25519 tag binding the identifier's group element `Z`, and the two
/// homomorphic components `A` and `C`.
pub struct Lam {
    pub client_id: u64,
    pub sig: EdSig,
    pub big_z: G2Elem,
    pub big_a: G1Elem,
    pub big_c: G1Elem,
}

impl Clone for Lam {
    fn clone(&self) -> (r: Self)
        ensures
            r == *self,
    {
        Lam {
            client_id: self.client_id,
            sig: self.sig.clone(),
            big_z: self.big_z.clone(),
            big_a: self.big_a.clone(),
            big_c: self.big_c.clone(),
        }
    }
}

impl Lam {
    /// A copy of this share with its homomorphic components reset to
    /// the zero point; the identifier, tag and `Z` carry over.
    fn clone_empty(&self) -> (r: Lam)
        ensures
            r.client_id == self.client_id,
            r.sig == self.sig,
            r.big_z == self.big_z,
            forall|x: G1Elem| #[trigger] g1_add_of(r.big_a, x) == x,
            forall|x: G1Elem| #[trigger] g1_add_of(r.big_c, x) == x,
    {
        Lam {
            client_id: self.client_id,
            sig: self.sig.clone(),
            big_z: self.big_z.clone(),
            big_a: g1_zero(),
            big_c: g1_zero(),
        }
    }
}

/// A (possibly aggregated) signature: one share per signer, and the
/// combined blinding terms `R` in G1 and `S` in G2.
pub struct Signature {
    pub lams: Vec<Lam>,
    pub big_r: G1Elem,
    pub big_s: G2Elem,
}

impl Clone for Signature {
    fn clone(&self) -> (r: Self)
        ensures
            r.lams@ == self.lams@,
            r.big_r == self.big_r,
            r.big_s == self.big_s,
    {
        Signature {
            lams: clone_lam_vec(&self.lams),
            big_r: self.big_r.clone(),
            big_s: self.big_s.clone(),
        }
    }
}

/// A signer's secret key: the session identifier `k`, the Ed25519 tag
/// key, the vector `x` (one entry per signer of the session), and the
/// blinding scalar `y`.
pub struct SK {
    pub k: u64,
    pub sk_sig: EdSigningKey,
    pub xs: Vec<FrElem>,
    pub y: FrElem,
}

impl Clone for SK {
    fn clone(&self) -> (r: Self)
        ensures
            r.k == self.k,
            r.sk_sig == self.sk_sig,
            r.xs@ == self.xs@,
            r.y == self.y,
    {
        SK {
            k: self.k,
            sk_sig: self.sk_sig.clone(),
            xs: clone_fr_vec(&self.xs),
            y: self.y.clone(),
        }
    }
}

/// A signer's public key: the Ed25519 tag key, the target-group
/// elements `hs[i] = e(G1, G2)^{x[i]}`, and `Y = y * G2`.
pub struct PK {
    pub pk_sig: EdVerifyingKey,
    pub hs: Vec<GtElem>,
    pub big_y: G2Elem,
}

impl Clone for PK {
    fn clone(&self) -> (r: Self)
        ensures
            r.pk_sig == self.pk_sig,
            r.hs@ == self.hs@,
            r.big_y == self.big_y,
    {
        PK { pk_sig: self.pk_sig.clone(), hs: clone_gt_vec(&self.hs), big_y: self.big_y.clone() }
    }
}

impl PK {
    /// The key carries at least the first exponent element, which the
    /// verifier's tag-scale term reads.
    pub open spec fn wf(&self) -> bool {
        self.hs@.len() >= 1
    }
}

/// A signer's key pair.
pub struct KeyPair {
    pub sk: SK,
    pub pk: PK,
}

impl Clone for KeyPair {
    fn clone(&self) -> (r: Self)
        ensures
            r.sk.k == self.sk.k,
            r.sk.sk_sig == self.sk.sk_sig,
            r.sk.xs@ == self.sk.xs@,
            r.sk.y == self.sk.y,
            r.pk.pk_sig == self.pk.pk_sig,
            r.pk.hs@ == self.pk.hs@,
            r.pk.big_y == self.pk.big_y,
    {
        KeyPair { sk: self.sk.clone(), pk: self.pk.clone() }
    }
}

/// The shared scheme parameters: the two generators, their pairing,
/// the number of signers `n`, the row width `t`, and the `t` public
/// random points `H_1 ... H_t` in G1.
pub struct Mkhs {
    pub g1: G1Elem,
    pub g2: G2Elem,
    pub gt: GtElem,
    pub n: usize,
    pub t: usize,
    pub big_hs: Vec<G1Elem>,
}

impl Mkhs {
    /// The parameter block carries one public point per message
    /// coordinate.
    pub open spec fn wf(&self) -> bool {
        self.big_hs@.len() == self.t
    }

    /// Fix the generators and their pairing and sample the `t` shared
    /// random points, for a session of `n` signers and rows of width
    /// `t`.
    pub fn setup(n: usize, t: usize) -> (r: Mkhs)
        ensures
            r.wf(),
            r.n == n,
            r.t == t,
            r.gt == pairing_of(r.g1, r.g2),
    {
        let g1 = g1_generator();
        let g2 = g2_generator();
        let gt = pairing(&g1, &g2);
        let mut big_hs: Vec<G1Elem> = Vec::new();
        let mut i: usize = 0;
        while i < t
            invariant
                i <= t,
                big_hs@.len() == i,
            decreases t - i,
        {
            big_hs.push(g1_rand());
            i += 1;
        }
        Mkhs { g1, g2, gt, n, t, big_hs }
    }

    /// Generate a key pair for the signer with session identifier
    /// `client_id`: an Ed25519 tag pair, `n` independently sampled
    /// exponents `x` with their public images `hs[i] = gt^{x[i]}`, and
    /// the blinding pair `(y, Y = y * G2)`.
    pub fn generate_keys(&self, client_id: u64) -> (r: KeyPair)
        ensures
            r.sk.k == client_id,
            r.sk.xs@.len() == self.n,
            r.pk.hs@.len() == self.n,
            self.n >= 1 ==> r.pk.wf(),
            forall|i: int| 0 <= i < self.n ==> r.pk.hs@[i] == gt_mul_of(self.gt, r.sk.xs@[i]),
            r.pk.big_y == g2_mul_of(self.g2, r.sk.y),
            r.pk.pk_sig == ed_pk_of(r.sk.sk_sig),
    {
        let sk_sig = ed_generate();
        let pk_sig = ed_verifying_key(&sk_sig);

        let mut xs: Vec<FrElem> = Vec::new();
        let mut i: usize = 0;
        while i < self.n
            invariant
                i <= self.n,
                xs@.len() == i,
            decreases self.n - i,
        {
            xs.push(fr_rand());
            i += 1;
        }

        let y = fr_rand();
        let big_y = g2_mul(&self.g2, &y);

        let mut hs: Vec<GtElem> = Vec::new();
        let mut j: usize = 0;
        while j < xs.len()
            invariant
                j <= xs@.len(),
                hs@.len() == j,
                forall|a: int| 0 <= a < j ==> hs@[a] == gt_mul_of(self.gt, xs@[a]),
            decreases xs@.len() - j,
        {
            hs.push(gt_mul(&self.gt, &xs[j]));
            j += 1;
        }

        KeyPair { sk: SK { k: client_id, sk_sig, xs, y }, pk: PK { pk_sig, hs, big_y } }
    }

    /// Assemble the signature on one row from the signer's key and the
    /// two blinding scalars. The share carries `Z = Fr(k) * G2` and the
    /// Ed25519 tag over SHA-256 of `Z`'s serialization, and the four
    /// group components are built exactly as the scheme prescribes:
    /// `A = (G1*(x[0]+r) + sum_i H_i*(y+m[i])) * z_inv`,
    /// `C = G1*s + sum_i H_i*m[i]`, `R = G1*(r-(y+s))`, `S = G2*(-s)`.
    pub fn assemble_signature(
        &self,
        sk: &SK,
        message: &Vec<FrElem>,
        blind_r: &FrElem,
        blind_s: &FrElem,
        z_inv: &FrElem,
    ) -> (s: Signature)
        requires
            self.wf(),
            sk.xs@.len() >= 1,
            message@.len() == self.t,
        ensures
            s.lams@.len() == 1,
            s.lams@[0].client_id == sk.k,
            s.lams@[0].big_z == g2_mul_of(self.g2, fr_of_u64(sk.k)),
            s.lams@[0].sig == ed_sign_of(
                sk.sk_sig,
                g2_sha256_of(g2_mul_of(self.g2, fr_of_u64(sk.k))),
            ),
            s.lams@[0].big_a == g1_mul_of(
                spec_a_accum(*self, *sk, message@, *blind_r, self.t as int),
                *z_inv,
            ),
            s.lams@[0].big_c == spec_c_accum(*self, message@, *blind_s, self.t as int),
            s.big_r == g1_mul_of(self.g1, fr_sub_of(*blind_r, fr_add_of(sk.y, *blind_s))),
            s.big_s == g2_mul_of(self.g2, fr_neg_of(*blind_s)),
    {
        let z = fr_from_u64(sk.k);
        let big_z = g2_mul(&self.g2, &z);

        let tag_bytes = g2_hash_sha256(&big_z);
        let sig = ed_sign(&sk.sk_sig, &tag_bytes);

        let mut big_a = g1_mul(&self.g1, &fr_add(&sk.xs[0], blind_r));
        let mut big_c = g1_mul(&self.g1, blind_s);

        let mut i: usize = 0;
        while i < self.big_hs.len()
            invariant
                self.wf(),
                sk.xs@.len() >= 1,
                message@.len() == self.t,
                i <= self.t,
                big_a == spec_a_accum(*self, *sk, message@, *blind_r, i as int),
                big_c == spec_c_accum(*self, message@, *blind_s, i as int),
            decreases self.big_hs@.len() - i,
        {
            big_a = g1_add(&big_a, &g1_mul(&self.big_hs[i], &fr_add(&sk.y, &message[i])));
            big_c = g1_add(&big_c, &g1_mul(&self.big_hs[i], &message[i]));
            i += 1;
        }

        let big_a_scaled = g1_mul(&big_a, z_inv);
        let big_r = g1_mul(&self.g1, &fr_sub(blind_r, &fr_add(&sk.y, blind_s)));
        let big_s = g2_mul(&self.g2, &fr_neg(blind_s));
        let mut lams: Vec<Lam> = Vec::new();
        lams.push(Lam { client_id: sk.k, sig, big_z, big_a: big_a_scaled, big_c });
        Signature { lams, big_r, big_s }
    }

    /// Sign one row of `t` message coordinates with fresh random
    /// blinding scalars. Fails exactly when the signer's identifier is
    /// 0, whose field element has no inverse; any other identifier
    /// yields a one-share signature assembled by `assemble_signature`
    /// with the inverse of the identifier's field element.
    pub fn sign(&self, sk: &SK, message: &Vec<FrElem>) -> (res: Result<Signature, ViperError>)
        requires
            self.wf(),
            sk.xs@.len() >= 1,
            message@.len() == self.t,
        ensures
            res is Ok <==> sk.k != 0,
            res matches Ok(s) ==> s.lams@.len() == 1 && s.lams@[0].client_id == sk.k
                && s.lams@[0].big_z == g2_mul_of(self.g2, fr_of_u64(sk.k)) && s.lams@[0].sig
                == ed_sign_of(sk.sk_sig, g2_sha256_of(s.lams@[0].big_z)),
            res is Err ==> res == Err::<Signature, ViperError>(ViperError::InvariantViolation),
    {
        match fr_inverse_of_id(sk.k) {
            None => Err(ViperError::InvariantViolation),
            Some(z_inv) => {
                let blind_r = fr_rand();
                let blind_s = fr_rand();
                Ok(self.assemble_signature(sk, message, &blind_r, &blind_s, &z_inv))
            },
        }
    }
}

/// The first `i` steps of the `A` accumulation in signing:
/// `G1*(x[0] + r)` folded with `H_j*(y + m[j])` for `j < i`.
pub open spec fn spec_a_accum(m: Mkhs, sk: SK, message: Seq<FrElem>, blind_r: FrElem, i: int) -> G1Elem
    decreases i,
{
    if i <= 0 {
        g1_mul_of(m.g1, fr_add_of(sk.xs@[0], blind_r))
    } else {
        g1_add_of(
            spec_a_accum(m, sk, message, blind_r, i - 1),
            g1_mul_of(m.big_hs@[i - 1], fr_add_of(sk.y, message[i - 1])),
        )
    }
}

/// The first `i` steps of the `C` accumulation in signing:
/// `G1*s` folded with `H_j*m[j]` for `j < i`.
pub open spec fn spec_c_accum(m: Mkhs, message: Seq<FrElem>, blind_s: FrElem, i: int) -> G1Elem
    decreases i,
{
    if i <= 0 {
        g1_mul_of(m.g1, blind_s)
    } else {
        g1_add_of(
            spec_c_accum(m, message, blind_s, i - 1),
            g1_mul_of(m.big_hs@[i - 1], message[i - 1]),
        )
    }
}

/// How many input signatures `eval` folds: the first `n`, or all of
/// them when fewer are given.
pub open spec fn spec_take_count(n: int, len: int) -> int {
    if n < len {
        n
    } else {
        len
    }
}

/// The group sum of the first `cnt` signatures' `R` components, in
/// input order; meaningful for `cnt >= 1`.
pub open spec fn spec_r_total(sigs: Seq<Signature>, cnt: int) -> G1Elem
    decreases cnt,
{
    if cnt <= 1 {
        sigs[0].big_r
    } else {
        g1_add_of(spec_r_total(sigs, cnt - 1), sigs[cnt - 1].big_r)
    }
}

/// The group sum of the first `cnt` signatures' `S` components, in
/// input order; meaningful for `cnt >= 1`.
pub open spec fn spec_s_total(sigs: Seq<Signature>, cnt: int) -> G2Elem
    decreases cnt,
{
    if cnt <= 1 {
        sigs[0].big_s
    } else {
        g2_add_of(spec_s_total(sigs, cnt - 1), sigs[cnt - 1].big_s)
    }
}

/// The shares of a sequence that carry identifier `id`, in order.
pub open spec fn id_shares(lams: Seq<Lam>, id: u64) -> Seq<Lam>
    decreases lams.len(),
{
    if lams.len() == 0 {
        Seq::empty()
    } else if lams.last().client_id == id {
        id_shares(lams.drop_last(), id).push(lams.last())
    } else {
        id_shares(lams.drop_last(), id)
    }
}

/// The shares carrying `id` across the first `cnt` signatures, in
/// input order.
pub open spec fn gathered_shares(sigs: Seq<Signature>, cnt: int, id: u64) -> Seq<Lam>
    decreases cnt,
{
    if cnt <= 0 {
        Seq::empty()
    } else {
        gathered_shares(sigs, cnt - 1, id) + id_shares(sigs[cnt - 1].lams@, id)
    }
}

/// The shares carrying `id` in the first `cnt` whole signatures plus
/// the first `k` shares of signature `cnt`.
spec fn partial_shares(sigs: Seq<Signature>, cnt: int, k: int, id: u64) -> Seq<Lam> {
    gathered_shares(sigs, cnt, id) + id_shares(sigs[cnt].lams@.take(k), id)
}

/// The group sum of the shares' `A` components, folded from the first;
/// meaningful for a non-empty sequence.
pub open spec fn a_component_sum(sh: Seq<Lam>) -> G1Elem
    decreases sh.len(),
{
    if sh.len() <= 1 {
        sh[0].big_a
    } else {
        g1_add_of(a_component_sum(sh.drop_last()), sh.last().big_a)
    }
}

/// The group sum of the shares' `C` components, folded from the first;
/// meaningful for a non-empty sequence.
pub open spec fn c_component_sum(sh: Seq<Lam>) -> G1Elem
    decreases sh.len(),
{
    if sh.len() <= 1 {
        sh[0].big_c
    } else {
        g1_add_of(c_component_sum(sh.drop_last()), sh.last().big_c)
    }
}

/// A sequence with no share under `id` gathers nothing for `id`.
proof fn lemma_id_shares_absent(lams: Seq<Lam>, id: u64)
    requires
        forall|j: int| 0 <= j < lams.len() ==> (#[trigger] lams[j]).client_id != id,
    ensures
        id_shares(lams, id) == Seq::<Lam>::empty(),
    decreases lams.len(),
{
    if lams.len() > 0 {
        lemma_id_shares_absent(lams.drop_last(), id);
    }
}

/// Under pairwise-distinct identifiers, the shares gathered for one
/// share's identifier are exactly that share. Together with `eval`'s
/// contract this makes single-input aggregation a no-op on the shares:
/// the output share under each identifier carries the input share's
/// tag, `Z`, `A` and `C` unchanged, and `eval`'s `R` and `S` equal the
/// single input's.
pub proof fn lemma_single_input_shares(s: Signature, i: int)
    requires
        distinct_ids(s.lams@),
        0 <= i < s.lams@.len(),
    ensures
        gathered_shares(seq![s], 1, s.lams@[i].client_id) == seq![s.lams@[i]],
        a_component_sum(seq![s.lams@[i]]) == s.lams@[i].big_a,
        c_component_sum(seq![s.lams@[i]]) == s.lams@[i].big_c,
{
    lemma_id_shares_distinct(s.lams@, i);
    assert(gathered_shares(seq![s], 0, s.lams@[i].client_id) == Seq::<Lam>::empty());
    assert(seq![s][0] == s);
    assert(Seq::<Lam>::empty() + id_shares(s.lams@, s.lams@[i].client_id) =~= id_shares(
        s.lams@,
        s.lams@[i].client_id,
    ));
}

/// Under pairwise-distinct identifiers, exactly one share is gathered
/// for each identifier present.
proof fn lemma_id_shares_distinct(lams: Seq<Lam>, i: int)
    requires
        distinct_ids(lams),
        0 <= i < lams.len(),
    ensures
        id_shares(lams, lams[i].client_id) == seq![lams[i]],
    decreases lams.len(),
{
    let id = lams[i].client_id;
    if i == lams.len() - 1 {
        assert forall|j: int| 0 <= j < lams.drop_last().len() implies (#[trigger] lams.drop_last()[
            j
        ]).client_id != id by {
            assert(lams.drop_last()[j] == lams[j]);
        }
        lemma_id_shares_absent(lams.drop_last(), id);
        assert(Seq::<Lam>::empty().push(lams[i]) =~= seq![lams[i]]);
    } else {
        assert(lams.last().client_id != id);
        assert(distinct_ids(lams.drop_last())) by {
            assert forall|a: int, b: int| 0 <= a < b < lams.drop_last().len() implies (
            #[trigger] lams.drop_last()[a]).client_id != (#[trigger] lams.drop_last()[
                b
            ]).client_id by {
                assert(lams.drop_last()[a] == lams[a] && lams.drop_last()[b] == lams[b]);
            }
        }
        assert(lams.drop_last()[i] == lams[i]);
        lemma_id_shares_distinct(lams.drop_last(), i);
    }
}

/// An aggregated share is the fold of the input shares under its
/// identifier: the tag and `Z` of the first such share, and the group
/// sums of all their `A` and `C` components.
pub open spec fn folded_share(sigs: Seq<Signature>, cnt: int, lam: Lam) -> bool {
    let sh = gathered_shares(sigs, cnt, lam.client_id);
    &&& sh.len() >= 1
    &&& lam.sig == sh[0].sig
    &&& lam.big_z == sh[0].big_z
    &&& lam.big_a == a_component_sum(sh)
    &&& lam.big_c == c_component_sum(sh)
}

/// `folded_share` over a partially processed signature.
spec fn folded_partial(sigs: Seq<Signature>, cnt: int, k: int, lam: Lam) -> bool {
    let sh = partial_shares(sigs, cnt, k, lam.client_id);
    &&& sh.len() >= 1
    &&& lam.sig == sh[0].sig
    &&& lam.big_z == sh[0].big_z
    &&& lam.big_a == a_component_sum(sh)
    &&& lam.big_c == c_component_sum(sh)
}

/// Folding one more share appends the components.
proof fn lemma_component_sum_push(sh: Seq<Lam>, x: Lam)
    ensures
        sh.push(x)[0] == if sh.len() == 0 {
            x
        } else {
            sh[0]
        },
        a_component_sum(sh.push(x)) == if sh.len() == 0 {
            x.big_a
        } else {
            g1_add_of(a_component_sum(sh), x.big_a)
        },
        c_component_sum(sh.push(x)) == if sh.len() == 0 {
            x.big_c
        } else {
            g1_add_of(c_component_sum(sh), x.big_c)
        },
{
    assert(sh.push(x).drop_last() =~= sh);
    assert(sh.push(x).last() == x);
}

/// No shares are gathered before any signature is processed.
proof fn lemma_partial_at_zero(sigs: Seq<Signature>, cnt: int, id: u64)
    ensures
        partial_shares(sigs, cnt, 0, id) == gathered_shares(sigs, cnt, id),
{
    assert(sigs[cnt].lams@.take(0) =~= Seq::<Lam>::empty());
    assert(gathered_shares(sigs, cnt, id) + Seq::<Lam>::empty() =~= gathered_shares(
        sigs,
        cnt,
        id,
    ));
}

/// Finishing a signature's shares gathers that whole signature.
proof fn lemma_partial_at_end(sigs: Seq<Signature>, cnt: int, id: u64)
    requires
        0 <= cnt,
    ensures
        partial_shares(sigs, cnt, sigs[cnt].lams@.len() as int, id) == gathered_shares(
            sigs,
            cnt + 1,
            id,
        ),
{
    assert(sigs[cnt].lams@.take(sigs[cnt].lams@.len() as int) =~= sigs[cnt].lams@);
}

/// Processing one more share extends exactly the matching identifier's
/// gathered sequence.
proof fn lemma_partial_step(sigs: Seq<Signature>, cnt: int, k: int, id: u64)
    requires
        0 <= k < sigs[cnt].lams@.len(),
    ensures
        partial_shares(sigs, cnt, k + 1, id) == if sigs[cnt].lams@[k].client_id == id {
            partial_shares(sigs, cnt, k, id).push(sigs[cnt].lams@[k])
        } else {
            partial_shares(sigs, cnt, k, id)
        },
{
    let lams = sigs[cnt].lams@;
    assert(lams.take(k + 1).drop_last() =~= lams.take(k));
    assert(lams.take(k + 1).last() == lams[k]);
    if lams[k].client_id == id {
        assert(id_shares(lams.take(k + 1), id) == id_shares(lams.take(k), id).push(lams[k]));
        assert(gathered_shares(sigs, cnt, id) + id_shares(lams.take(k), id).push(lams[k]) =~= (
        gathered_shares(sigs, cnt, id) + id_shares(lams.take(k), id)).push(lams[k]));
    } else {
        assert(id_shares(lams.take(k + 1), id) == id_shares(lams.take(k), id));
    }
}

/// No two shares carry the same signer identifier.
pub open spec fn distinct_ids(lams: Seq<Lam>) -> bool {
    forall|i: int, j: int|
        0 <= i < j < lams.len() ==> (#[trigger] lams[i]).client_id != (#[trigger] lams[j]).client_id
}

/// The share carries the identifier, tag and `Z` of some share of the
/// first `cnt` input signatures; only its homomorphic components are
/// folded.
pub open spec fn share_from_inputs(sigs: Seq<Signature>, cnt: int, lam: Lam) -> bool {
    exists|si: int, k: int|
        0 <= si < cnt && 0 <= k < sigs[si].lams@.len() && (#[trigger] sigs[si].lams@[k]).client_id
            == lam.client_id && sigs[si].lams@[k].sig == lam.sig && sigs[si].lams@[k].big_z
            == lam.big_z
}

/// Some share in the sequence carries identifier `id`.
pub open spec fn has_share_id(lams: Seq<Lam>, id: u64) -> bool {
    exists|i: int| 0 <= i < lams.len() && (#[trigger] lams[i]).client_id == id
}

/// Every share's signer is known and its Ed25519 tag — over the
/// SHA-256 digest of its `Z` — verifies under that signer's key.
pub open spec fn tags_all_valid(lams: Seq<Lam>, pks: Map<u64, PK>) -> bool {
    forall|i: int|
        0 <= i < lams.len() ==> {
            let lam = #[trigger] lams[i];
            pks.dom().contains(lam.client_id) && ed_verify_of(
                pks[lam.client_id].pk_sig,
                g2_sha256_of(lam.big_z),
                lam.sig,
            )
        }
}

/// The total of the first `i` shares' `C` components, folded from the
/// first; meaningful for a non-empty share list.
pub open spec fn spec_c_tot(lams: Seq<Lam>, i: int) -> G1Elem
    decreases i,
{
    if i <= 1 {
        lams[0].big_c
    } else {
        g1_add_of(spec_c_tot(lams, i - 1), lams[i - 1].big_c)
    }
}

/// The message part over the first `i` coordinates,
/// `H_1*m_1 + ... + H_i*m_i`, folded from the first; meaningful for a
/// non-empty row.
pub open spec fn spec_msg_part(big_hs: Seq<G1Elem>, messages: Seq<FrElem>, i: int) -> G1Elem
    decreases i,
{
    if i <= 1 {
        g1_mul_of(big_hs[0], messages[0])
    } else {
        g1_add_of(spec_msg_part(big_hs, messages, i - 1), g1_mul_of(big_hs[i - 1], messages[i - 1]))
    }
}

/// The verifier's first equation side `P2 = T + CY + e(R, G2)`. The
/// tag-scale term `T` and the C-Y term `CY` are folded from the target
/// field's zero, which absorbs the written-additive operation, so both
/// stand here as the absorbing element.
pub open spec fn spec_p2(m: Mkhs, sig: Signature) -> GtElem {
    gt_add_of(gt_add_of(gt_absorber(), gt_absorber()), pairing_of(sig.big_r, m.g2))
}

/// The verifier's second equation side `P3 = e(G1, S) + e(C_tot, G2)`.
pub open spec fn spec_p3(m: Mkhs, sig: Signature) -> GtElem {
    gt_add_of(
        pairing_of(m.g1, sig.big_s),
        pairing_of(spec_c_tot(sig.lams@, sig.lams@.len() as int), m.g2),
    )
}

/// The verifier's message side `P4 = e(H_1*m_1 + ... + H_t*m_t, G2)`.
pub open spec fn spec_p4(m: Mkhs, messages: Seq<FrElem>) -> GtElem {
    pairing_of(spec_msg_part(m.big_hs@, messages, messages.len() as int), m.g2)
}

/// The verifier's full acceptance condition: every tag verifies, and
/// the two pairing equalities agree — both hold or both fail. The `AZ`
/// accumulator of the first equality is folded from the absorbing
/// zero, so its side stands as the absorber against `spec_p2`.
pub open spec fn spec_verify_ok(m: Mkhs, pks: Map<u64, PK>, messages: Seq<FrElem>, sig: Signature) -> bool {
    &&& tags_all_valid(sig.lams@, pks)
    &&& ((gt_absorber() == spec_p2(m, sig)) == (spec_p3(m, sig) == spec_p4(m, messages)))
}

/// A key of the map holds this public key.
pub open spec fn is_value_of(m: Map<u64, PK>, pk: PK) -> bool {
    exists|k: u64| #[trigger] m.dom().contains(k) && m[k] == pk
}

/// A share drawn from the first `c1` inputs is also drawn from any
/// larger prefix.
proof fn lemma_share_monotone(sigs: Seq<Signature>, c1: int, c2: int, lam: Lam)
    requires
        c1 <= c2,
        share_from_inputs(sigs, c1, lam),
    ensures
        share_from_inputs(sigs, c2, lam),
{
    let (si, k): (int, int) = choose|si: int, k: int|
        0 <= si < c1 && 0 <= k < sigs[si].lams@.len() && (#[trigger] sigs[si].lams@[
            k
        ]).client_id == lam.client_id && sigs[si].lams@[k].sig == lam.sig
            && sigs[si].lams@[k].big_z == lam.big_z;
    assert(0 <= si < c2 && 0 <= k < sigs[si].lams@.len() && sigs[si].lams@[k].client_id
        == lam.client_id && sigs[si].lams@[k].sig == lam.sig && sigs[si].lams@[k].big_z
        == lam.big_z);
}

/// The index of the share carrying `id`, if one is present.
fn find_lam(v: &Vec<Lam>, id: u64) -> (r: Option<usize>)
    ensures
        r matches Some(j) ==> j < v@.len() && v@[j as int].client_id == id,
        r is None ==> !has_share_id(v@, id),
{
    let mut i: usize = 0;
    while i < v.len()
        invariant
            i <= v@.len(),
            forall|j: int| 0 <= j < i ==> (#[trigger] v@[j]).client_id != id,
        decreases v@.len() - i,
    {
        if v[i].client_id == id {
            return Some(i);
        }
        i += 1;
    }
    None
}

/// The verifier's final decision over its two pairing equalities: the
/// signature is accepted exactly when the two agree — both hold or
/// both fail. This is the protocol's documented acceptance rule, kept
/// as it stands.
pub fn checks_agree(e1: bool, e2: bool) -> (r: bool)
    ensures
        r == (e1 == e2),
{
    e1 == e2
}

/// Relies on std's HashMap::values: one element per key of the map,
/// each a value held by the map (copied by this crate's exact Clone),
/// and every key's value appears.
#[verifier::external_body]
fn pk_values(pks: &HashMap<u64, PK>) -> (r: Vec<PK>)
    ensures
        r@.len() == pks@.dom().len(),
        forall|i: int| 0 <= i < r@.len() ==> is_value_of(pks@, #[trigger] r@[i]),
        forall|k: u64|
            #[trigger] pks@.dom().contains(k) ==> exists|i: int|
                0 <= i < r@.len() && r@[i] == pks@[k],
{
    pks.values().cloned().collect()
}

impl Mkhs {
    /// Aggregate the first `n` signatures (one per signer) into one.
    /// `R` and `S` are the group sums of the inputs' blinding terms in
    /// input order, and the shares are folded by signer identifier: the
    /// first share of an identifier keeps its tag and `Z`, and the
    /// `A` and `C` components of all shares under that identifier are
    /// summed (`folded_share`). The result carries at most one share
    /// per identifier, exactly the identifiers of the folded inputs.
    /// When nothing is folded, the blinding terms are the zero points,
    /// stated as left identities of the group additions (the zeros
    /// admit no closed spec name).
    pub fn eval(&self, sigs: &Vec<Signature>) -> (r: Signature)
        ensures
            distinct_ids(r.lams@),
            spec_take_count(self.n as int, sigs@.len() as int) >= 1 ==> r.big_r == spec_r_total(
                sigs@,
                spec_take_count(self.n as int, sigs@.len() as int),
            ) && r.big_s == spec_s_total(
                sigs@,
                spec_take_count(self.n as int, sigs@.len() as int),
            ),
            spec_take_count(self.n as int, sigs@.len() as int) == 0 ==> (forall|x: G1Elem|
                #[trigger] g1_add_of(r.big_r, x) == x) && (forall|x: G2Elem|
                #[trigger] g2_add_of(r.big_s, x) == x),
            forall|i: int|
                0 <= i < r.lams@.len() ==> folded_share(
                    sigs@,
                    spec_take_count(self.n as int, sigs@.len() as int),
                    #[trigger] r.lams@[i],
                ),
            forall|i: int|
                0 <= i < r.lams@.len() ==> share_from_inputs(
                    sigs@,
                    spec_take_count(self.n as int, sigs@.len() as int),
                    #[trigger] r.lams@[i],
                ),
            forall|si: int, k: int|
                0 <= si < spec_take_count(self.n as int, sigs@.len() as int) && 0 <= k
                    < sigs@[si].lams@.len() ==> has_share_id(
                    r.lams@,
                    (#[trigger] sigs@[si].lams@[k]).client_id,
                ),
    {
        let limit: usize = if self.n < sigs.len() {
            self.n
        } else {
            sigs.len()
        };
        let ghost cnt = spec_take_count(self.n as int, sigs@.len() as int);

        let mut big_r: G1Elem;
        let mut big_s: G2Elem;
        if limit == 0 {
            big_r = g1_zero();
            big_s = g2_zero();
        } else {
            big_r = sigs[0].big_r.clone();
            big_s = sigs[0].big_s.clone();
            let mut sr: usize = 1;
            while sr < limit
                invariant
                    1 <= sr <= limit,
                    limit <= sigs@.len(),
                    big_r == spec_r_total(sigs@, sr as int),
                    big_s == spec_s_total(sigs@, sr as int),
                decreases limit - sr,
            {
                big_r = g1_add(&big_r, &sigs[sr].big_r);
                big_s = g2_add(&big_s, &sigs[sr].big_s);
                sr += 1;
            }
        }

        let mut out: Vec<Lam> = Vec::new();
        let mut si: usize = 0;
        while si < limit
            invariant
                limit <= sigs@.len(),
                cnt == limit as int,
                si <= limit,
                distinct_ids(out@),
                forall|i: int|
                    0 <= i < out@.len() ==> folded_share(sigs@, si as int, #[trigger] out@[i]),
                forall|id: u64|
                    !has_share_id(out@, id) ==> #[trigger] gathered_shares(
                        sigs@,
                        si as int,
                        id,
                    ).len() == 0,
                forall|i: int|
                    0 <= i < out@.len() ==> share_from_inputs(sigs@, si as int, #[trigger] out@[i]),
                forall|s2: int, k2: int|
                    0 <= s2 < si && 0 <= k2 < sigs@[s2].lams@.len() ==> has_share_id(
                        out@,
                        (#[trigger] sigs@[s2].lams@[k2]).client_id,
                    ),
            decreases limit - si,
        {
            proof {
                assert forall|i: int| 0 <= i < out@.len() implies share_from_inputs(
                    sigs@,
                    si + 1,
                    #[trigger] out@[i],
                ) by {
                    lemma_share_monotone(sigs@, si as int, si + 1, out@[i]);
                }
                assert forall|i: int| 0 <= i < out@.len() implies folded_partial(
                    sigs@,
                    si as int,
                    0,
                    #[trigger] out@[i],
                ) by {
                    lemma_partial_at_zero(sigs@, si as int, out@[i].client_id);
                }
                assert forall|id: u64| !has_share_id(out@, id) implies #[trigger] partial_shares(
                    sigs@,
                    si as int,
                    0,
                    id,
                ).len() == 0 by {
                    lemma_partial_at_zero(sigs@, si as int, id);
                }
            }

            let mut k: usize = 0;
            while k < sigs[si].lams.len()
                invariant
                    limit <= sigs@.len(),
                    si < limit,
                    k <= sigs@[si as int].lams@.len(),
                    distinct_ids(out@),
                    forall|i: int|
                        0 <= i < out@.len() ==> folded_partial(
                            sigs@,
                            si as int,
                            k as int,
                            #[trigger] out@[i],
                        ),
                    forall|id: u64|
                        !has_share_id(out@, id) ==> #[trigger] partial_shares(
                            sigs@,
                            si as int,
                            k as int,
                            id,
                        ).len() == 0,
                    forall|i: int|
                        0 <= i < out@.len() ==> share_from_inputs(
                            sigs@,
                            si + 1,
                            #[trigger] out@[i],
                        ),
                    forall|s2: int, k2: int|
                        0 <= s2 < si && 0 <= k2 < sigs@[s2].lams@.len() ==> has_share_id(
                            out@,
                            (#[trigger] sigs@[s2].lams@[k2]).client_id,
                        ),
                    forall|k2: int|
                        0 <= k2 < k ==> has_share_id(
                            out@,
                            (#[trigger] sigs@[si as int].lams@[k2]).client_id,
                        ),
                decreases sigs@[si as int].lams@.len() - k,
            {
                let lam_id = sigs[si].lams[k].client_id;
                let ghost old_out = out@;
                let ghost cur = sigs@[si as int].lams@[k as int];
                match find_lam(&out, lam_id) {
                    Some(j) => {
                        let updated = Lam {
                            client_id: out[j].client_id,
                            sig: out[j].sig.clone(),
                            big_z: out[j].big_z.clone(),
                            big_a: g1_add(&out[j].big_a, &sigs[si].lams[k].big_a),
                            big_c: g1_add(&out[j].big_c, &sigs[si].lams[k].big_c),
                        };
                        out[j] = updated;
                        proof {
                            assert forall|i: int| 0 <= i < out@.len() implies folded_partial(
                                sigs@,
                                si as int,
                                k + 1,
                                #[trigger] out@[i],
                            ) by {
                                lemma_partial_step(sigs@, si as int, k as int, out@[i].client_id);
                                if i == j {
                                    let sh = partial_shares(sigs@, si as int, k as int, lam_id);
                                    lemma_component_sum_push(sh, cur);
                                } else {
                                    assert(out@[i] == old_out[i]);
                                    assert(out@[i].client_id != lam_id);
                                }
                            }
                            assert forall|id: u64| !has_share_id(out@, id) implies
                                #[trigger] partial_shares(sigs@, si as int, k + 1, id).len()
                                == 0 by {
                                lemma_partial_step(sigs@, si as int, k as int, id);
                                assert forall|i: int|
                                    0 <= i < old_out.len() implies (#[trigger] old_out[i]).client_id
                                    != id by {
                                    assert(out@[i].client_id == old_out[i].client_id);
                                }
                                assert(!has_share_id(old_out, id));
                                assert(id != lam_id) by {
                                    assert(out@[j as int].client_id == lam_id);
                                }
                            }
                            assert forall|i: int| 0 <= i < out@.len() implies share_from_inputs(
                                sigs@,
                                si + 1,
                                #[trigger] out@[i],
                            ) by {
                                if i == j {
                                    let (wsi, wk): (int, int) = choose|wsi: int, wk: int|
                                        0 <= wsi < si + 1 && 0 <= wk < sigs@[wsi].lams@.len() && (
                                        #[trigger] sigs@[wsi].lams@[wk]).client_id
                                            == old_out[j as int].client_id
                                            && sigs@[wsi].lams@[wk].sig == old_out[j as int].sig
                                            && sigs@[wsi].lams@[wk].big_z
                                            == old_out[j as int].big_z;
                                    assert(sigs@[wsi].lams@[wk].client_id == out@[i].client_id
                                        && sigs@[wsi].lams@[wk].sig == out@[i].sig
                                        && sigs@[wsi].lams@[wk].big_z == out@[i].big_z);
                                }
                            }
                            assert forall|k2: int| 0 <= k2 < k + 1 implies has_share_id(
                                out@,
                                (#[trigger] sigs@[si as int].lams@[k2]).client_id,
                            ) by {
                                if k2 == k as int {
                                    assert(out@[j as int].client_id == lam_id);
                                } else {
                                    let w = choose|i: int|
                                        0 <= i < old_out.len() && (#[trigger] old_out[i]).client_id
                                            == sigs@[si as int].lams@[k2].client_id;
                                    assert(out@[w].client_id == old_out[w].client_id);
                                }
                            }
                            assert forall|s2: int, k2: int|
                                0 <= s2 < si && 0 <= k2 < sigs@[s2].lams@.len() implies has_share_id(
                                out@,
                                (#[trigger] sigs@[s2].lams@[k2]).client_id,
                            ) by {
                                let w = choose|i: int|
                                    0 <= i < old_out.len() && (#[trigger] old_out[i]).client_id
                                        == sigs@[s2].lams@[k2].client_id;
                                assert(out@[w].client_id == old_out[w].client_id);
                            }
                        }
                    },
                    None => {
                        let seed = sigs[si].lams[k].clone_empty();
                        let fresh = Lam {
                            client_id: seed.client_id,
                            sig: seed.sig,
                            big_z: seed.big_z,
                            big_a: g1_add(&seed.big_a, &sigs[si].lams[k].big_a),
                            big_c: g1_add(&seed.big_c, &sigs[si].lams[k].big_c),
                        };
                        out.push(fresh);
                        proof {
                            assert(out@ == old_out.push(fresh));
                            assert(fresh.big_a == cur.big_a && fresh.big_c == cur.big_c);
                            assert forall|i: int| 0 <= i < out@.len() implies folded_partial(
                                sigs@,
                                si as int,
                                k + 1,
                                #[trigger] out@[i],
                            ) by {
                                lemma_partial_step(sigs@, si as int, k as int, out@[i].client_id);
                                if i == old_out.len() {
                                    let sh = partial_shares(sigs@, si as int, k as int, lam_id);
                                    assert(sh.len() == 0);
                                    lemma_component_sum_push(sh, cur);
                                    assert(sh.push(cur)[0] == cur);
                                } else {
                                    assert(out@[i] == old_out[i]);
                                    assert(out@[i].client_id != lam_id);
                                }
                            }
                            assert forall|id: u64| !has_share_id(out@, id) implies
                                #[trigger] partial_shares(sigs@, si as int, k + 1, id).len()
                                == 0 by {
                                lemma_partial_step(sigs@, si as int, k as int, id);
                                assert forall|i: int|
                                    0 <= i < old_out.len() implies (#[trigger] old_out[i]).client_id
                                    != id by {
                                    assert(out@[i] == old_out[i]);
                                }
                                assert(!has_share_id(old_out, id));
                                assert(id != lam_id) by {
                                    assert(out@[old_out.len() as int].client_id == lam_id);
                                }
                            }
                            assert(share_from_inputs(sigs@, si + 1, fresh)) by {
                                assert(0 <= si < si + 1 && 0 <= k
                                    < sigs@[si as int].lams@.len() && sigs@[si as int].lams@[
                                    k as int].client_id == fresh.client_id && sigs@[si as int].lams@[
                                    k as int].sig == fresh.sig && sigs@[si as int].lams@[
                                    k as int].big_z == fresh.big_z);
                            }
                            assert forall|k2: int| 0 <= k2 < k + 1 implies has_share_id(
                                out@,
                                (#[trigger] sigs@[si as int].lams@[k2]).client_id,
                            ) by {
                                if k2 == k as int {
                                    assert(out@[old_out.len() as int].client_id == lam_id);
                                } else {
                                    let w = choose|i: int|
                                        0 <= i < old_out.len() && (#[trigger] old_out[i]).client_id
                                            == sigs@[si as int].lams@[k2].client_id;
                                    assert(out@[w].client_id == old_out[w].client_id);
                                }
                            }
                            assert forall|s2: int, k2: int|
                                0 <= s2 < si && 0 <= k2 < sigs@[s2].lams@.len() implies has_share_id(
                                out@,
                                (#[trigger] sigs@[s2].lams@[k2]).client_id,
                            ) by {
                                let w = choose|i: int|
                                    0 <= i < old_out.len() && (#[trigger] old_out[i]).client_id
                                        == sigs@[s2].lams@[k2].client_id;
                                assert(out@[w].client_id == old_out[w].client_id);
                            }
                        }
                    },
                }
                k += 1;
            }
            proof {
                assert forall|i: int| 0 <= i < out@.len() implies folded_share(
                    sigs@,
                    si + 1,
                    #[trigger] out@[i],
                ) by {
                    lemma_partial_at_end(sigs@, si as int, out@[i].client_id);
                }
                assert forall|id: u64| !has_share_id(out@, id) implies #[trigger] gathered_shares(
                    sigs@,
                    si + 1,
                    id,
                ).len() == 0 by {
                    lemma_partial_at_end(sigs@, si as int, id);
                }
            }
            si += 1;
        }
        Signature { lams: out, big_r, big_s }
    }

    /// Verify an aggregated signature against the public keys of its
    /// signers and the claimed message row. The acceptance condition is
    /// exact (`spec_verify_ok`) whenever there is at least one share
    /// and one message coordinate: every share's identifier must have a
    /// public key — a missing key always fails — every share's Ed25519
    /// tag must verify, and the two pairing equalities must agree, both
    /// holding or both failing (`checks_agree`). The first equality
    /// compares accumulators folded from the target field's absorbing
    /// zero, exactly as the protocol prescribes.
    pub fn verify(
        &self,
        pks: &HashMap<u64, PK>,
        messages: &Vec<FrElem>,
        signature: &Signature,
    ) -> (res: Result<(), ViperError>)
        requires
            self.wf(),
            messages@.len() <= self.t,
            forall|k: u64| #[trigger] pks@.dom().contains(k) ==> pks@[k].wf(),
        ensures
            res is Ok ==> forall|i: int|
                0 <= i < signature.lams@.len() ==> pks@.dom().contains(
                    (#[trigger] signature.lams@[i]).client_id,
                ),
            res is Ok ==> tags_all_valid(signature.lams@, pks@),
            signature.lams@.len() >= 1 && messages@.len() >= 1 ==> (res is Ok
                <==> spec_verify_ok(*self, pks@, messages@, *signature)),
            res is Err ==> res == Err::<(), ViperError>(ViperError::SignatureVerifyFailure),
    {
        // Tag phase: each share needs a known key and a valid tag.
        let mut i: usize = 0;
        while i < signature.lams.len()
            invariant
                forall|j: int|
                    0 <= j < i ==> {
                        let lam = #[trigger] signature.lams@[j];
                        pks@.dom().contains(lam.client_id) && ed_verify_of(
                            pks@[lam.client_id].pk_sig,
                            g2_sha256_of(lam.big_z),
                            lam.sig,
                        )
                    },
            decreases signature.lams@.len() - i,
        {
            let lam = &signature.lams[i];
            match pks.get(&lam.client_id) {
                None => {
                    return Err(ViperError::SignatureVerifyFailure);
                },
                Some(pk) => {
                    let tag_bytes = g2_hash_sha256(&lam.big_z);
                    if !ed_verify(&pk.pk_sig, &tag_bytes, &lam.sig) {
                        return Err(ViperError::SignatureVerifyFailure);
                    }
                },
            }
            i += 1;
        }
        proof {
            assert(tags_all_valid(signature.lams@, pks@));
        }

        // Pairing phase: accumulate the equation sides over the shares.
        // The target-group accumulators start from the absorbing zero
        // and provably stay there; the C total is a genuine group sum.
        let az_seed = gt_default();
        proof {
            lemma_gt_absorber_unique(az_seed);
        }
        let mut az = az_seed;
        let cy_seed = gt_default();
        proof {
            lemma_gt_absorber_unique(cy_seed);
        }
        let mut cy = cy_seed;
        let mut c_tot = g1_zero();
        let ghost c_zero = c_tot;
        let mut j: usize = 0;
        while j < signature.lams.len()
            invariant
                tags_all_valid(signature.lams@, pks@),
                j <= signature.lams@.len(),
                az == gt_absorber(),
                is_gt_absorber(gt_absorber()),
                cy == gt_absorber(),
                j == 0 ==> c_tot == c_zero,
                forall|x: G1Elem| #[trigger] g1_add_of(c_zero, x) == x,
                j >= 1 ==> c_tot == spec_c_tot(signature.lams@, j as int),
            decreases signature.lams@.len() - j,
        {
            let lam = &signature.lams[j];
            az = gt_add(&az, &pairing(&lam.big_a, &lam.big_z));
            match pks.get(&lam.client_id) {
                Some(pk) => {
                    cy = gt_add(&cy, &pairing(&lam.big_c, &pk.big_y));
                },
                None => {
                    proof {
                        assert(pks@.dom().contains(signature.lams@[j as int].client_id));
                        assert(false);
                    }
                    return Err(ViperError::SignatureVerifyFailure);
                },
            }
            c_tot = g1_add(&c_tot, &lam.big_c);
            j += 1;
        }

        let r_pair = pairing(&signature.big_r, &self.g2);
        let s_pair = pairing(&self.g1, &signature.big_s);

        // The tag-scale term sums the first exponent element of every
        // known public key; folded from the absorbing zero it stays
        // that zero whatever the iteration order.
        let tags_seed = gt_default();
        proof {
            lemma_gt_absorber_unique(tags_seed);
        }
        let mut tags = tags_seed;
        let vals = pk_values(pks);
        let mut v: usize = 0;
        while v < vals.len()
            invariant
                forall|k: u64| #[trigger] pks@.dom().contains(k) ==> pks@[k].wf(),
                forall|i2: int| 0 <= i2 < vals@.len() ==> is_value_of(pks@, #[trigger] vals@[i2]),
                tags == gt_absorber(),
                is_gt_absorber(gt_absorber()),
            decreases vals@.len() - v,
        {
            proof {
                let k = choose|k: u64| #[trigger] pks@.dom().contains(k) && pks@[k] == vals@[
                    v as int];
                assert(vals@[v as int].wf());
            }
            tags = gt_add(&tags, &vals[v].hs[0]);
            v += 1;
        }

        let mut msg_part = g1_zero();
        let ghost m_zero = msg_part;
        let mut m: usize = 0;
        while m < messages.len()
            invariant
                self.wf(),
                messages@.len() <= self.t,
                m <= messages@.len(),
                m == 0 ==> msg_part == m_zero,
                forall|x: G1Elem| #[trigger] g1_add_of(m_zero, x) == x,
                m >= 1 ==> msg_part == spec_msg_part(self.big_hs@, messages@, m as int),
            decreases messages@.len() - m,
        {
            msg_part = g1_add(&msg_part, &g1_mul(&self.big_hs[m], &messages[m]));
            m += 1;
        }

        let p2 = gt_add(&gt_add(&tags, &cy), &r_pair);
        let p3 = gt_add(&s_pair, &pairing(&c_tot, &self.g2));
        let p4 = pairing(&msg_part, &self.g2);

        let e1 = gt_eq(&az, &p2);
        let e2 = gt_eq(&p3, &p4);

        proof {
            assert(p2 == spec_p2(*self, *signature));
            if signature.lams@.len() >= 1 && messages@.len() >= 1 {
                assert(p3 == spec_p3(*self, *signature));
                assert(p4 == spec_p4(*self, messages@));
            }
        }
        if checks_agree(e1, e2) {
            Ok(())
        } else {
            Err(ViperError::SignatureVerifyFailure)
        }
    }
}

/// An element-exact copy of a vector of shares.
fn clone_lam_vec(v: &Vec<Lam>) -> (r: Vec<Lam>)
    ensures
        r@ == v@,
{
    let mut out: Vec<Lam> = Vec::new();
    let mut i: usize = 0;
    while i < v.len()
        invariant
            i <= v@.len(),
            out@ == v@.take(i as int),
        decreases v@.len() - i,
    {
        out.push(v[i].clone());
        proof {
            assert(v@.take(i + 1) =~= v@.take(i as int).push(v@[i as int]));
        }
        i += 1;
    }
    proof {
        assert(v@.take(v@.len() as int) =~= v@);
    }
    out
}

/// An element-exact copy of a vector of field elements.
fn clone_fr_vec(v: &Vec<FrElem>) -> (r: Vec<FrElem>)
    ensures
        r@ == v@,
{
    let mut out: Vec<FrElem> = Vec::new();
    let mut i: usize = 0;
    while i < v.len()
        invariant
            i <= v@.len(),
            out@ == v@.take(i as int),
        decreases v@.len() - i,
    {
        out.push(v[i].clone());
        proof {
            assert(v@.take(i + 1) =~= v@.take(i as int).push(v@[i as int]));
        }
        i += 1;
    }
    proof {
        assert(v@.take(v@.len() as int) =~= v@);
    }
    out
}

/// An element-exact copy of a vector of target-group elements.
fn clone_gt_vec(v: &Vec<GtElem>) -> (r: Vec<GtElem>)
    ensures
        r@ == v@,
{
    let mut out: Vec<GtElem> = Vec::new();
    let mut i: usize = 0;
    while i < v.len()
        invariant
            i <= v@.len(),
            out@ == v@.take(i as int),
        decreases v@.len() - i,
    {
        out.push(v[i].clone());
        proof {
            assert(v@.take(i + 1) =~= v@.take(i as int).push(v@[i as int]));
        }
        i += 1;
    }
    proof {
        assert(v@.take(v@.len() as int) =~= v@);
    }
    out
}

} // verus!
