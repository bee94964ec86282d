//! Trusted boundary to the BLS12-381 pairing library, the Ed25519
//! signature library, and their randomness.
//!
//! Each element type holds one outside value and stays opaque; each
//! function wraps exactly one outside operation. The deterministic
//! operations are given uninterpreted names (`pairing_of`, `g1_add_of`,
//! ...), so the scheme's contracts can speak of the values they build;
//! nothing is assumed of random draws, and only what the outside
//! sources plainly give is stated of each call.

use vstd::prelude::*;
use ark_bls12_381::{Bls12_381, Fr, G1Projective, G2Projective};
use ark_ec::pairing::{Pairing, PairingOutput};
use ark_ec::Group;
use ark_ff::Field;
use ark_serialize::CanonicalSerializeHashExt;
use ark_std::UniformRand;
use ed25519_dalek::{Signer, Verifier};

verus! {

/// An element of the BLS12-381 scalar field; holds the outside value.
#[verifier::external_body]
pub struct FrElem {
    inner: Fr,
}

/// A point of the BLS12-381 group G1; holds the outside value.
#[verifier::external_body]
pub struct G1Elem {
    inner: G1Projective,
}

/// A point of the BLS12-381 group G2; holds the outside value.
#[verifier::external_body]
pub struct G2Elem {
    inner: G2Projective,
}

/// An element of the pairing's target group; holds the outside value.
#[verifier::external_body]
pub struct GtElem {
    inner: PairingOutput<Bls12_381>,
}

/// An Ed25519 signature; holds the outside value.
#[verifier::external_body]
pub struct EdSig {
    inner: ed25519_dalek::Signature,
}

/// An Ed25519 signing key; holds the outside value.
#[verifier::external_body]
pub struct EdSigningKey {
    inner: ed25519_dalek::SigningKey,
}

/// An Ed25519 verifying key; holds the outside value.
#[verifier::external_body]
pub struct EdVerifyingKey {
    inner: ed25519_dalek::VerifyingKey,
}


/// What the bilinear pairing returns, a function of its two points.
pub uninterp spec fn pairing_of(a: G1Elem, b: G2Elem) -> GtElem;

/// What G1 point addition returns.
pub uninterp spec fn g1_add_of(a: G1Elem, b: G1Elem) -> G1Elem;

/// What G2 point addition returns.
pub uninterp spec fn g2_add_of(a: G2Elem, b: G2Elem) -> G2Elem;

/// What the target-group operation returns (a product of the
/// underlying field values, written additively by the library).
pub uninterp spec fn gt_add_of(a: GtElem, b: GtElem) -> GtElem;

/// What G1 scalar multiplication returns.
pub uninterp spec fn g1_mul_of(p: G1Elem, s: FrElem) -> G1Elem;

/// What G2 scalar multiplication returns.
pub uninterp spec fn g2_mul_of(p: G2Elem, s: FrElem) -> G2Elem;

/// What target-group scalar multiplication returns.
pub uninterp spec fn gt_mul_of(t: GtElem, s: FrElem) -> GtElem;

/// The field element standing for a machine integer (`Fr::from`).
pub uninterp spec fn fr_of_u64(k: u64) -> FrElem;

/// What Fr addition returns.
pub uninterp spec fn fr_add_of(a: FrElem, b: FrElem) -> FrElem;

/// What Fr subtraction returns.
pub uninterp spec fn fr_sub_of(a: FrElem, b: FrElem) -> FrElem;

/// What Fr negation returns.
pub uninterp spec fn fr_neg_of(a: FrElem) -> FrElem;

/// What Fr inversion returns on an invertible element.
pub uninterp spec fn fr_inv_of(a: FrElem) -> FrElem;

/// The SHA-256 digest of a G2 point's compressed serialization.
pub uninterp spec fn g2_sha256_of(p: G2Elem) -> Seq<u8>;

/// What Ed25519 signing returns: the scheme is deterministic, so the
/// signature is a function of the key and the message bytes.
pub uninterp spec fn ed_sign_of(sk: EdSigningKey, msg: Seq<u8>) -> EdSig;

/// Whether an Ed25519 signature verifies for a message under a key.
pub uninterp spec fn ed_verify_of(vk: EdVerifyingKey, msg: Seq<u8>, sig: EdSig) -> bool;

/// The verifying key derived from a signing key.
pub uninterp spec fn ed_pk_of(sk: EdSigningKey) -> EdVerifyingKey;

/// `z` swallows every operand of the target-group operation: the
/// underlying field value of `z` is the field zero, and a product with
/// zero is zero. The protocol's pairing accumulators start from such a
/// value on purpose.
pub open spec fn is_gt_absorber(z: GtElem) -> bool {
    &&& forall|x: GtElem| #[trigger] gt_add_of(z, x) == z
    &&& forall|x: GtElem| #[trigger] gt_add_of(x, z) == z
}

/// The absorbing element of the target-group operation. It is unique
/// (`lemma_gt_absorber_unique`), so this names the value that
/// `gt_default` returns.
pub open spec fn gt_absorber() -> GtElem {
    choose|z: GtElem| is_gt_absorber(z)
}

/// Two absorbing elements swallow each other, so they are equal; in
/// particular every absorbing element is `gt_absorber()`.
pub proof fn lemma_gt_absorber_unique(z: GtElem)
    requires
        is_gt_absorber(z),
    ensures
        z == gt_absorber(),
        is_gt_absorber(gt_absorber()),
{
    assert(is_gt_absorber(gt_absorber())) by {
        assert(exists|q: GtElem| is_gt_absorber(q));
    }
    let w = gt_absorber();
    assert(gt_add_of(z, w) == z);
    assert(gt_add_of(z, w) == w);
}

impl Clone for FrElem {
    /// Relies on the Copy-ness of ark's field elements: an exact copy.
    #[verifier::external_body]
    fn clone(&self) -> (r: Self)
        ensures
            r == *self,
    {
        FrElem { inner: self.inner }
    }
}

impl Clone for G1Elem {
    /// Relies on the Copy-ness of ark's projective points: an exact copy.
    #[verifier::external_body]
    fn clone(&self) -> (r: Self)
        ensures
            r == *self,
    {
        G1Elem { inner: self.inner }
    }
}

impl Clone for G2Elem {
    /// Relies on the Copy-ness of ark's projective points: an exact copy.
    #[verifier::external_body]
    fn clone(&self) -> (r: Self)
        ensures
            r == *self,
    {
        G2Elem { inner: self.inner }
    }
}

impl Clone for GtElem {
    /// Relies on the Copy-ness of ark's pairing outputs: an exact copy.
    #[verifier::external_body]
    fn clone(&self) -> (r: Self)
        ensures
            r == *self,
    {
        GtElem { inner: self.inner }
    }
}

impl Clone for EdSig {
    /// Relies on the Copy-ness of ed25519_dalek's Signature: an exact copy.
    #[verifier::external_body]
    fn clone(&self) -> (r: Self)
        ensures
            r == *self,
    {
        EdSig { inner: self.inner }
    }
}

impl Clone for EdSigningKey {
    /// Relies on ed25519_dalek's derived Clone for SigningKey: an exact copy.
    #[verifier::external_body]
    fn clone(&self) -> (r: Self)
        ensures
            r == *self,
    {
        EdSigningKey { inner: self.inner.clone() }
    }
}

impl Clone for EdVerifyingKey {
    /// Relies on the Copy-ness of ed25519_dalek's VerifyingKey: an exact copy.
    #[verifier::external_body]
    fn clone(&self) -> (r: Self)
        ensures
            r == *self,
    {
        EdVerifyingKey { inner: self.inner }
    }
}

/// Relies on ark_ec's Group::generator for G1: the fixed generator.
#[verifier::external_body]
pub fn g1_generator() -> (r: G1Elem) {
    G1Elem { inner: G1Projective::generator() }
}

/// Relies on ark_ec's Group::generator for G2: the fixed generator.
#[verifier::external_body]
pub fn g2_generator() -> (r: G2Elem) {
    G2Elem { inner: G2Projective::generator() }
}

/// Relies on Projective::default for G1: the point at infinity, whose
/// addition copies the other operand exactly (the zero shortcut in the
/// library's add), so the result is a left identity. It is not claimed
/// as a right identity: a projective zero has many representations and
/// adding one on the right yields this one, not the operand.
#[verifier::external_body]
pub fn g1_zero() -> (r: G1Elem)
    ensures
        forall|x: G1Elem| #[trigger] g1_add_of(r, x) == x,
{
    G1Elem { inner: G1Projective::default() }
}

/// Relies on Projective::default for G2: the point at infinity, a left
/// identity of the addition exactly as for G1.
#[verifier::external_body]
pub fn g2_zero() -> (r: G2Elem)
    ensures
        forall|x: G2Elem| #[trigger] g2_add_of(r, x) == x,
{
    G2Elem { inner: G2Projective::default() }
}

/// Relies on PairingOutput::default: the zero of the underlying target
/// field. This is not the pairing group's identity (that is the field
/// one); since the written-additive operation multiplies the underlying
/// field values and the zero representation is canonical, the value
/// absorbs on both sides. The protocol's pairing-equation accumulators
/// deliberately start from it.
#[verifier::external_body]
pub fn gt_default() -> (r: GtElem)
    ensures
        is_gt_absorber(r),
{
    GtElem { inner: PairingOutput::default() }
}

/// Relies on the bilinear pairing of BLS12-381, a function of its two
/// points; its internal unwrap cannot fail on genuine group elements.
#[verifier::external_body]
pub fn pairing(a: &G1Elem, b: &G2Elem) -> (r: GtElem)
    ensures
        r == pairing_of(*a, *b),
{
    GtElem { inner: Bls12_381::pairing(a.inner, b.inner) }
}

/// Relies on G1 point addition, a function of its two points.
#[verifier::external_body]
pub fn g1_add(a: &G1Elem, b: &G1Elem) -> (r: G1Elem)
    ensures
        r == g1_add_of(*a, *b),
{
    G1Elem { inner: a.inner + b.inner }
}

/// Relies on G2 point addition, a function of its two points.
#[verifier::external_body]
pub fn g2_add(a: &G2Elem, b: &G2Elem) -> (r: G2Elem)
    ensures
        r == g2_add_of(*a, *b),
{
    G2Elem { inner: a.inner + b.inner }
}

/// Relies on the target-group operation (written additively by the
/// pairing library; it multiplies the underlying field values), a
/// function of its two operands.
#[verifier::external_body]
pub fn gt_add(a: &GtElem, b: &GtElem) -> (r: GtElem)
    ensures
        r == gt_add_of(*a, *b),
{
    GtElem { inner: a.inner + b.inner }
}

/// Relies on G1 scalar multiplication, a function of point and scalar.
#[verifier::external_body]
pub fn g1_mul(p: &G1Elem, s: &FrElem) -> (r: G1Elem)
    ensures
        r == g1_mul_of(*p, *s),
{
    G1Elem { inner: p.inner * s.inner }
}

/// Relies on G2 scalar multiplication, a function of point and scalar.
#[verifier::external_body]
pub fn g2_mul(p: &G2Elem, s: &FrElem) -> (r: G2Elem)
    ensures
        r == g2_mul_of(*p, *s),
{
    G2Elem { inner: p.inner * s.inner }
}

/// Relies on target-group scalar multiplication, a function of its
/// operands.
#[verifier::external_body]
pub fn gt_mul(t: &GtElem, s: &FrElem) -> (r: GtElem)
    ensures
        r == gt_mul_of(*t, *s),
{
    GtElem { inner: t.inner * s.inner }
}

/// Relies on the equality of pairing outputs: the derived comparison of
/// canonical field representations, which agrees with value equality.
#[verifier::external_body]
pub fn gt_eq(a: &GtElem, b: &GtElem) -> (r: bool)
    ensures
        r == (a == b),
{
    a.inner == b.inner
}

/// Relies on Fr's conversion from u64, which reduces modulo the
/// ~2^255 field order; a function of the integer.
#[verifier::external_body]
pub fn fr_from_u64(k: u64) -> (r: FrElem)
    ensures
        r == fr_of_u64(k),
{
    FrElem { inner: Fr::from(k) }
}

/// Relies on Fr addition, a function of its two operands.
#[verifier::external_body]
pub fn fr_add(a: &FrElem, b: &FrElem) -> (r: FrElem)
    ensures
        r == fr_add_of(*a, *b),
{
    FrElem { inner: a.inner + b.inner }
}

/// Relies on Fr subtraction, a function of its two operands.
#[verifier::external_body]
pub fn fr_sub(a: &FrElem, b: &FrElem) -> (r: FrElem)
    ensures
        r == fr_sub_of(*a, *b),
{
    FrElem { inner: a.inner - b.inner }
}

/// Relies on Fr negation, a function of its operand.
#[verifier::external_body]
pub fn fr_neg(a: &FrElem) -> (r: FrElem)
    ensures
        r == fr_neg_of(*a),
{
    FrElem { inner: -a.inner }
}

/// Relies on Fr::from (a u64 is far below the field order, so exactly 0
/// maps to the zero element) and Field::inverse (None exactly on zero,
/// a function of the element): the inverse of the field element
/// standing for `k`.
#[verifier::external_body]
pub fn fr_inverse_of_id(k: u64) -> (r: Option<FrElem>)
    ensures
        r is Some <==> k != 0,
        r matches Some(v) ==> v == fr_inv_of(fr_of_u64(k)),
{
    Fr::from(k).inverse().map(|v| FrElem { inner: v })
}

/// Relies on ark_std's UniformRand for Fr with a thread-local
/// cryptographic generator; nothing is assumed of the value.
#[verifier::external_body]
pub fn fr_rand() -> (r: FrElem) {
    FrElem { inner: Fr::rand(&mut rand::thread_rng()) }
}

/// Relies on ark_std's UniformRand for G1 with a thread-local
/// cryptographic generator; nothing is assumed of the value.
#[verifier::external_body]
pub fn g1_rand() -> (r: G1Elem) {
    G1Elem { inner: G1Projective::rand(&mut rand::thread_rng()) }
}

/// Relies on ed25519_dalek's SigningKey::generate with a thread-local
/// cryptographic generator.
#[verifier::external_body]
pub fn ed_generate() -> (r: EdSigningKey) {
    EdSigningKey { inner: ed25519_dalek::SigningKey::generate(&mut rand::thread_rng()) }
}

/// Relies on SigningKey::verifying_key: the public half of the key, a
/// function of the signing key.
#[verifier::external_body]
pub fn ed_verifying_key(sk: &EdSigningKey) -> (r: EdVerifyingKey)
    ensures
        r == ed_pk_of(*sk),
{
    EdVerifyingKey { inner: sk.inner.verifying_key() }
}

/// Relies on ed25519_dalek's Signer::sign over the message bytes;
/// Ed25519 signing is deterministic, a function of key and message.
#[verifier::external_body]
pub fn ed_sign(sk: &EdSigningKey, msg: &Vec<u8>) -> (r: EdSig)
    ensures
        r == ed_sign_of(*sk, msg@),
{
    EdSig { inner: sk.inner.sign(msg.as_slice()) }
}

/// Relies on ed25519_dalek's Verifier::verify: true exactly when the
/// signature verifies for the message under the key, a function of the
/// three arguments.
#[verifier::external_body]
pub fn ed_verify(vk: &EdVerifyingKey, msg: &Vec<u8>, sig: &EdSig) -> (r: bool)
    ensures
        r == ed_verify_of(*vk, msg@, *sig),
{
    vk.inner.verify(msg.as_slice(), &sig.inner).is_ok()
}

/// Relies on ark_serialize's CanonicalSerializeHashExt::hash with
/// SHA-256: the digest of the point's compressed serialization, a
/// function of the point alone.
#[verifier::external_body]
pub fn g2_hash_sha256(p: &G2Elem) -> (r: Vec<u8>)
    ensures
        r@ == g2_sha256_of(*p),
{
    p.inner.hash::<sha2::Sha256>().to_vec()
}

} // verus!
