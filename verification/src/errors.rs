use vstd::prelude::*;

verus! {

/// The failure kinds of the protocol core.
///
/// `CommitmentOpenFailure`: a commitment did not open under the claimed
/// value and blinding. `SignatureVerifyFailure`: a tag signature failed,
/// a public key was missing, or the pairing equations disagreed.
/// `DlogExhaustion`: the discrete-log solver ran out of restarts.
/// `InvariantViolation`: a required modular inverse does not exist,
/// which means the inputs lie outside the protocol's domain.
#[derive(Clone, Copy, Debug, PartialEq, Eq, Structural)]
pub enum ViperError {
    CommitmentOpenFailure,
    SignatureVerifyFailure,
    DlogExhaustion,
    InvariantViolation,
}

} // verus!
