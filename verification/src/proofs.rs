//! Fiat-Shamir proofs of knowledge of a discrete logarithm.
//!
//! The prover shows it knows `x` with `X == G * x`.  The challenge comes
//! from a forked transcript, so a proof binds to the protocol run, the
//! sub-protocol label, and the sender the fork was labeled with.  The
//! transcript state is opaque; the verification equation itself is checked
//! by a verified function with an exact contract, applied to whatever
//! challenge the transcript yields.

use vstd::prelude::*;

use crate::commit::vec_of_bytes33;
use crate::curve::CurvePoint;
use crate::curve::CurveScalar;
use crate::curve::g_mul;
use crate::curve::g_mul_bytes;
use crate::curve::pt_add;
use crate::curve::pt_add_bytes;
use crate::curve::pt_mul;
use crate::curve::pt_mul_bytes;
use crate::curve::rng_scalar;
use crate::curve::sc_add;
use crate::curve::sc_add_bytes;
use crate::curve::sc_mul;
use crate::curve::sc_mul_bytes;
use crate::curve::transcript_challenge_scalar;
use crate::transcript::transcript_message;

verus! {

/// A proof of knowledge of a discrete logarithm: the prover's nonce
/// commitment `K = G * k` and the response `s = k + e * x` for the
/// transcript challenge `e`.
#[derive(Clone, Copy)]
pub struct DlogProof {
    pub big_k: CurvePoint,
    pub s: CurveScalar,
}

/// Proves knowledge of the discrete log `witness` of `public`, binding the
/// proof to the given forked transcript.  The nonce comes from the
/// caller's byte stream.
pub fn dlog_prove(
    t: &mut magikitten::Transcript,
    rng: &mut magikitten::MeowRng,
    public: &CurvePoint,
    witness: &CurveScalar,
) -> (r: DlogProof)
    ensures
        exists|k: Seq<u8>, e: Seq<u8>|
            r.big_k@ == g_mul_bytes(k) && r.s@ == sc_add_bytes(k, sc_mul_bytes(e, witness@)),
{
    let public_bytes = public.to_bytes();
    transcript_message(t, "dlog public", &vec_of_bytes33(&public_bytes));
    let k = rng_scalar(rng);
    let big_k = g_mul(&k);
    let big_k_bytes = big_k.to_bytes();
    transcript_message(t, "dlog commitment", &vec_of_bytes33(&big_k_bytes));
    let e = transcript_challenge_scalar(t);
    let s = sc_add(&k, &sc_mul(&e, witness));
    let r = DlogProof { big_k, s };
    proof {
        assert(r.big_k@ == g_mul_bytes(k@) && r.s@ == sc_add_bytes(
            k@,
            sc_mul_bytes(e@, witness@),
        ));
    }
    r
}

/// The Schnorr verification equation: whether
/// `G * s == K + public * e` holds for the given challenge.
pub fn dlog_check_equation(public: &CurvePoint, proof: &DlogProof, e: &CurveScalar) -> (r: bool)
    ensures
        r == (g_mul_bytes(proof.s@) == pt_add_bytes(
            proof.big_k@,
            pt_mul_bytes(public@, e@),
        )),
{
    let lhs = g_mul(&proof.s);
    let rhs = pt_add(&proof.big_k, &pt_mul(public, e));
    lhs.equals(&rhs)
}

/// Verifies a proof against the given forked transcript: absorbs the
/// statement and the nonce commitment exactly as the prover did, then
/// checks the verification equation under whatever challenge the
/// transcript yields.
pub fn dlog_verify(
    t: &mut magikitten::Transcript,
    public: &CurvePoint,
    proof: &DlogProof,
) -> (r: bool)
    ensures
        exists|e: Seq<u8>|
            r == (g_mul_bytes(proof.s@) == pt_add_bytes(proof.big_k@, pt_mul_bytes(public@, e))),
{
    let public_bytes = public.to_bytes();
    transcript_message(t, "dlog public", &vec_of_bytes33(&public_bytes));
    let big_k_bytes = proof.big_k.to_bytes();
    transcript_message(t, "dlog commitment", &vec_of_bytes33(&big_k_bytes));
    let e = transcript_challenge_scalar(t);
    let r = dlog_check_equation(public, proof, &e);
    proof {
        assert(r == (g_mul_bytes(proof.s@) == pt_add_bytes(
            proof.big_k@,
            pt_mul_bytes(public@, e@),
        )));
    }
    r
}

} // verus!
