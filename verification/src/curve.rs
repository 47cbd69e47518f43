//! Scalar-field and curve-group values, modeled by their canonical byte
//! encodings.
//!
//! Each value carries the opaque field or group element beside its
//! canonical encoding; every contract speaks only of the bytes.  The
//! arithmetic itself is the curve library's: each operation is a trusted
//! wrapper whose result is named as a function of the operands' encodings,
//! which is sound because the encodings determine the elements.

use vstd::prelude::*;

verus! {

#[verifier::external_type_specification]
#[verifier::external_body]
pub struct ExK256Scalar(k256::Scalar);

#[verifier::external_type_specification]
#[verifier::external_body]
pub struct ExK256Projective(k256::ProjectivePoint);

#[verifier::external_type_specification]
#[verifier::external_body]
pub struct ExMeowRng(magikitten::MeowRng);

/// The all-zero 32-byte string: the canonical encoding of the zero scalar.
pub open spec fn zero32() -> Seq<u8> {
    Seq::new(32, |i: int| 0u8)
}

/// The canonical encoding of the scalar `x` reduced into the field.
pub uninterp spec fn sc_from_u64_bytes(x: u64) -> Seq<u8>;

/// The canonical encoding of the sum of the scalars encoded by `a` and `b`.
pub uninterp spec fn sc_add_bytes(a: Seq<u8>, b: Seq<u8>) -> Seq<u8>;

/// The canonical encoding of the difference of the scalars `a` and `b`.
pub uninterp spec fn sc_sub_bytes(a: Seq<u8>, b: Seq<u8>) -> Seq<u8>;

/// The canonical encoding of the product of the scalars `a` and `b`.
pub uninterp spec fn sc_mul_bytes(a: Seq<u8>, b: Seq<u8>) -> Seq<u8>;

/// The canonical encoding of the inverse of the nonzero scalar `a`.
pub uninterp spec fn sc_inv_bytes(a: Seq<u8>) -> Seq<u8>;

/// The compressed encoding of the generator times the scalar `s`.
pub uninterp spec fn g_mul_bytes(s: Seq<u8>) -> Seq<u8>;

/// The compressed encoding of the sum of the points `a` and `b`.
pub uninterp spec fn pt_add_bytes(a: Seq<u8>, b: Seq<u8>) -> Seq<u8>;

/// The compressed encoding of the point `p` times the scalar `s`.
pub uninterp spec fn pt_mul_bytes(p: Seq<u8>, s: Seq<u8>) -> Seq<u8>;

/// A scalar-field element, carried beside its canonical 32-byte encoding.
#[derive(Clone, Copy)]
pub struct CurveScalar {
    raw: k256::Scalar,
    bytes: [u8; 32],
}

impl View for CurveScalar {
    type V = Seq<u8>;

    closed spec fn view(&self) -> Seq<u8> {
        self.bytes@
    }
}

/// A curve point, carried beside its canonical 33-byte compressed encoding
/// (all zeros for the identity).
#[derive(Clone, Copy)]
pub struct CurvePoint {
    raw: k256::ProjectivePoint,
    bytes: [u8; 33],
}

impl View for CurvePoint {
    type V = Seq<u8>;

    closed spec fn view(&self) -> Seq<u8> {
        self.bytes@
    }
}

/// Whether two 32-byte buffers hold the same bytes.
fn bytes32_eq(a: &[u8; 32], b: &[u8; 32]) -> (r: bool)
    ensures
        r == (a@ == b@),
{
    let mut i: usize = 0;
    while i < 32
        invariant
            i <= 32,
            forall|k: int| 0 <= k < i ==> a@[k] == b@[k],
        decreases 32 - i,
    {
        if a[i] != b[i] {
            return false;
        }
        i += 1;
    }
    proof {
        assert(a@ =~= b@);
    }
    true
}

/// Whether two 33-byte buffers hold the same bytes.
fn bytes33_eq(a: &[u8; 33], b: &[u8; 33]) -> (r: bool)
    ensures
        r == (a@ == b@),
{
    let mut i: usize = 0;
    while i < 33
        invariant
            i <= 33,
            forall|k: int| 0 <= k < i ==> a@[k] == b@[k],
        decreases 33 - i,
    {
        if a[i] != b[i] {
            return false;
        }
        i += 1;
    }
    proof {
        assert(a@ =~= b@);
    }
    true
}

impl CurveScalar {
    /// The canonical 32-byte encoding.
    pub fn to_bytes(&self) -> (r: [u8; 32])
        ensures
            r@ == self@,
    {
        self.bytes
    }

    /// Whether the two scalars are equal, by their canonical encodings.
    pub fn equals(&self, other: &CurveScalar) -> (r: bool)
        ensures
            r == (self@ == other@),
    {
        bytes32_eq(&self.bytes, &other.bytes)
    }
}

impl CurvePoint {
    /// The canonical 33-byte compressed encoding.
    pub fn to_bytes(&self) -> (r: [u8; 33])
        ensures
            r@ == self@,
    {
        self.bytes
    }

    /// Whether the two points are equal, by their canonical encodings.
    pub fn equals(&self, other: &CurvePoint) -> (r: bool)
        ensures
            r == (self@ == other@),
    {
        bytes33_eq(&self.bytes, &other.bytes)
    }
}

/// The zero scalar.
///
/// Relies on `k256::Scalar::ZERO`, whose canonical encoding `to_bytes` is
/// the all-zero buffer.
#[verifier::external_body]
pub(crate) fn sc_zero() -> (r: CurveScalar)
    ensures
        r@ == zero32(),
{
    let raw = <k256::Scalar as k256::elliptic_curve::Field>::ZERO;
    CurveScalar { raw, bytes: raw.to_bytes().into() }
}

/// The scalar `x`.
///
/// Relies on `k256::Scalar::from(u64)`: the scalar, and so its canonical
/// encoding, is a function of `x` alone.
#[verifier::external_body]
pub(crate) fn sc_from_u64(x: u64) -> (r: CurveScalar)
    ensures
        r@ == sc_from_u64_bytes(x),
{
    let raw = k256::Scalar::from(x);
    CurveScalar { raw, bytes: raw.to_bytes().into() }
}

/// The sum of two scalars.
///
/// Relies on `k256::Scalar`'s field addition: the result is a function of
/// the two operands, which their canonical encodings determine.
#[verifier::external_body]
pub(crate) fn sc_add(a: &CurveScalar, b: &CurveScalar) -> (r: CurveScalar)
    ensures
        r@ == sc_add_bytes(a@, b@),
{
    let raw = a.raw + b.raw;
    CurveScalar { raw, bytes: raw.to_bytes().into() }
}

/// The difference of two scalars.
///
/// Relies on `k256::Scalar`'s field subtraction, as `sc_add` does.
#[verifier::external_body]
pub(crate) fn sc_sub(a: &CurveScalar, b: &CurveScalar) -> (r: CurveScalar)
    ensures
        r@ == sc_sub_bytes(a@, b@),
{
    let raw = a.raw - b.raw;
    CurveScalar { raw, bytes: raw.to_bytes().into() }
}

/// The product of two scalars.
///
/// Relies on `k256::Scalar`'s field multiplication, as `sc_add` does.
#[verifier::external_body]
pub(crate) fn sc_mul(a: &CurveScalar, b: &CurveScalar) -> (r: CurveScalar)
    ensures
        r@ == sc_mul_bytes(a@, b@),
{
    let raw = a.raw * b.raw;
    CurveScalar { raw, bytes: raw.to_bytes().into() }
}

/// The inverse of a scalar, or nothing for zero.
///
/// Relies on `k256::Scalar::invert`, which yields a value exactly for
/// nonzero scalars; zero is the scalar whose canonical encoding is all
/// zeros.
#[verifier::external_body]
pub(crate) fn sc_invert(a: &CurveScalar) -> (r: Option<CurveScalar>)
    ensures
        match r {
            Some(s) => s@ == sc_inv_bytes(a@),
            None => true,
        },
        r is None <==> a@ == zero32(),
{
    let inv: Option<k256::Scalar> = a.raw.invert().into();
    match inv {
        Some(raw) => Some(CurveScalar { raw, bytes: raw.to_bytes().into() }),
        None => None,
    }
}

/// The generator times a scalar.
///
/// Relies on `k256::ProjectivePoint::GENERATOR`, curve scalar
/// multiplication, and the compressed SEC1 encoding of the affine form,
/// which k256 defines as all zeros for the identity.
#[verifier::external_body]
pub(crate) fn g_mul(s: &CurveScalar) -> (r: CurvePoint)
    ensures
        r@ == g_mul_bytes(s@),
{
    let raw = k256::ProjectivePoint::GENERATOR * s.raw;
    let enc = <k256::AffinePoint as k256::elliptic_curve::group::GroupEncoding>::to_bytes(
        &raw.to_affine(),
    );
    let mut bytes = [0u8; 33];
    bytes.copy_from_slice(&enc);
    CurvePoint { raw, bytes }
}

/// The sum of two points.
///
/// Relies on curve point addition and the compressed encoding, as `g_mul`
/// does.
#[verifier::external_body]
pub(crate) fn pt_add(a: &CurvePoint, b: &CurvePoint) -> (r: CurvePoint)
    ensures
        r@ == pt_add_bytes(a@, b@),
{
    let raw = a.raw + b.raw;
    let enc = <k256::AffinePoint as k256::elliptic_curve::group::GroupEncoding>::to_bytes(
        &raw.to_affine(),
    );
    let mut bytes = [0u8; 33];
    bytes.copy_from_slice(&enc);
    CurvePoint { raw, bytes }
}

/// A point times a scalar.
///
/// Relies on curve scalar multiplication and the compressed encoding, as
/// `g_mul` does.
#[verifier::external_body]
pub(crate) fn pt_mul(p: &CurvePoint, s: &CurveScalar) -> (r: CurvePoint)
    ensures
        r@ == pt_mul_bytes(p@, s@),
{
    let raw = p.raw * s.raw;
    let enc = <k256::AffinePoint as k256::elliptic_curve::group::GroupEncoding>::to_bytes(
        &raw.to_affine(),
    );
    let mut bytes = [0u8; 33];
    bytes.copy_from_slice(&enc);
    CurvePoint { raw, bytes }
}

/// A deterministic cryptographic byte stream seeded by 32 bytes.
///
/// Relies on `magikitten::MeowRng::new`: the stream is a function of the
/// seed alone.
#[verifier::external_body]
pub(crate) fn rng_from_seed(seed: &[u8; 32]) -> magikitten::MeowRng {
    magikitten::MeowRng::new(seed)
}

/// Draws one field element from the stream.
///
/// Relies on `k256::Scalar::random`, which consumes bytes from the stream;
/// nothing is promised of the value.
#[verifier::external_body]
pub(crate) fn rng_scalar(rng: &mut magikitten::MeowRng) -> CurveScalar {
    let raw = <k256::Scalar as k256::elliptic_curve::Field>::random(&mut *rng);
    CurveScalar { raw, bytes: raw.to_bytes().into() }
}

/// One challenge scalar derived from the transcript's current state.
///
/// Relies on `magikitten::Transcript::challenge` for the challenge byte
/// stream and `k256::Scalar::random` to read a field element from it; the
/// two are fused because the stream borrows the transcript.  Nothing is
/// promised of the value.
#[verifier::external_body]
pub(crate) fn transcript_challenge_scalar(t: &mut magikitten::Transcript) -> CurveScalar {
    let mut rng = t.challenge(b"challenge");
    let raw = <k256::Scalar as k256::elliptic_curve::Field>::random(&mut rng);
    CurveScalar { raw, bytes: raw.to_bytes().into() }
}

} // verus!
