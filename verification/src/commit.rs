//! Hash commitments over canonical byte encodings.
//!
//! A `Commitment` is the fixed-length output of a collision-resistant
//! sponge hash applied to a canonical encoding of the committed data; it is
//! opaque and compared only for equality.

use vstd::prelude::*;

use crate::curve::CurvePoint;

verus! {

/// The 32 bytes the sponge hash squeezes after absorbing `data`: a
/// function of `data` alone.
pub uninterp spec fn hash32(data: Seq<u8>) -> Seq<u8>;

/// Hashes a byte string to 32 bytes.
///
/// Relies on `ck_meow::Meow` used as a hash: after absorbing `data` under
/// a fixed context string, `prf` squeezes 32 bytes that are a function of
/// `data` alone.
#[verifier::external_body]
fn meow_hash32(data: &Vec<u8>) -> (r: [u8; 32])
    ensures
        r@ == hash32(data@),
{
    let mut meow = ck_meow::Meow::new(b"cait-sith v0.1.0 commitment");
    meow.ad(data, false);
    let mut out = [0u8; 32];
    meow.prf(&mut out, false);
    out
}

/// A fixed-length hash commitment, compared only for equality.
#[derive(Clone, Copy, Debug, PartialEq, Eq)]
pub struct Commitment {
    bytes: [u8; 32],
}

impl View for Commitment {
    type V = Seq<u8>;

    closed spec fn view(&self) -> Seq<u8> {
        self.bytes@
    }
}

impl Commitment {
    /// The commitment bytes.
    pub fn to_bytes(&self) -> (r: [u8; 32])
        ensures
            r@ == self@,
    {
        self.bytes
    }

    /// Rebuilds a commitment from its bytes, as a delivered message does.
    pub fn from_bytes(bytes: [u8; 32]) -> (r: Self)
        ensures
            r@ == bytes@,
    {
        Commitment { bytes }
    }

    /// Whether the two commitments are equal.
    pub fn equals(&self, other: &Commitment) -> (r: bool)
        ensures
            r == (self@ == other@),
    {
        let mut i: usize = 0;
        while i < 32
            invariant
                i <= 32,
                forall|k: int| 0 <= k < i ==> self@[k] == other@[k],
            decreases 32 - i,
        {
            if self.bytes[i] != other.bytes[i] {
                return false;
            }
            i += 1;
        }
        proof {
            assert(self@ =~= other@);
        }
        true
    }
}

/// The canonical encoding of a point list: the 33-byte encodings
/// concatenated in order.  Fixed-width entries make it injective.
pub open spec fn encoded_points(s: Seq<CurvePoint>) -> Seq<u8>
    decreases s.len(),
{
    if s.len() == 0 {
        Seq::empty()
    } else {
        encoded_points(s.drop_last()) + s.last()@
    }
}

/// The canonical encoding of a commitment list: the 32-byte commitment
/// values concatenated in order.
pub open spec fn encoded_commitments(s: Seq<Commitment>) -> Seq<u8>
    decreases s.len(),
{
    if s.len() == 0 {
        Seq::empty()
    } else {
        encoded_commitments(s.drop_last()) + s.last()@
    }
}

/// Appends the bytes of a fixed-size buffer to a byte string.
fn extend_bytes33(out: &mut Vec<u8>, bytes: &[u8; 33])
    ensures
        final(out)@ == old(out)@ + bytes@,
{
    let mut i: usize = 0;
    while i < 33
        invariant
            i <= 33,
            out@ == old(out)@ + bytes@.subrange(0, i as int),
        decreases 33 - i,
    {
        out.push(bytes[i]);
        proof {
            assert(old(out)@ + bytes@.subrange(0, i as int + 1) =~= (old(out)@ + bytes@.subrange(
                0,
                i as int,
            )).push(bytes@[i as int]));
        }
        i += 1;
    }
    proof {
        assert(bytes@.subrange(0, 33) =~= bytes@);
    }
}

/// Appends the bytes of a fixed-size buffer to a byte string.
fn extend_bytes32(out: &mut Vec<u8>, bytes: &[u8; 32])
    ensures
        final(out)@ == old(out)@ + bytes@,
{
    let mut i: usize = 0;
    while i < 32
        invariant
            i <= 32,
            out@ == old(out)@ + bytes@.subrange(0, i as int),
        decreases 32 - i,
    {
        out.push(bytes[i]);
        proof {
            assert(old(out)@ + bytes@.subrange(0, i as int + 1) =~= (old(out)@ + bytes@.subrange(
                0,
                i as int,
            )).push(bytes@[i as int]));
        }
        i += 1;
    }
    proof {
        assert(bytes@.subrange(0, 32) =~= bytes@);
    }
}

/// The canonical encoding of a point list.
pub fn encode_points(points: &Vec<CurvePoint>) -> (r: Vec<u8>)
    ensures
        r@ == encoded_points(points@),
{
    let mut out: Vec<u8> = Vec::new();
    let mut i: usize = 0;
    proof {
        assert(encoded_points(points@.subrange(0, 0int)) =~= Seq::<u8>::empty());
    }
    while i < points.len()
        invariant
            i <= points@.len(),
            out@ == encoded_points(points@.subrange(0, i as int)),
        decreases points@.len() - i,
    {
        let bytes = points[i].to_bytes();
        extend_bytes33(&mut out, &bytes);
        proof {
            assert(points@.subrange(0, i as int + 1).drop_last() =~= points@.subrange(0, i as int));
            assert(points@.subrange(0, i as int + 1).last() == points@[i as int]);
        }
        i += 1;
    }
    proof {
        assert(points@.subrange(0, points@.len() as int) =~= points@);
    }
    out
}

/// The canonical encoding of a commitment list.
pub fn encode_commitments(commitments: &Vec<Commitment>) -> (r: Vec<u8>)
    ensures
        r@ == encoded_commitments(commitments@),
{
    let mut out: Vec<u8> = Vec::new();
    let mut i: usize = 0;
    proof {
        assert(encoded_commitments(commitments@.subrange(0, 0int)) =~= Seq::<u8>::empty());
    }
    while i < commitments.len()
        invariant
            i <= commitments@.len(),
            out@ == encoded_commitments(commitments@.subrange(0, i as int)),
        decreases commitments@.len() - i,
    {
        let bytes = commitments[i].to_bytes();
        extend_bytes32(&mut out, &bytes);
        proof {
            assert(commitments@.subrange(0, i as int + 1).drop_last() =~= commitments@.subrange(
                0,
                i as int,
            ));
            assert(commitments@.subrange(0, i as int + 1).last() == commitments@[i as int]);
        }
        i += 1;
    }
    proof {
        assert(commitments@.subrange(0, commitments@.len() as int) =~= commitments@);
    }
    out
}

/// Hash-commits to a list of points.
pub fn commit_points(points: &Vec<CurvePoint>) -> (r: Commitment)
    ensures
        r@ == hash32(encoded_points(points@)),
{
    let encoded = encode_points(points);
    Commitment { bytes: meow_hash32(&encoded) }
}

/// Hash-commits to a list of commitments.
pub fn commit_commitments(commitments: &Vec<Commitment>) -> (r: Commitment)
    ensures
        r@ == hash32(encoded_commitments(commitments@)),
{
    let encoded = encode_commitments(commitments);
    Commitment { bytes: meow_hash32(&encoded) }
}

/// The bytes of a fixed-size buffer as a byte string.
pub(crate) fn vec_of_bytes32(bytes: &[u8; 32]) -> (r: Vec<u8>)
    ensures
        r@ == bytes@,
{
    let mut out: Vec<u8> = Vec::new();
    extend_bytes32(&mut out, bytes);
    proof {
        assert(out@ =~= bytes@);
    }
    out
}

/// The bytes of a fixed-size buffer as a byte string.
pub(crate) fn vec_of_bytes33(bytes: &[u8; 33]) -> (r: Vec<u8>)
    ensures
        r@ == bytes@,
{
    let mut out: Vec<u8> = Vec::new();
    extend_bytes33(&mut out, bytes);
    proof {
        assert(out@ =~= bytes@);
    }
    out
}

} // verus!
