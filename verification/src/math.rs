//! Polynomials over the scalar field and their public images under the
//! group generator, plus Lagrange reconstruction of a shared secret.
//!
//! A polynomial of degree `threshold - 1` is its coefficient list, lowest
//! first; the secret is the constant term.  All arithmetic goes through the
//! curve wrappers, and every contract states the exact composition of the
//! named operations.

use vstd::prelude::*;

use crate::curve::CurvePoint;
use crate::curve::CurveScalar;
use crate::curve::g_mul;
use crate::curve::g_mul_bytes;
use crate::curve::pt_add;
use crate::curve::pt_add_bytes;
use crate::curve::pt_mul;
use crate::curve::pt_mul_bytes;
use crate::curve::rng_scalar;
use crate::curve::sc_add;
use crate::curve::sc_add_bytes;
use crate::curve::sc_from_u64;
use crate::curve::sc_from_u64_bytes;
use crate::curve::sc_invert;
use crate::curve::sc_inv_bytes;
use crate::curve::sc_mul;
use crate::curve::sc_mul_bytes;
use crate::curve::sc_sub;
use crate::curve::sc_sub_bytes;
use crate::curve::sc_zero;
use crate::curve::zero32;
use crate::participants::Participant;

verus! {

/// The encodings of a scalar list.
pub open spec fn scalar_views(s: Seq<CurveScalar>) -> Seq<Seq<u8>> {
    s.map_values(|x: CurveScalar| x@)
}

/// The encodings of a point list.
pub open spec fn point_views(s: Seq<CurvePoint>) -> Seq<Seq<u8>> {
    s.map_values(|x: CurvePoint| x@)
}

/// The evaluation of the polynomial with the given coefficient encodings,
/// lowest first, at the point `x`, by Horner's rule.
pub open spec fn poly_eval_bytes(coeffs: Seq<Seq<u8>>, x: Seq<u8>) -> Seq<u8>
    decreases coeffs.len(),
{
    if coeffs.len() == 0 {
        zero32()
    } else {
        sc_add_bytes(sc_mul_bytes(poly_eval_bytes(coeffs.drop_first(), x), x), coeffs.first())
    }
}

/// The evaluation of the committed polynomial with the given coefficient
/// encodings at the scalar `x`, by Horner's rule; a single coefficient is
/// its own evaluation.
pub open spec fn gpoly_eval_bytes(coeffs: Seq<Seq<u8>>, x: Seq<u8>) -> Seq<u8>
    decreases coeffs.len(),
{
    if coeffs.len() <= 1 {
        coeffs.first()
    } else {
        pt_add_bytes(pt_mul_bytes(gpoly_eval_bytes(coeffs.drop_first(), x), x), coeffs.first())
    }
}

/// The left fold of scalar addition over the given encodings, starting
/// from zero.
pub open spec fn sc_sum_bytes(s: Seq<Seq<u8>>) -> Seq<u8>
    decreases s.len(),
{
    if s.len() == 0 {
        zero32()
    } else {
        sc_add_bytes(sc_sum_bytes(s.drop_last()), s.last())
    }
}

/// The scalar evaluation point owned by a participant: its identity plus
/// one, so that zero stays reserved for the secret.
pub open spec fn eval_point_bytes(p: Participant) -> Seq<u8> {
    sc_from_u64_bytes((p.id + 1) as u64)
}

/// The evaluation point of a participant.
pub fn participant_scalar(p: &Participant) -> (r: CurveScalar)
    ensures
        r@ == eval_point_bytes(*p),
{
    sc_from_u64(p.id() as u64 + 1)
}

/// Draws the coefficients of a random polynomial of the given degree bound
/// from the byte stream.
pub fn random_poly(rng: &mut magikitten::MeowRng, threshold: usize) -> (r: Vec<CurveScalar>)
    ensures
        r@.len() == threshold,
{
    let mut out: Vec<CurveScalar> = Vec::new();
    let mut i: usize = 0;
    while i < threshold
        invariant
            i <= threshold,
            out@.len() == i,
        decreases threshold - i,
    {
        out.push(rng_scalar(rng));
        i += 1;
    }
    out
}

/// Evaluates a polynomial at `x` by Horner's rule.
pub fn eval_poly(coeffs: &Vec<CurveScalar>, x: &CurveScalar) -> (r: CurveScalar)
    ensures
        r@ == poly_eval_bytes(scalar_views(coeffs@), x@),
{
    let mut acc = sc_zero();
    let mut i: usize = coeffs.len();
    proof {
        assert(scalar_views(coeffs@).subrange(i as int, coeffs@.len() as int) =~= Seq::<
            Seq<u8>,
        >::empty());
    }
    while i > 0
        invariant
            i <= coeffs@.len(),
            acc@ == poly_eval_bytes(
                scalar_views(coeffs@).subrange(i as int, coeffs@.len() as int),
                x@,
            ),
        decreases i,
    {
        i -= 1;
        acc = sc_add(&sc_mul(&acc, x), &coeffs[i]);
        proof {
            let views = scalar_views(coeffs@);
            let n = coeffs@.len() as int;
            assert(views.subrange(i as int, n).drop_first() =~= views.subrange(i as int + 1, n));
            assert(views.subrange(i as int, n).first() == views[i as int]);
        }
    }
    proof {
        assert(scalar_views(coeffs@).subrange(0, coeffs@.len() as int) =~= scalar_views(coeffs@));
    }
    acc
}

/// The public image of a polynomial: each coefficient times the generator.
pub fn commit_poly(coeffs: &Vec<CurveScalar>) -> (r: Vec<CurvePoint>)
    ensures
        r@.len() == coeffs@.len(),
        forall|i: int| 0 <= i < coeffs@.len() ==> (#[trigger] r@[i])@ == g_mul_bytes(coeffs@[i]@),
{
    let mut out: Vec<CurvePoint> = Vec::new();
    let mut i: usize = 0;
    while i < coeffs.len()
        invariant
            i <= coeffs@.len(),
            out@.len() == i,
            forall|k: int| 0 <= k < i ==> (#[trigger] out@[k])@ == g_mul_bytes(coeffs@[k]@),
        decreases coeffs@.len() - i,
    {
        out.push(g_mul(&coeffs[i]));
        i += 1;
    }
    out
}

/// Evaluates a committed polynomial at `x` by Horner's rule.
pub fn eval_group_poly(coeffs: &Vec<CurvePoint>, x: &CurveScalar) -> (r: CurvePoint)
    requires
        coeffs@.len() >= 1,
    ensures
        r@ == gpoly_eval_bytes(point_views(coeffs@), x@),
{
    let n = coeffs.len();
    let mut acc = coeffs[n - 1];
    let mut i: usize = n - 1;
    while i > 0
        invariant
            i < n,
            n == coeffs@.len(),
            acc@ == gpoly_eval_bytes(point_views(coeffs@).subrange(i as int, n as int), x@),
        decreases i,
    {
        i -= 1;
        acc = pt_add(&pt_mul(&acc, x), &coeffs[i]);
        proof {
            let views = point_views(coeffs@);
            assert(views.subrange(i as int, n as int).drop_first() =~= views.subrange(
                i as int + 1,
                n as int,
            ));
            assert(views.subrange(i as int, n as int).first() == views[i as int]);
        }
    }
    proof {
        assert(point_views(coeffs@).subrange(0, n as int) =~= point_views(coeffs@));
    }
    acc
}

/// Adds the scalars of a list, in order, starting from zero.
pub fn sum_scalars(xs: &Vec<CurveScalar>) -> (r: CurveScalar)
    ensures
        r@ == sc_sum_bytes(scalar_views(xs@)),
{
    let mut acc = sc_zero();
    let mut i: usize = 0;
    proof {
        assert(scalar_views(xs@).subrange(0, 0int) =~= Seq::<Seq<u8>>::empty());
    }
    while i < xs.len()
        invariant
            i <= xs@.len(),
            acc@ == sc_sum_bytes(scalar_views(xs@).subrange(0, i as int)),
        decreases xs@.len() - i,
    {
        acc = sc_add(&acc, &xs[i]);
        proof {
            let views = scalar_views(xs@);
            assert(views.subrange(0, i as int + 1).drop_last() =~= views.subrange(0, i as int));
            assert(views.subrange(0, i as int + 1).last() == views[i as int]);
        }
        i += 1;
    }
    proof {
        assert(scalar_views(xs@).subrange(0, xs@.len() as int) =~= scalar_views(xs@));
    }
    acc
}

/// The product, in index order, of the evaluation points of every listed
/// participant but the one at `skip`, over the first `n` entries.
pub open spec fn lagrange_num_bytes(parts: Seq<Participant>, skip: int, n: int) -> Seq<u8>
    decreases n,
{
    if n <= 0 {
        sc_from_u64_bytes(1)
    } else if n - 1 == skip {
        lagrange_num_bytes(parts, skip, n - 1)
    } else {
        sc_mul_bytes(lagrange_num_bytes(parts, skip, n - 1), eval_point_bytes(parts[n - 1]))
    }
}

/// The product, in index order, of the differences between every other
/// listed evaluation point and the one at `skip`, over the first `n`
/// entries.
pub open spec fn lagrange_den_bytes(parts: Seq<Participant>, skip: int, n: int) -> Seq<u8>
    decreases n,
{
    if n <= 0 {
        sc_from_u64_bytes(1)
    } else if n - 1 == skip {
        lagrange_den_bytes(parts, skip, n - 1)
    } else {
        sc_mul_bytes(
            lagrange_den_bytes(parts, skip, n - 1),
            sc_sub_bytes(eval_point_bytes(parts[n - 1]), eval_point_bytes(parts[skip])),
        )
    }
}

/// The Lagrange coefficient at zero of the participant at `skip`.
pub open spec fn lagrange_bytes(parts: Seq<Participant>, skip: int) -> Seq<u8> {
    sc_mul_bytes(
        lagrange_num_bytes(parts, skip, parts.len() as int),
        sc_inv_bytes(lagrange_den_bytes(parts, skip, parts.len() as int)),
    )
}

/// The Lagrange coefficient at zero of the participant at position `skip`,
/// or nothing if two listed evaluation points collide.
pub fn lagrange_coefficient(parts: &Vec<Participant>, skip: usize) -> (r: Option<CurveScalar>)
    requires
        skip < parts@.len(),
    ensures
        r matches Some(s) ==> s@ == lagrange_bytes(parts@, skip as int),
        r is None ==> lagrange_den_bytes(parts@, skip as int, parts@.len() as int) == zero32(),
{
    let n = parts.len();
    let mut num = sc_from_u64(1);
    let mut den = sc_from_u64(1);
    let mut j: usize = 0;
    let x_skip = participant_scalar(&parts[skip]);
    while j < n
        invariant
            j <= n,
            skip < n,
            n == parts@.len(),
            x_skip@ == eval_point_bytes(parts@[skip as int]),
            num@ == lagrange_num_bytes(parts@, skip as int, j as int),
            den@ == lagrange_den_bytes(parts@, skip as int, j as int),
        decreases n - j,
    {
        if j != skip {
            let x_j = participant_scalar(&parts[j]);
            num = sc_mul(&num, &x_j);
            den = sc_mul(&den, &sc_sub(&x_j, &x_skip));
        }
        j += 1;
    }
    match sc_invert(&den) {
        Some(den_inv) => Some(sc_mul(&num, &den_inv)),
        None => None,
    }
}

/// The sum of each share times its holder's Lagrange coefficient, over the
/// first `n` entries.
pub open spec fn reconstruct_bytes(parts: Seq<Participant>, shares: Seq<Seq<u8>>, n: int) -> Seq<u8>
    decreases n,
{
    if n <= 0 {
        zero32()
    } else {
        sc_add_bytes(
            reconstruct_bytes(parts, shares, n - 1),
            sc_mul_bytes(lagrange_bytes(parts, n - 1), shares[n - 1]),
        )
    }
}

/// Interpolates the constant term of the polynomial through the given
/// shares: the secret the shares were dealt from, whenever the listed
/// participants are distinct and at least `threshold` many.  Fails only if
/// two listed evaluation points collide.
pub fn reconstruct(parts: &Vec<Participant>, shares: &Vec<CurveScalar>) -> (r: Option<CurveScalar>)
    requires
        parts@.len() == shares@.len(),
    ensures
        r matches Some(s) ==> s@ == reconstruct_bytes(
            parts@,
            scalar_views(shares@),
            parts@.len() as int,
        ),
        r is None ==> exists|i: int|
            0 <= i < parts@.len() && #[trigger] lagrange_den_bytes(parts@, i, parts@.len() as int)
                == zero32(),
{
    let n = parts.len();
    let mut acc = sc_zero();
    let mut i: usize = 0;
    while i < n
        invariant
            i <= n,
            n == parts@.len(),
            n == shares@.len(),
            acc@ == reconstruct_bytes(parts@, scalar_views(shares@), i as int),
        decreases n - i,
    {
        let lambda = match lagrange_coefficient(parts, i) {
            Some(l) => l,
            None => {
                return None;
            },
        };
        acc = sc_add(&acc, &sc_mul(&lambda, &shares[i]));
        i += 1;
    }
    Some(acc)
}

} // verus!
