//! End-to-end distributed key generation: agreement on the public key,
//! reconstruction of the shared secret, and rejection of invalid
//! configurations.

use cait_sith::math::reconstruct;
use cait_sith::{keygen, run_protocol, CurveScalar, InitializationError, KeygenOutput, Participant};
use k256::elliptic_curve::group::GroupEncoding;
use k256::elliptic_curve::PrimeField;

fn seed_for(tag: u8, id: u32) -> [u8; 32] {
    let mut seed = [tag; 32];
    seed[0] = id as u8;
    seed[1] = (id >> 8) as u8;
    seed
}

fn run_keygen(ids: &[u32], threshold: usize, tag: u8) -> Vec<(Participant, KeygenOutput)> {
    let participants: Vec<Participant> = ids.iter().map(|&i| Participant::new(i)).collect();
    let mut machines = Vec::new();
    for &i in ids {
        let me = Participant::new(i);
        let machine = keygen(&participants, me, threshold, &seed_for(tag, i)).unwrap();
        machines.push((me, machine));
    }
    run_protocol(machines).unwrap()
}

fn to_k256_scalar(s: &CurveScalar) -> k256::Scalar {
    k256::Scalar::from_repr(s.to_bytes().into()).unwrap()
}

fn generator_times(s: &k256::Scalar) -> [u8; 33] {
    let p = k256::ProjectivePoint::GENERATOR * s;
    let enc = <k256::AffinePoint as GroupEncoding>::to_bytes(&p.to_affine());
    enc.as_slice().try_into().unwrap()
}

/// Every size-`want` subset of `{0, .., n-1}`, as index lists.
fn subsets(n: usize, want: u32) -> Vec<Vec<usize>> {
    let mut out = Vec::new();
    for mask in 0u32..(1 << n) {
        if mask.count_ones() == want {
            out.push((0..n).filter(|i| mask & (1 << i) != 0).collect());
        }
    }
    out
}

fn check_run(outputs: &[(Participant, KeygenOutput)], threshold: usize) {
    let pk = outputs[0].1.public_key.to_bytes();
    for (_, out) in outputs {
        assert_eq!(out.public_key.to_bytes(), pk);
    }
    let mut secrets = Vec::new();
    for subset in subsets(outputs.len(), threshold as u32) {
        let parts: Vec<Participant> = subset.iter().map(|&i| outputs[i].0).collect();
        let shares: Vec<CurveScalar> = subset.iter().map(|&i| outputs[i].1.private_share).collect();
        let secret = reconstruct(&parts, &shares).unwrap();
        assert_eq!(generator_times(&to_k256_scalar(&secret)), pk);
        secrets.push(secret.to_bytes());
    }
    for s in &secrets {
        assert_eq!(s, &secrets[0]);
    }
}

#[test]
fn test_keygen_three_of_three() {
    let outputs = run_keygen(&[0, 1, 2], 3, 7);
    assert_eq!(outputs.len(), 3);
    assert_eq!(outputs[0].1.public_key.to_bytes(), outputs[1].1.public_key.to_bytes());
    assert_eq!(outputs[1].1.public_key.to_bytes(), outputs[2].1.public_key.to_bytes());
    check_run(&outputs, 3);
}

#[test]
fn test_keygen_various_thresholds() {
    check_run(&run_keygen(&[0, 1], 1, 20), 1);
    check_run(&run_keygen(&[0, 1], 2, 21), 2);
    check_run(&run_keygen(&[5, 9, 17], 2, 22), 2);
    check_run(&run_keygen(&[0, 1, 2, 3, 4], 3, 23), 3);
}

#[test]
fn test_keygen_public_key_is_not_degenerate() {
    let outputs = run_keygen(&[0, 1, 2], 2, 31);
    assert_ne!(outputs[0].1.public_key.to_bytes(), [0u8; 33]);
    assert_ne!(outputs[0].1.private_share.to_bytes(), [0u8; 32]);
}

#[test]
fn test_keygen_distinct_runs_differ() {
    let a = run_keygen(&[0, 1, 2], 2, 41);
    let b = run_keygen(&[0, 1, 2], 2, 42);
    assert_ne!(a[0].1.public_key.to_bytes(), b[0].1.public_key.to_bytes());
}

#[test]
fn test_keygen_rejects_bad_parameters() {
    let seed = [0u8; 32];
    let one = vec![Participant::new(0)];
    let two = vec![Participant::new(0), Participant::new(1)];
    let dup = vec![Participant::new(0), Participant::new(1), Participant::new(0)];

    assert_eq!(
        keygen(&one, Participant::new(0), 1, &seed).err().unwrap(),
        InitializationError::TooFewParticipants
    );
    assert_eq!(
        keygen(&two, Participant::new(0), 3, &seed).err().unwrap(),
        InitializationError::ThresholdTooLarge
    );
    assert_eq!(
        keygen(&two, Participant::new(0), 0, &seed).err().unwrap(),
        InitializationError::ZeroThreshold
    );
    assert_eq!(
        keygen(&dup, Participant::new(0), 2, &seed).err().unwrap(),
        InitializationError::DuplicateParticipants
    );
    assert_eq!(
        keygen(&two, Participant::new(9), 2, &seed).err().unwrap(),
        InitializationError::MissingParticipant
    );
    assert!(keygen(&two, Participant::new(1), 2, &seed).is_ok());
}

#[test]
fn test_error_descriptions_are_stable() {
    let seed = [0u8; 32];
    let one = vec![Participant::new(0)];
    let err = keygen(&one, Participant::new(0), 1, &seed).err().unwrap();
    assert_eq!(err.describe(), "participant count cannot be less than 2");
}
