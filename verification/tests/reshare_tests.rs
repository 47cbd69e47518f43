//! Resharing: a late joiner without a share ends with a nonzero share of
//! the same secret, and invalid configurations are rejected.

use cait_sith::math::reconstruct;
use cait_sith::{
    keygen, reshare, run_protocol, run_reshare, CurveScalar, InitializationError, KeygenOutput,
    Participant,
};
use k256::elliptic_curve::group::GroupEncoding;
use k256::elliptic_curve::PrimeField;

fn seed_for(tag: u8, id: u32) -> [u8; 32] {
    let mut seed = [tag; 32];
    seed[0] = id as u8;
    seed
}

fn run_keygen(ids: &[u32], threshold: usize, tag: u8) -> Vec<(Participant, KeygenOutput)> {
    let participants: Vec<Participant> = ids.iter().map(|&i| Participant::new(i)).collect();
    let mut machines = Vec::new();
    for &i in ids {
        let me = Participant::new(i);
        machines.push((me, keygen(&participants, me, threshold, &seed_for(tag, i)).unwrap()));
    }
    run_protocol(machines).unwrap()
}

fn generator_times_bytes(s: &CurveScalar) -> [u8; 33] {
    let scalar = k256::Scalar::from_repr(s.to_bytes().into()).unwrap();
    let p = k256::ProjectivePoint::GENERATOR * scalar;
    let enc = <k256::AffinePoint as GroupEncoding>::to_bytes(&p.to_affine());
    enc.as_slice().try_into().unwrap()
}

#[test]
fn test_reshare_late_joiner() {
    let outputs = run_keygen(&[0, 1, 2], 3, 61);
    let pk = outputs[0].1.public_key.to_bytes();

    let new_participants: Vec<Participant> = [0u32, 1, 2, 3]
        .iter()
        .map(|&i| Participant::new(i))
        .collect();
    let mut reshared = run_reshare(&outputs, 3, &new_participants, 3).unwrap();
    reshared.sort_by_key(|(p, _)| p.id());
    assert_eq!(reshared.len(), 4);

    for (_, share) in &reshared {
        assert_ne!(share.to_bytes(), [0u8; 32]);
    }

    // Any three of the four fresh shares reconstruct the original secret.
    for skip in 0..4 {
        let parts: Vec<Participant> = reshared
            .iter()
            .enumerate()
            .filter(|(i, _)| *i != skip)
            .map(|(_, (p, _))| *p)
            .collect();
        let shares: Vec<CurveScalar> = reshared
            .iter()
            .enumerate()
            .filter(|(i, _)| *i != skip)
            .map(|(_, (_, s))| *s)
            .collect();
        let secret = reconstruct(&parts, &shares).unwrap();
        assert_eq!(generator_times_bytes(&secret), pk);
    }
}

#[test]
fn test_reshare_changes_threshold() {
    let outputs = run_keygen(&[0, 1, 2], 2, 63);
    let pk = outputs[0].1.public_key.to_bytes();

    let new_participants: Vec<Participant> =
        [0u32, 1, 2, 3, 4].iter().map(|&i| Participant::new(i)).collect();
    let reshared = run_reshare(&outputs, 2, &new_participants, 4).unwrap();
    assert_eq!(reshared.len(), 5);

    // Four shares reconstruct; the first four will do.
    let parts: Vec<Participant> = reshared.iter().take(4).map(|(p, _)| *p).collect();
    let shares: Vec<CurveScalar> = reshared.iter().take(4).map(|(_, s)| *s).collect();
    let secret = reconstruct(&parts, &shares).unwrap();
    assert_eq!(generator_times_bytes(&secret), pk);
}

#[test]
fn test_reshare_rejects_bad_parameters() {
    let outputs = run_keygen(&[0, 1], 2, 65);
    let old: Vec<Participant> = outputs.iter().map(|(p, _)| *p).collect();
    let new: Vec<Participant> = [0u32, 1, 2].iter().map(|&i| Participant::new(i)).collect();
    let share = outputs[0].1.private_share;
    let seed = [9u8; 32];

    // A listed old participant must bring its share.
    assert_eq!(
        reshare(&old, 2, &new, 2, Participant::new(0), None, &seed).err().unwrap(),
        InitializationError::MissingShare
    );
    // An unlisted participant must not bring one.
    assert_eq!(
        reshare(&old, 2, &new, 2, Participant::new(2), Some(share), &seed).err().unwrap(),
        InitializationError::UnexpectedShare
    );
    // The local party must be a new participant.
    assert_eq!(
        reshare(&old, 2, &new, 2, Participant::new(7), None, &seed).err().unwrap(),
        InitializationError::MissingParticipant
    );
    // Threshold bounds apply to both sets.
    assert_eq!(
        reshare(&old, 3, &new, 2, Participant::new(2), None, &seed).err().unwrap(),
        InitializationError::ThresholdTooLarge
    );
    assert_eq!(
        reshare(&old, 0, &new, 2, Participant::new(2), None, &seed).err().unwrap(),
        InitializationError::ZeroThreshold
    );
    assert!(
        reshare(&old, 2, &new, 2, Participant::new(2), None, &seed).is_ok()
    );
}
