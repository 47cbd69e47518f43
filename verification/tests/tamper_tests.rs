//! Byte-level tampering with broadcast commitments and confirmations: every
//! honest participant that receives a corrupted value terminates with an
//! assertion failure, never with a wrong silent output.

use std::cell::RefCell;

use cait_sith::{
    keygen, Action, AssertionError, Commitment, DlogProof, KeygenMachine, KeygenOutput,
    Participant, Payload, Protocol, ProtocolError,
};

fn seed_for(tag: u8, id: u32) -> [u8; 32] {
    let mut seed = [tag; 32];
    seed[0] = id as u8;
    seed
}

/// Drives three keygen machines to completion, letting `tamper` rewrite
/// any payload on its way from a sender to a recipient.  Yields each
/// participant's result in identity order.
fn drive_three<F>(tag: u8, mut tamper: F) -> Vec<Result<KeygenOutput, ProtocolError>>
where
    F: FnMut(u32, u32, usize, &Payload) -> Option<Payload>,
{
    let ids = [0u32, 1, 2];
    let participants: Vec<Participant> = ids.iter().map(|&i| Participant::new(i)).collect();
    let mut machines: Vec<(u32, KeygenMachine)> = ids
        .iter()
        .map(|&i| {
            (i, keygen(&participants, Participant::new(i), 3, &seed_for(tag, i)).unwrap())
        })
        .collect();
    let mut results: Vec<Option<Result<KeygenOutput, ProtocolError>>> = vec![None, None, None];

    for _pass in 0..200 {
        if results.iter().all(|r| r.is_some()) {
            break;
        }
        for i in 0..machines.len() {
            if results[i].is_some() {
                continue;
            }
            let from = machines[i].0;
            let action = machines[i].1.poke();
            match action {
                Err(e) => results[i] = Some(Err(e)),
                Ok(Action::Wait) => {},
                Ok(Action::Return(out)) => results[i] = Some(Ok(out)),
                Ok(Action::SendMany(round, payload)) => {
                    for j in 0..machines.len() {
                        if j != i {
                            let to = machines[j].0;
                            let delivered = tamper(from, to, round, &payload)
                                .unwrap_or_else(|| payload.duplicate());
                            machines[j].1.message(Participant::new(from), round, delivered);
                        }
                    }
                },
                Ok(Action::SendPrivate(round, recipient, payload)) => {
                    for j in 0..machines.len() {
                        if j != i && machines[j].0 == recipient.id() {
                            let to = machines[j].0;
                            let delivered = tamper(from, to, round, &payload)
                                .unwrap_or_else(|| payload.duplicate());
                            machines[j].1.message(Participant::new(from), round, delivered);
                        }
                    }
                },
            }
        }
    }
    results.into_iter().map(|r| r.expect("machine neither returned nor failed")).collect()
}

fn flipped(c: &Commitment, position: usize) -> Commitment {
    let mut bytes = c.to_bytes();
    bytes[position] ^= 1;
    Commitment::from_bytes(bytes)
}

#[test]
fn test_flipped_commitment_byte_aborts_everyone() {
    for position in 0..32 {
        let results = drive_three(80, |from, _to, round, payload| {
            if from == 0 && round == 0 {
                match payload {
                    Payload::Commit(c) => Some(Payload::Commit(flipped(c, position))),
                    _ => None,
                }
            } else {
                None
            }
        });
        // The receivers of the corrupted commitment compute a different
        // confirmation than the sender, so the mismatch surfaces in the
        // confirmation round at every participant.  Nobody outputs
        // anything.
        for r in &results {
            assert!(matches!(
                r,
                Err(ProtocolError::AssertionFailed(AssertionError::ConfirmationMismatch(_)))
            ));
        }
    }
}

#[test]
fn test_flipped_confirmation_byte_aborts_receivers() {
    for position in 0..32 {
        let results = drive_three(90, |from, _to, round, payload| {
            if from == 0 && round == 1 {
                match payload {
                    Payload::Confirm(c) => Some(Payload::Confirm(flipped(c, position))),
                    _ => None,
                }
            } else {
                None
            }
        });
        for victim in [1, 2] {
            assert!(matches!(
                results[victim],
                Err(ProtocolError::AssertionFailed(AssertionError::ConfirmationMismatch(p))) if p.id() == 0
            ));
        }
        // The sender's own run saw only honest traffic and completes.
        assert!(results[0].is_ok());
    }
}

#[test]
fn test_substituted_reveal_fails_commitment_check() {
    // Replace participant 1's revealed polynomial with participant 0's:
    // it no longer hashes to 1's round-0 commitment.
    let stolen: RefCell<Option<Payload>> = RefCell::new(None);
    let results = drive_three(95, |from, _to, round, payload| {
        if round == 2 {
            if from == 0 {
                *stolen.borrow_mut() = Some(payload.duplicate());
                None
            } else if from == 1 {
                Some(stolen.borrow().as_ref().expect("round order").duplicate())
            } else {
                None
            }
        } else {
            None
        }
    });
    for victim in [0, 2] {
        assert!(matches!(
            results[victim],
            Err(ProtocolError::AssertionFailed(AssertionError::CommitmentMismatch(p))) if p.id() == 1
        ));
    }
}

#[test]
fn test_wrong_degree_reveal_is_rejected() {
    let results = drive_three(100, |from, _to, round, payload| {
        if from == 0 && round == 2 {
            match payload {
                Payload::Reveal(points, proof) => {
                    let truncated: Vec<_> = points.iter().take(points.len() - 1).copied().collect();
                    Some(Payload::Reveal(truncated, *proof))
                },
                _ => None,
            }
        } else {
            None
        }
    });
    for victim in [1, 2] {
        assert!(matches!(
            results[victim],
            Err(ProtocolError::AssertionFailed(AssertionError::WrongDegree(p))) if p.id() == 0
        ));
    }
}

#[test]
fn test_swapped_proof_fails_verification() {
    // Replace participant 1's proof with participant 0's: the revealed
    // polynomial still matches its commitment, but the proof no longer
    // binds to the sender, so verification fails.
    let stolen: RefCell<Option<DlogProof>> = RefCell::new(None);
    let results = drive_three(110, |from, _to, round, payload| {
        if round == 2 {
            match payload {
                Payload::Reveal(points, proof) => {
                    if from == 0 {
                        *stolen.borrow_mut() = Some(*proof);
                        None
                    } else if from == 1 {
                        let substitute = stolen.borrow().expect("round order");
                        Some(Payload::Reveal(points.iter().copied().collect(), substitute))
                    } else {
                        None
                    }
                },
                _ => None,
            }
        } else {
            None
        }
    });
    for victim in [0, 2] {
        assert!(matches!(
            results[victim],
            Err(ProtocolError::AssertionFailed(AssertionError::ProofFailed(p))) if p.id() == 1
        ));
    }
}

#[test]
fn test_wrong_round_payload_is_rejected() {
    let results = drive_three(120, |from, _to, round, payload| {
        if from == 0 && round == 1 {
            match payload {
                Payload::Confirm(c) => Some(Payload::Commit(*c)),
                _ => None,
            }
        } else {
            None
        }
    });
    for victim in [1, 2] {
        assert!(matches!(
            results[victim],
            Err(ProtocolError::AssertionFailed(AssertionError::UnexpectedMessage(p))) if p.id() == 0
        ));
    }
}

#[test]
fn test_swapped_private_shares_fail_consistency() {
    // Swap the two private shares participant 0 deals out: the receivers'
    // sums no longer lie on the joint polynomial, and both abort on the
    // final consistency check.
    let stash: RefCell<Vec<(u32, Payload)>> = RefCell::new(Vec::new());
    let results = drive_three(130, |from, to, round, payload| {
        if from == 0 && round == 3 {
            let mut stash = stash.borrow_mut();
            stash.push((to, payload.duplicate()));
            if stash.len() == 2 {
                // Deliver the share meant for the other receiver.
                let (other_to, other_payload) = &stash[0];
                assert_ne!(*other_to, to);
                Some(other_payload.duplicate())
            } else {
                // Hold the first share back by swapping in the second
                // later; deliver the second receiver's share here.
                None
            }
        } else {
            None
        }
    });
    // The first recipient got its own share (delivered unchanged), the
    // second got the first's: only the second aborts.
    let failures = results
        .iter()
        .filter(|r| {
            matches!(
                r,
                Err(ProtocolError::AssertionFailed(AssertionError::InconsistentShare))
            )
        })
        .count();
    assert_eq!(failures, 1);
}
