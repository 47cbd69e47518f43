//! The two drivers: the local simulator and the round-robin multiplexer
//! produce identical results for the same participants, threshold and
//! seeds, and the simulator reports a stall instead of spinning.

use cait_sith::{
    keygen, run_protocol, run_protocol_mpc, Action, KeygenOutput, Participant, Payload, Protocol,
    ProtocolError,
};

fn seed_for(tag: u8, id: u32) -> [u8; 32] {
    let mut seed = [tag; 32];
    seed[0] = id as u8;
    seed
}

fn make_machines(ids: &[u32], threshold: usize, tag: u8) -> Vec<(Participant, cait_sith::KeygenMachine)> {
    let participants: Vec<Participant> = ids.iter().map(|&i| Participant::new(i)).collect();
    ids.iter()
        .map(|&i| {
            let me = Participant::new(i);
            (me, keygen(&participants, me, threshold, &seed_for(tag, i)).unwrap())
        })
        .collect()
}

#[test]
fn test_simulator_and_multiplexer_agree() {
    let ids = [0u32, 1, 2, 3];
    let threshold = 2;
    let tag = 55;

    let mut simulated = run_protocol(make_machines(&ids, threshold, tag)).unwrap();
    simulated.sort_by_key(|(p, _)| p.id());

    let mut machines = make_machines(&ids, threshold, tag);
    let size = machines.len();
    let mut out: Vec<(Participant, KeygenOutput)> = Vec::new();
    let mut passes = 0;
    while out.len() < size {
        for i in 0..size {
            run_protocol_mpc(&mut machines, size, i, &mut out).unwrap();
        }
        passes += 1;
        assert!(passes < 1000, "multiplexer failed to converge");
    }
    out.sort_by_key(|(p, _)| p.id());

    assert_eq!(simulated.len(), out.len());
    for ((p1, o1), (p2, o2)) in simulated.iter().zip(out.iter()) {
        assert_eq!(p1.id(), p2.id());
        assert_eq!(o1.public_key.to_bytes(), o2.public_key.to_bytes());
        assert_eq!(o1.private_share.to_bytes(), o2.private_share.to_bytes());
    }
}

#[test]
fn test_same_seeds_give_identical_runs() {
    let ids = [0u32, 1, 2];
    let a = run_protocol(make_machines(&ids, 2, 77)).unwrap();
    let b = run_protocol(make_machines(&ids, 2, 77)).unwrap();
    for ((_, o1), (_, o2)) in a.iter().zip(b.iter()) {
        assert_eq!(o1.public_key.to_bytes(), o2.public_key.to_bytes());
        assert_eq!(o1.private_share.to_bytes(), o2.private_share.to_bytes());
    }
}

#[test]
fn test_simulator_reports_stall() {
    // A single resident machine that expects a second participant can
    // never finish: the simulator must report a stall, not spin.
    let participants = vec![Participant::new(0), Participant::new(1)];
    let me = Participant::new(0);
    let machine = keygen(&participants, me, 2, &[3u8; 32]).unwrap();
    let result = run_protocol(vec![(me, machine)]);
    let err = result.err().unwrap();
    assert_eq!(err, ProtocolError::Stalled);
    assert_eq!(err.describe(), "no instance could make progress");
}

#[test]
fn test_reversed_delivery_order_is_harmless() {
    // Rounds are addressed independently and senders within a round may
    // arrive in any order: delivering every pass's messages in reverse
    // order changes nothing.
    let ids = [0u32, 1, 2];
    let threshold = 2;
    let tag = 99;

    let straight = run_protocol(make_machines(&ids, threshold, tag)).unwrap();

    let mut machines = make_machines(&ids, threshold, tag);
    let n = machines.len();
    let mut results: Vec<Option<KeygenOutput>> = vec![None; n];
    for _pass in 0..200 {
        if results.iter().all(|r| r.is_some()) {
            break;
        }
        let mut pending: Vec<(Participant, Option<Participant>, usize, Payload)> = Vec::new();
        for i in 0..n {
            if results[i].is_some() {
                continue;
            }
            let from = machines[i].0;
            match machines[i].1.poke().unwrap() {
                Action::Wait => {},
                Action::Return(out) => results[i] = Some(out),
                Action::SendMany(round, payload) => pending.push((from, None, round, payload)),
                Action::SendPrivate(round, to, payload) => {
                    pending.push((from, Some(to), round, payload))
                },
            }
        }
        for (from, to, round, payload) in pending.into_iter().rev() {
            for j in 0..n {
                let me = machines[j].0;
                let addressed = match to {
                    None => me.id() != from.id(),
                    Some(t) => me.id() == t.id(),
                };
                if addressed {
                    machines[j].1.message(from, round, payload.duplicate());
                }
            }
        }
    }

    for (i, (p, out)) in straight.iter().enumerate() {
        assert_eq!(p.id(), machines[i].0.id());
        let reordered = results[i].as_ref().unwrap();
        assert_eq!(out.public_key.to_bytes(), reordered.public_key.to_bytes());
        assert_eq!(out.private_share.to_bytes(), reordered.private_share.to_bytes());
    }
}

#[test]
fn test_duplicate_delivery_is_ignored() {
    // A repeated message from an already-seen sender is silently ignored
    // and never overwrites: delivering everything twice changes nothing.
    let ids = [0u32, 1, 2];
    let threshold = 2;
    let tag = 101;

    let straight = run_protocol(make_machines(&ids, threshold, tag)).unwrap();

    let mut machines = make_machines(&ids, threshold, tag);
    let n = machines.len();
    let mut results: Vec<Option<KeygenOutput>> = vec![None; n];
    for _pass in 0..200 {
        if results.iter().all(|r| r.is_some()) {
            break;
        }
        for i in 0..n {
            if results[i].is_some() {
                continue;
            }
            let from = machines[i].0;
            match machines[i].1.poke().unwrap() {
                Action::Wait => {},
                Action::Return(out) => results[i] = Some(out),
                Action::SendMany(round, payload) => {
                    for j in 0..n {
                        if j != i {
                            machines[j].1.message(from, round, payload.duplicate());
                            machines[j].1.message(from, round, payload.duplicate());
                        }
                    }
                },
                Action::SendPrivate(round, to, payload) => {
                    for j in 0..n {
                        if j != i && machines[j].0.id() == to.id() {
                            machines[j].1.message(from, round, payload.duplicate());
                            machines[j].1.message(from, round, payload.duplicate());
                        }
                    }
                },
            }
        }
    }

    for (i, (p, out)) in straight.iter().enumerate() {
        assert_eq!(p.id(), machines[i].0.id());
        let doubled = results[i].as_ref().unwrap();
        assert_eq!(out.public_key.to_bytes(), doubled.public_key.to_bytes());
        assert_eq!(out.private_share.to_bytes(), doubled.private_share.to_bytes());
    }
}
