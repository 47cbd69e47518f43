//! The cooperative protocol substrate: actions, wire payloads, per-round
//! mailboxes, the externally drivable state-machine contract, and the two
//! drivers built on it.
//!
//! A protocol instance is observed only through `poke`, which advances it
//! until it needs input or completes, and `message`, which delivers one
//! inbound payload.  `poke` never blocks: it returns `Wait` instead.

use vstd::prelude::*;

use crate::commit::Commitment;
use crate::curve::CurvePoint;
use crate::curve::CurveScalar;
use crate::participants::Participant;
use crate::proofs::DlogProof;

verus! {

/// Why a protocol run aborted: a cryptographic or consistency check
/// failed, naming the offending step and, where one exists, the
/// misbehaving sender.
#[derive(Clone, Copy, Debug, PartialEq, Eq, Structural)]
pub enum AssertionError {
    /// A confirmation did not match the locally computed one.
    ConfirmationMismatch(Participant),
    /// A revealed polynomial did not match the sender's commitment.
    CommitmentMismatch(Participant),
    /// A proof of knowledge failed to verify.
    ProofFailed(Participant),
    /// A revealed polynomial had the wrong number of coefficients.
    WrongDegree(Participant),
    /// A round carried a payload of the wrong kind.
    UnexpectedMessage(Participant),
    /// The final share consistency check failed.
    InconsistentShare,
}

/// A protocol run failure: terminal for the failing instance.
#[derive(Clone, Copy, Debug, PartialEq, Eq, Structural)]
pub enum ProtocolError {
    /// A mid-run cryptographic or consistency check failed.
    AssertionFailed(AssertionError),
    /// A driver gave up: no instance could make progress.
    Stalled,
}

impl ProtocolError {
    /// A short description of the failure.
    pub fn describe(&self) -> &'static str {
        match self {
            ProtocolError::AssertionFailed(AssertionError::ConfirmationMismatch(_)) => {
                "confirmation did not match expectation"
            },
            ProtocolError::AssertionFailed(AssertionError::CommitmentMismatch(_)) => {
                "commitment did not match revealed polynomial"
            },
            ProtocolError::AssertionFailed(AssertionError::ProofFailed(_)) => {
                "proof of knowledge failed to verify"
            },
            ProtocolError::AssertionFailed(AssertionError::WrongDegree(_)) => {
                "revealed polynomial had the wrong degree"
            },
            ProtocolError::AssertionFailed(AssertionError::UnexpectedMessage(_)) => {
                "round carried a payload of the wrong kind"
            },
            ProtocolError::AssertionFailed(AssertionError::InconsistentShare) => {
                "received bad private share"
            },
            ProtocolError::Stalled => "no instance could make progress",
        }
    }
}

/// One wire payload: what a round's message carries.
#[verifier::ext_equal]
pub enum Payload {
    /// A hash commitment to a revealed-later polynomial.
    Commit(Commitment),
    /// A confirmation hash over every received commitment.
    Confirm(Commitment),
    /// A committed polynomial with its proof of knowledge.
    Reveal(Vec<CurvePoint>, DlogProof),
    /// A private polynomial evaluation.
    Share(CurveScalar),
}

/// Copies a point list.
fn copy_points(points: &Vec<CurvePoint>) -> (r: Vec<CurvePoint>)
    ensures
        r@ == points@,
{
    let mut out: Vec<CurvePoint> = Vec::new();
    let mut i: usize = 0;
    while i < points.len()
        invariant
            i <= points@.len(),
            out@ =~= points@.subrange(0, i as int),
        decreases points@.len() - i,
    {
        out.push(points[i]);
        i += 1;
    }
    proof {
        assert(out@ =~= points@);
    }
    out
}

/// Whether two payloads carry the same message: equal kinds and equal
/// contents, with point lists compared element for element.
pub open spec fn payload_matches(a: Payload, b: Payload) -> bool {
    match (a, b) {
        (Payload::Commit(x), Payload::Commit(y)) => x == y,
        (Payload::Confirm(x), Payload::Confirm(y)) => x == y,
        (Payload::Reveal(p1, pr1), Payload::Reveal(p2, pr2)) => p1@ == p2@ && pr1 == pr2,
        (Payload::Share(x), Payload::Share(y)) => x == y,
        _ => false,
    }
}

impl Payload {
    /// A copy carrying the same message, made so one broadcast payload can
    /// go to every recipient.
    pub fn duplicate(&self) -> (r: Self)
        ensures
            payload_matches(r, *self),
    {
        match self {
            Payload::Commit(c) => Payload::Commit(*c),
            Payload::Confirm(c) => Payload::Confirm(*c),
            Payload::Reveal(points, proof) => Payload::Reveal(copy_points(points), *proof),
            Payload::Share(s) => Payload::Share(*s),
        }
    }
}

/// Whether an emitted action carries exactly the given queued entry: the
/// same round, the same addressing, and a payload carrying the same
/// message.
pub open spec fn action_matches_entry<O>(
    a: Action<O>,
    e: (usize, Option<Participant>, Payload),
) -> bool {
    match a {
        Action::SendMany(round, payload) => e.1 is None && round == e.0 && payload_matches(
            payload,
            e.2,
        ),
        Action::SendPrivate(round, to, payload) => e.1 == Some(to) && round == e.0
            && payload_matches(payload, e.2),
        _ => false,
    }
}

/// What one `poke` asks of its caller.
pub enum Action<O> {
    /// No progress without more input.
    Wait,
    /// Broadcast the payload to every other participant, addressed to the
    /// given round.
    SendMany(usize, Payload),
    /// Send the payload privately to one participant, addressed to the
    /// given round.
    SendPrivate(usize, Participant, Payload),
    /// The protocol completed with this output; no further call is
    /// meaningful.
    Return(O),
}

/// A per-round inbox: messages for different rounds never interleave, and
/// within a round senders may arrive in any order.
pub struct Mailbox {
    rounds: Vec<Vec<(Participant, Payload)>>,
}

impl Mailbox {
    /// The buffered messages, per round, oldest first.
    pub closed spec fn view(&self) -> Seq<Seq<(Participant, Payload)>> {
        self.rounds@.map_values(|q: Vec<(Participant, Payload)>| q@)
    }

    /// An empty mailbox with the given number of rounds.
    pub fn new(num_rounds: usize) -> (r: Self)
        ensures
            r@.len() == num_rounds,
            forall|i: int| 0 <= i < num_rounds ==> (#[trigger] r@[i]).len() == 0,
    {
        let mut rounds: Vec<Vec<(Participant, Payload)>> = Vec::new();
        let mut i: usize = 0;
        while i < num_rounds
            invariant
                i <= num_rounds,
                rounds@.len() == i,
                forall|k: int| 0 <= k < i ==> (#[trigger] rounds@[k])@.len() == 0,
            decreases num_rounds - i,
        {
            rounds.push(Vec::new());
            i += 1;
        }
        Mailbox { rounds }
    }

    /// The number of rounds.
    pub fn num_rounds(&self) -> (r: usize)
        ensures
            r == self@.len(),
    {
        self.rounds.len()
    }

    /// Buffers one message for a round.
    pub fn push(&mut self, round: usize, from: Participant, payload: Payload)
        requires
            round < old(self)@.len(),
        ensures
            final(self)@ == old(self)@.update(
                round as int,
                old(self)@[round as int].push((from, payload)),
            ),
    {
        let q = &mut self.rounds[round];
        q.push((from, payload));
        proof {
            assert(self@ =~= old(self)@.update(
                round as int,
                old(self)@[round as int].push((from, payload)),
            ));
        }
    }

    /// Yields the oldest buffered message of a round, if any.
    pub fn recv(&mut self, round: usize) -> (r: Option<(Participant, Payload)>)
        requires
            round < old(self)@.len(),
        ensures
            match r {
                Some(m) => old(self)@[round as int].len() > 0 && m == old(self)@[round as int][0]
                    && final(self)@ == old(self)@.update(
                    round as int,
                    old(self)@[round as int].drop_first(),
                ),
                None => old(self)@[round as int].len() == 0 && *final(self) == *old(self),
            },
    {
        if self.rounds[round].len() == 0 {
            return None;
        }
        let q = &mut self.rounds[round];
        let m = q.remove(0);
        proof {
            assert(self@ =~= old(self)@.update(
                round as int,
                old(self)@[round as int].drop_first(),
            ));
        }
        Some(m)
    }

    /// Whether every round's inbox is empty.
    pub fn is_empty(&self) -> (r: bool)
        ensures
            r == (forall|i: int| 0 <= i < self@.len() ==> (#[trigger] self@[i]).len() == 0),
    {
        let mut i: usize = 0;
        while i < self.rounds.len()
            invariant
                i <= self@.len(),
                forall|k: int| 0 <= k < i ==> (#[trigger] self@[k]).len() == 0,
            decreases self@.len() - i,
        {
            if self.rounds[i].len() > 0 {
                proof {
                    assert(!(forall|k: int|
                        0 <= k < self@.len() ==> (#[trigger] self@[k]).len() == 0)) by {
                        assert(0 <= (i as int) && (i as int) < self@.len() && self@[i as int].len() != 0);
                    }
                }
                return false;
            }
            i += 1;
        }
        true
    }
}

/// Why a protocol cannot start: the configuration is invalid and the
/// caller must fix it; such an error is never retried.
#[derive(Clone, Copy, Debug, PartialEq, Eq, Structural)]
pub enum InitializationError {
    /// Fewer than two participants.
    TooFewParticipants,
    /// The threshold exceeds the participant count.
    ThresholdTooLarge,
    /// The threshold is zero.
    ZeroThreshold,
    /// The participant list holds a duplicate.
    DuplicateParticipants,
    /// The local party is missing from the participant list.
    MissingParticipant,
    /// The local party is listed as a share holder but brought no share.
    MissingShare,
    /// The local party brought a share but is not listed as a holder.
    UnexpectedShare,
}

impl InitializationError {
    /// A short description of the configuration fault.
    pub fn describe(&self) -> &'static str {
        match self {
            InitializationError::TooFewParticipants => "participant count cannot be less than 2",
            InitializationError::ThresholdTooLarge => "threshold must not exceed participant count",
            InitializationError::ZeroThreshold => "threshold must be at least 1",
            InitializationError::DuplicateParticipants => {
                "participant list cannot contain duplicates"
            },
            InitializationError::MissingParticipant => {
                "participant list must contain this participant"
            },
            InitializationError::MissingShare => "listed share holder brought no share",
            InitializationError::UnexpectedShare => "unlisted participant brought a share",
        }
    }
}

/// The contract every cooperative protocol instance satisfies: `poke`
/// advances it and never blocks; `message` buffers one inbound payload.
/// Both preserve the instance's internal well-formedness.
pub trait Protocol: Sized {
    /// What the protocol produces on completion.
    type Output;

    /// The instance's internal well-formedness, established at
    /// construction and preserved by every call.
    spec fn wf(&self) -> bool;

    /// Advances the instance until it needs new input, asks the caller to
    /// transmit something, completes, or fails.
    fn poke(&mut self) -> (r: Result<Action<Self::Output>, ProtocolError>)
        requires
            old(self).wf(),
        ensures
            final(self).wf(),
    ;

    /// Delivers one inbound payload from a sender, addressed to a round.
    fn message(&mut self, from: Participant, round: usize, payload: Payload)
        requires
            old(self).wf(),
        ensures
            final(self).wf(),
    ;
}

/// How many driver passes the local simulator allows before it reports a
/// stall: generous for every honest run, whose rounds and queued sends are
/// few.
fn simulator_fuel(n: usize) -> (r: usize)
    ensures
        r >= 64,
{
    let m: usize = if n > 10000 {
        10000
    } else {
        n
    };
    proof {
        assert(8 * m * m <= 800000000) by (nonlinear_arith)
            requires
                m <= 10000,
        ;
    }
    64 + 8 * m * m
}

/// The local all-in-one simulator: owns every instance, pokes each in
/// turn, routes every emitted send into the addressed instances, and
/// repeats until every instance has returned.  Models a synchronous,
/// reliable network; a pass in which nothing progresses, or a run that
/// exhausts the driver's generous pass budget, reports a stall instead of
/// spinning.  Any instance failure is propagated and fatal.
#[verifier::loop_isolation(false)]
pub fn run_protocol<P: Protocol>(machines: Vec<(Participant, P)>) -> (r: Result<
    Vec<(Participant, P::Output)>,
    ProtocolError,
>)
    requires
        forall|i: int| 0 <= i < machines@.len() ==> (#[trigger] machines@[i]).1.wf(),
    ensures
        r matches Ok(outputs) ==> outputs@.len() == machines@.len() && forall|i: int|
            0 <= i < machines@.len() ==> (#[trigger] outputs@[i]).0 == machines@[i].0,
{
    let ghost original = machines@;
    let mut machines = machines;
    let n = machines.len();
    let mut participants: Vec<Participant> = Vec::new();
    let mut instances: Vec<P> = Vec::new();
    while machines.len() > 0
        invariant
            machines@.len() + participants@.len() == original.len(),
            participants@.len() == instances@.len(),
            forall|i: int| 0 <= i < participants@.len() ==> participants@[i] == original[i].0,
            forall|i: int| 0 <= i < machines@.len() ==> machines@[i] == original[
                participants@.len() + i
            ],
            forall|i: int| 0 <= i < instances@.len() ==> (#[trigger] instances@[i]).wf(),
        decreases machines@.len(),
    {
        let (p, m) = machines.remove(0);
        participants.push(p);
        instances.push(m);
    }
    let mut outputs: Vec<Option<P::Output>> = Vec::new();
    let mut i: usize = 0;
    while i < n
        invariant
            i <= n,
            outputs@.len() == i,
            forall|k: int| 0 <= k < i ==> outputs@[k] is None,
        decreases n - i,
    {
        outputs.push(None);
        i += 1;
    }

    let mut fuel = simulator_fuel(n);
    while fuel > 0
        invariant
            n == participants@.len(),
            n == instances@.len(),
            n == outputs@.len(),
            forall|i: int| 0 <= i < n ==> participants@[i] == original[i].0,
            forall|i: int| 0 <= i < n ==> (#[trigger] instances@[i]).wf(),
            original.len() == n,
        decreases fuel,
    {
        fuel -= 1;
        let mut progress = false;
        let mut done = true;
        let mut i: usize = 0;
        while i < n
            invariant
                n == participants@.len(),
                n == instances@.len(),
                n == outputs@.len(),
                i <= n,
                forall|t: int| 0 <= t < n ==> (#[trigger] instances@[t]).wf(),
                done ==> forall|t: int| 0 <= t < i ==> outputs@[t] is Some,
            decreases n - i,
        {
            if outputs[i].is_none() {
                let action = {
                    let m = &mut instances[i];
                    m.poke()
                };
                match action {
                    Err(e) => {
                        return Err(e);
                    },
                    Ok(Action::Wait) => {
                        done = false;
                    },
                    Ok(Action::Return(output)) => {
                        outputs[i] = Some(output);
                        progress = true;
                    },
                    Ok(Action::SendMany(round, payload)) => {
                        let from = participants[i];
                        let mut j: usize = 0;
                        while j < n
                            invariant
                                n == participants@.len(),
                                n == instances@.len(),
                                j <= n,
                                i < n,
                                from == participants@[i as int],
                                forall|t: int| 0 <= t < n ==> (#[trigger] instances@[t]).wf(),
                            decreases n - j,
                        {
                            if j != i {
                                let copy = payload.duplicate();
                                let m = &mut instances[j];
                                m.message(from, round, copy);
                            }
                            j += 1;
                        }
                        progress = true;
                        done = false;
                    },
                    Ok(Action::SendPrivate(round, to, payload)) => {
                        let from = participants[i];
                        let mut j: usize = 0;
                        while j < n
                            invariant
                                n == participants@.len(),
                                n == instances@.len(),
                                j <= n,
                                i < n,
                                from == participants@[i as int],
                                forall|t: int| 0 <= t < n ==> (#[trigger] instances@[t]).wf(),
                            decreases n - j,
                        {
                            if j != i && participants[j].id() == to.id() {
                                let copy = payload.duplicate();
                                let m = &mut instances[j];
                                m.message(from, round, copy);
                            }
                            j += 1;
                        }
                        progress = true;
                        done = false;
                    },
                }
            }
            i += 1;
        }
        if done {
            let mut result: Vec<(Participant, P::Output)> = Vec::new();
            let mut k: usize = 0;
            while k < n
                invariant
                    n == participants@.len(),
                    n == outputs@.len(),
                    k <= n,
                    result@.len() == k,
                    forall|t: int| 0 <= t < k ==> (#[trigger] result@[t]).0 == participants@[t],
                    forall|t: int| k <= t < n ==> outputs@[t] is Some,
                decreases n - k,
            {
                let output = {
                    let slot = &mut outputs[k];
                    slot.take()
                };
                match output {
                    Some(o) => result.push((participants[k], o)),
                    None => {
                        return Err(ProtocolError::Stalled);
                    },
                }
                k += 1;
            }
            return Ok(result);
        }
        if !progress {
            return Err(ProtocolError::Stalled);
        }
    }
    Err(ProtocolError::Stalled)
}

/// The round-robin multiplexer: pokes exactly the instance at `i` once per
/// invocation, routes its sends into the other resident instances, and
/// appends `(participant, output)` to `out` exactly when that instance
/// returns.  The caller cycles over not-yet-returned instances until `out`
/// reaches the expected size; an instance failure is propagated and fatal
/// for its run.
pub fn run_protocol_mpc<P: Protocol>(
    machines: &mut Vec<(Participant, P)>,
    size: usize,
    i: usize,
    out: &mut Vec<(Participant, P::Output)>,
) -> (r: Result<(), ProtocolError>)
    requires
        i < old(machines)@.len(),
        old(machines)@.len() == size,
        forall|k: int| 0 <= k < old(machines)@.len() ==> (#[trigger] old(machines)@[k]).1.wf(),
    ensures
        forall|k: int| 0 <= k < final(machines)@.len() ==> (#[trigger] final(machines)@[k]).1.wf(),
        final(machines)@.len() == old(machines)@.len(),
        forall|k: int| 0 <= k < old(machines)@.len() ==> (#[trigger] final(machines)@[k]).0 == old(
            machines,
        )@[k].0,
        final(out)@.len() >= old(out)@.len(),
        final(out)@.len() <= old(out)@.len() + 1,
        forall|k: int| 0 <= k < old(out)@.len() ==> final(out)@[k] == old(out)@[k],
        final(out)@.len() == old(out)@.len() + 1 ==> final(out)@.last().0 == old(machines)@[
            i as int
        ].0,
{
    let me = machines[i].0;

    let mut already_done = false;
    let mut k: usize = 0;
    while k < out.len()
        invariant
            k <= out@.len(),
        decreases out@.len() - k,
    {
        if out[k].0.id() == me.id() {
            already_done = true;
        }
        k += 1;
    }
    if already_done {
        return Ok(());
    }

    let action = {
        let m = &mut machines[i];
        m.1.poke()
    };
    match action {
        Err(e) => Err(e),
        Ok(Action::Wait) => Ok(()),
        Ok(Action::Return(output)) => {
            out.push((me, output));
            Ok(())
        },
        Ok(Action::SendMany(round, payload)) => {
            let mut j: usize = 0;
            while j < size
                invariant
                    size == machines@.len(),
                    i < size,
                    j <= size,
                    machines@.len() == old(machines)@.len(),
                    forall|k: int| 0 <= k < old(machines)@.len() ==> (#[trigger] machines@[k]).0
                        == old(machines)@[k].0,
                    forall|k: int| 0 <= k < machines@.len() ==> (#[trigger] machines@[k]).1.wf(),
                decreases size - j,
            {
                if j != i {
                    let copy = payload.duplicate();
                    let m = &mut machines[j];
                    m.1.message(me, round, copy);
                }
                j += 1;
            }
            Ok(())
        },
        Ok(Action::SendPrivate(round, to, payload)) => {
            let mut j: usize = 0;
            while j < size
                invariant
                    size == machines@.len(),
                    i < size,
                    j <= size,
                    machines@.len() == old(machines)@.len(),
                    forall|k: int| 0 <= k < old(machines)@.len() ==> (#[trigger] machines@[k]).0
                        == old(machines)@[k].0,
                    forall|k: int| 0 <= k < machines@.len() ==> (#[trigger] machines@[k]).1.wf(),
                decreases size - j,
            {
                if j != i && machines[j].0.id() == to.id() {
                    let copy = payload.duplicate();
                    let m = &mut machines[j];
                    m.1.message(me, round, copy);
                }
                j += 1;
            }
            Ok(())
        },
    }
}

} // verus!
