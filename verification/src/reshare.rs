//! Key resharing: fresh shares of the same secret under a new participant
//! set and threshold, without reconstructing the secret.
//!
//! Every holder of an old share deals a random polynomial of degree
//! `new_threshold - 1` whose constant term is its share times its Lagrange
//! coefficient over the old participant set, and sends each new
//! participant a private evaluation.  Each new participant's fresh share
//! is the sum of the evaluations it collects, one per old participant:
//! the sum of the dealt constant terms is the original secret, so the
//! fresh shares interpolate to it.  A participant that appears only in
//! the new set deals nothing and only collects.

use vstd::prelude::*;

use crate::curve::CurveScalar;
use crate::curve::rng_from_seed;
use crate::curve::sc_mul;
use crate::curve::sc_mul_bytes;
use crate::curve::zero32;
use crate::keygen::KeygenOutput;
use crate::keygen::recorded_share_views;
use crate::math::eval_poly;
use crate::math::lagrange_bytes;
use crate::math::lagrange_coefficient;
use crate::math::participant_scalar;
use crate::math::poly_eval_bytes;
use crate::math::scalar_views;
use crate::math::random_poly;
use crate::math::sc_sum_bytes;
use crate::math::sum_scalars;
use crate::math::eval_point_bytes;
use crate::participants::Participant;
use crate::participants::ParticipantList;
use crate::participants::ParticipantMap;
use crate::participants::distinct;
use crate::participants::lemma_filter_subset;
use crate::participants::not_equal_to;
use crate::participants::slots_preserved;
use crate::protocol::Action;
use crate::protocol::action_matches_entry;
use crate::protocol::AssertionError;
use crate::protocol::InitializationError;
use crate::protocol::Mailbox;
use crate::protocol::Payload;
use crate::protocol::Protocol;
use crate::protocol::ProtocolError;
use crate::protocol::run_protocol;

verus! {

/// Every slot of a contribution store is filled.
pub open spec fn scalar_slots_full(slots: Seq<Option<CurveScalar>>) -> bool {
    forall|i: int| 0 <= i < slots.len() ==> (#[trigger] slots[i]) is Some
}

/// What one queued send may be: a correct private evaluation of the
/// polynomial this participant deals, addressed to another new
/// participant, in the single round this protocol uses.
pub open spec fn reshare_entry_wf(m: &ReshareMachine, e: (usize, Option<Participant>, Payload)) -> bool {
    &&& e.0 == 0
    &&& match e.1 {
        Some(p) => m.new_list_spec().contains(p) && p != m.me_spec(),
        None => false,
    }
    &&& match (e.2, e.1, m.dealt_poly()) {
        (Payload::Share(s), Some(p), Some(poly)) => s@ == poly_eval_bytes(
            poly,
            eval_point_bytes(p),
        ),
        _ => false,
    }
}

/// Every entry of the send schedule is one of this participant's own
/// dealt evaluations.
pub open spec fn reshare_entries_wf(m: &ReshareMachine) -> bool {
    forall|i: int| 0 <= i < m.outbox_log().len() ==> reshare_entry_wf(
        m,
        #[trigger] m.outbox_log()[i],
    )
}

/// The shape of the send schedule: a dealer sends exactly one private
/// evaluation to every other new participant, in list order; a
/// participant without an old share sends nothing.
pub open spec fn reshare_outbox_shape(m: &ReshareMachine) -> bool {
    match m.dealt_poly() {
        Some(_) => {
            let others = m.new_list_spec().filter(not_equal_to(m.me_spec()));
            &&& m.outbox_log().len() == others.len()
            &&& forall|i: int| 0 <= i < others.len() ==> (#[trigger] m.outbox_log()[i]).1 == Some(
                others[i],
            )
        },
        None => m.outbox_log().len() == 0,
    }
}

/// Where a resharing run stands.
enum ResharePhase {
    Collect,
    Done,
    Failed(ProtocolError),
}

/// One participant's resharing run, drivable through the `Protocol`
/// contract.  Its output is the participant's fresh private share.
pub struct ReshareMachine {
    old_list: ParticipantList,
    new_list: ParticipantList,
    me: Participant,
    new_threshold: usize,
    phase: ResharePhase,
    mailbox: Mailbox,
    outbox: Vec<(usize, Option<Participant>, Payload)>,
    out_head: usize,
    contributions: ParticipantMap<CurveScalar>,
    dealer_poly: Option<Vec<CurveScalar>>,
}

impl ReshareMachine {
    /// The machine's internal well-formedness.
    pub closed spec fn machine_wf(&self) -> bool {
        &&& distinct(self.old_list@)
        &&& distinct(self.new_list@)
        &&& self.old_list@.len() >= 1
        &&& self.new_list@.len() >= 2
        &&& self.new_list@.contains(self.me)
        &&& 1 <= self.new_threshold <= self.new_list@.len()
        &&& self.mailbox@.len() == 1
        &&& self.out_head <= self.outbox@.len()
        &&& self.contributions.wf() && self.contributions.keys() == self.old_list@
        &&& self.phase is Done ==> self.out_head == self.outbox@.len()
        &&& match self.dealer_poly {
            Some(cs) => cs@.len() == self.new_threshold,
            None => true,
        }
        &&& reshare_entries_wf(self)
        &&& reshare_outbox_shape(self)
    }

    /// The participant this machine runs for.
    pub closed spec fn me_spec(&self) -> Participant {
        self.me
    }

    /// The new participant set.
    pub closed spec fn new_list_spec(&self) -> Seq<Participant> {
        self.new_list@
    }

    /// The old participant set: the dealers.
    pub closed spec fn old_list_spec(&self) -> Seq<Participant> {
        self.old_list@
    }

    /// The encodings of the coefficients this participant deals from, if
    /// it holds an old share.
    pub closed spec fn dealt_poly(&self) -> Option<Seq<Seq<u8>>> {
        match self.dealer_poly {
            Some(cs) => Some(scalar_views(cs@)),
            None => None,
        }
    }

    /// The full send schedule so far, oldest first.
    pub closed spec fn outbox_log(&self) -> Seq<(usize, Option<Participant>, Payload)> {
        self.outbox@
    }

    /// The sends already handed to the caller, oldest first.
    pub closed spec fn sent(&self) -> Seq<(usize, Option<Participant>, Payload)> {
        self.outbox@.take(self.out_head as int)
    }

    /// The sends queued but not yet handed to the caller, oldest first.
    pub closed spec fn queued(&self) -> Seq<(usize, Option<Participant>, Payload)> {
        self.outbox@.skip(self.out_head as int)
    }

    /// The buffered inbound messages, per round, oldest first.
    pub closed spec fn inbox(&self) -> Seq<Seq<(Participant, Payload)>> {
        self.mailbox@
    }

    /// Whether the machine is still collecting contributions.
    pub closed spec fn collecting(&self) -> bool {
        self.phase is Collect
    }

    /// The recorded per-dealer contributions, in old-list order.
    pub closed spec fn contribution_slots(&self) -> Seq<Option<CurveScalar>> {
        self.contributions.slots()
    }

    /// Whether every round's inbox is empty.
    pub closed spec fn quiet(&self) -> bool {
        forall|i: int| 0 <= i < self.mailbox@.len() ==> (#[trigger] self.mailbox@[i]).len() == 0
    }

    /// Whether the run has completed.
    pub closed spec fn is_done(&self) -> bool {
        self.phase is Done
    }

    /// The error the run aborted with, if it has failed.
    pub closed spec fn failure(&self) -> Option<ProtocolError> {
        match self.phase {
            ResharePhase::Failed(e) => Some(e),
            _ => None,
        }
    }

    /// The configuration never changes after construction.
    pub closed spec fn same_config(&self, other: &Self) -> bool {
        &&& self.old_list == other.old_list
        &&& self.new_list == other.new_list
        &&& self.me == other.me
        &&& self.new_threshold == other.new_threshold
    }

    /// Emits the next queued outgoing action, if one is pending.
    fn emit(&mut self) -> (r: Option<Action<CurveScalar>>)
        requires
            old(self).machine_wf(),
        ensures
            final(self).machine_wf(),
            final(self).same_config(old(self)),
            r is None ==> *final(self) == *old(self),
            r is None <==> old(self).queued().len() == 0,
            r matches Some(a) ==> (a is SendMany || a is SendPrivate)
                && action_matches_entry(a, old(self).queued()[0])
                && final(self).queued() == old(self).queued().drop_first()
                && final(self).sent() == old(self).sent().push(old(self).queued()[0]),
            final(self).outbox_log() == old(self).outbox_log(),
            final(self).mailbox == old(self).mailbox,
            final(self).phase == old(self).phase,
            final(self).contributions == old(self).contributions,
    {
        if self.out_head < self.outbox.len() {
            let entry = &self.outbox[self.out_head];
            let round = entry.0;
            let to = entry.1;
            let payload = entry.2.duplicate();
            let ghost head = self.out_head as int;
            self.out_head += 1;
            proof {
                assert(old(self).queued()[0] == old(self).outbox@[head]);
                assert(self.queued() =~= old(self).queued().drop_first());
                assert(self.sent() =~= old(self).sent().push(old(self).outbox@[head]));
            }
            match to {
                Some(p) => Some(Action::SendPrivate(round, p, payload)),
                None => Some(Action::SendMany(round, payload)),
            }
        } else {
            None
        }
    }

    /// Processes buffered contributions: records the first from each old
    /// participant, and once every one is in, folds them into the fresh
    /// share and completes.
    fn process_contributions(&mut self) -> (r: Result<Option<CurveScalar>, ProtocolError>)
        requires
            old(self).machine_wf(),
            old(self).phase is Collect,
            old(self).out_head == old(self).outbox@.len(),
        ensures
            final(self).machine_wf(),
            final(self).same_config(old(self)),
            final(self).sent() == old(self).sent(),
            final(self).queued() == old(self).queued(),
            slots_preserved(old(self).contribution_slots(), final(self).contribution_slots()),
            r matches Ok(Some(x)) ==> final(self).is_done() && scalar_slots_full(
                final(self).contribution_slots(),
            ) && x@ == sc_sum_bytes(recorded_share_views(final(self).contribution_slots())),
            r matches Ok(None) ==> final(self).phase is Collect && final(self).inbox()[0].len()
                == 0,
            old(self).quiet() ==> (r matches Ok(None)) && *final(self) == *old(self),
            r matches Err(e) ==> final(self).failure() == Some(e),
        decreases old(self).mailbox@[0].len(),
    {
        let next = self.mailbox.recv(0);
        match next {
            None => Ok(None),
            Some((from, payload)) => {
                match payload {
                    Payload::Share(s) => {
                        match self.contributions.index_of(from) {
                            None => {},
                            Some(idx) => {
                                if !self.contributions.filled_at(idx) {
                                    self.contributions.put_at(idx, s);
                                }
                            },
                        }
                        if self.contributions.full() {
                            let values = crate::keygen::gather_scalar_slots(&self.contributions);
                            let x = sum_scalars(&values);
                            self.phase = ResharePhase::Done;
                            Ok(Some(x))
                        } else {
                            self.process_contributions()
                        }
                    },
                    _ => {
                        let e = ProtocolError::AssertionFailed(
                            AssertionError::UnexpectedMessage(from),
                        );
                        self.phase = ResharePhase::Failed(e);
                        Err(e)
                    },
                }
            },
        }
    }

    /// Advances the run: emits the oldest queued send if one is pending,
    /// otherwise works through the buffered contributions.  `Wait` comes
    /// back only with nothing queued and the inbox empty; with nothing
    /// buffered at all the machine is exactly as it was.
    pub fn step(&mut self) -> (r: Result<Action<CurveScalar>, ProtocolError>)
        requires
            old(self).machine_wf(),
        ensures
            final(self).machine_wf(),
            final(self).same_config(old(self)),
            reshare_entries_wf(final(self)),
            reshare_outbox_shape(final(self)),
            slots_preserved(old(self).contribution_slots(), final(self).contribution_slots()),
            r matches Ok(Action::Return(x)) ==> final(self).is_done() && scalar_slots_full(
                final(self).contribution_slots(),
            ) && x@ == sc_sum_bytes(recorded_share_views(final(self).contribution_slots())),
            r matches Ok(Action::Wait) && old(self).quiet() ==> *final(self) == *old(self),
            r matches Ok(Action::Wait) ==> final(self).queued().len() == 0 && (final(self).collecting() ==> final(self).inbox()[0].len() == 0),
            r matches Ok(a) ==> ((a is SendMany || a is SendPrivate) ==> final(self).sent() == old(self).sent().push(final(self).sent().last()) && action_matches_entry(
                a,
                final(self).sent().last(),
            )),
            r matches Err(e) ==> final(self).failure() == Some(e),
            old(self).failure() matches Some(e) ==> r == Err::<Action<CurveScalar>, ProtocolError>(
                e,
            ) && *final(self) == *old(self),
            old(self).is_done() ==> (r matches Ok(Action::Wait)) && *final(self) == *old(self),
    {
        if let ResharePhase::Failed(e) = &self.phase {
            return Err(*e);
        }
        match self.emit() {
            Some(action) => Ok(action),
            None => {
                let phase_is_collect = matches!(self.phase, ResharePhase::Collect);
                if phase_is_collect {
                    match self.process_contributions() {
                        Err(e) => Err(e),
                        Ok(None) => Ok(Action::Wait),
                        Ok(Some(x)) => Ok(Action::Return(x)),
                    }
                } else {
                    match self.phase {
                        ResharePhase::Failed(e) => Err(e),
                        _ => Ok(Action::Wait),
                    }
                }
            },
        }
    }

    /// Buffers one inbound payload; rounds this protocol never uses are
    /// dropped.
    pub fn deliver(&mut self, from: Participant, round: usize, payload: Payload)
        requires
            old(self).machine_wf(),
        ensures
            final(self).machine_wf(),
            final(self).same_config(old(self)),
            final(self).collecting() == old(self).collecting(),
            final(self).is_done() == old(self).is_done(),
            final(self).failure() == old(self).failure(),
            round < 1 ==> final(self).inbox() == old(self).inbox().update(
                round as int,
                old(self).inbox()[round as int].push((from, payload)),
            ),
            round >= 1 ==> *final(self) == *old(self),
            final(self).sent() == old(self).sent(),
            final(self).queued() == old(self).queued(),
            final(self).contribution_slots() == old(self).contribution_slots(),
    {
        if round < 1 {
            self.mailbox.push(round, from, payload);
        }
    }
}

impl Protocol for ReshareMachine {
    type Output = CurveScalar;

    open spec fn wf(&self) -> bool {
        self.machine_wf()
    }

    fn poke(&mut self) -> (r: Result<Action<CurveScalar>, ProtocolError>) {
        self.step()
    }

    fn message(&mut self, from: Participant, round: usize, payload: Payload) {
        self.deliver(from, round, payload);
    }
}

/// Starts one participant's resharing run.  The old participants are the
/// dealers; every new participant collects one contribution per dealer.
/// A local party listed among the old participants must bring its old
/// share, and only such a party may.  Dealing randomness comes from a
/// byte stream seeded by `seed`.  Rejects exactly the invalid
/// configurations; a rejected run never starts.
pub fn reshare(
    old_participants: &Vec<Participant>,
    old_threshold: usize,
    new_participants: &Vec<Participant>,
    new_threshold: usize,
    me: Participant,
    my_share: Option<CurveScalar>,
    seed: &[u8; 32],
) -> (r: Result<ReshareMachine, InitializationError>)
    ensures
        match r {
            Ok(m) => {
                &&& m.wf()
                &&& new_participants@.len() >= 2
                &&& 1 <= new_threshold <= new_participants@.len()
                &&& 1 <= old_threshold <= old_participants@.len()
                &&& distinct(new_participants@)
                &&& distinct(old_participants@)
                &&& new_participants@.contains(me)
                &&& (old_participants@.contains(me) <==> my_share is Some)
                &&& m.me_spec() == me
                &&& m.new_list_spec() == new_participants@
                &&& m.old_list_spec() == old_participants@
                &&& m.quiet()
                &&& m.sent().len() == 0
                &&& reshare_entries_wf(&m)
                &&& reshare_outbox_shape(&m)
                &&& (m.dealt_poly() is Some <==> my_share is Some)
                &&& match m.dealt_poly() {
                    Some(poly) => {
                        &&& poly.len() == new_threshold
                        &&& exists|i0: int|
                            0 <= i0 < old_participants@.len() && (#[trigger] old_participants@[i0])
                                == me && poly[0] == sc_mul_bytes(
                                lagrange_bytes(old_participants@, i0),
                                my_share.unwrap()@,
                            ) && match m.contribution_slots()[i0] {
                                Some(own) => own@ == poly_eval_bytes(poly, eval_point_bytes(me)),
                                None => false,
                            }
                    },
                    None => forall|i: int|
                        0 <= i < m.contribution_slots().len() ==> (
                        #[trigger] m.contribution_slots()[i]) is None,
                }
            },
            Err(InitializationError::TooFewParticipants) => new_participants@.len() < 2,
            Err(InitializationError::ThresholdTooLarge) => new_threshold
                > new_participants@.len() || old_threshold > old_participants@.len(),
            Err(InitializationError::ZeroThreshold) => new_threshold == 0 || old_threshold == 0,
            Err(InitializationError::DuplicateParticipants) => !distinct(new_participants@)
                || !distinct(old_participants@) || lagrange_den_is_zero(old_participants@),
            Err(InitializationError::MissingParticipant) => !new_participants@.contains(me),
            Err(InitializationError::MissingShare) => old_participants@.contains(me)
                && my_share is None,
            Err(InitializationError::UnexpectedShare) => !old_participants@.contains(me)
                && my_share is Some,
        },
{
    if new_participants.len() < 2 {
        return Err(InitializationError::TooFewParticipants);
    }
    if new_threshold > new_participants.len() {
        return Err(InitializationError::ThresholdTooLarge);
    }
    if new_threshold == 0 {
        return Err(InitializationError::ZeroThreshold);
    }
    if old_threshold > old_participants.len() {
        return Err(InitializationError::ThresholdTooLarge);
    }
    if old_threshold == 0 {
        return Err(InitializationError::ZeroThreshold);
    }
    let new_list = match ParticipantList::new(new_participants) {
        Some(list) => list,
        None => {
            return Err(InitializationError::DuplicateParticipants);
        },
    };
    let old_list = match ParticipantList::new(old_participants) {
        Some(list) => list,
        None => {
            return Err(InitializationError::DuplicateParticipants);
        },
    };
    if !new_list.contains(me) {
        return Err(InitializationError::MissingParticipant);
    }
    let my_old_index = old_list.index_of(me);
    let dealer_share = match (my_old_index, my_share) {
        (Some(idx), Some(share)) => Some((idx, share)),
        (Some(_), None) => {
            return Err(InitializationError::MissingShare);
        },
        (None, Some(_)) => {
            return Err(InitializationError::UnexpectedShare);
        },
        (None, None) => None,
    };

    let mut contributions: ParticipantMap<CurveScalar> = ParticipantMap::new(&old_list);
    let mut outbox: Vec<(usize, Option<Participant>, Payload)> = Vec::new();
    let mut dealer_poly: Option<Vec<CurveScalar>> = None;

    if let Some((my_old_idx, share)) = dealer_share {
        let lambda = match lagrange_coefficient(old_participants, my_old_idx) {
            Some(l) => l,
            None => {
                return Err(InitializationError::DuplicateParticipants);
            },
        };
        let constant = sc_mul(&lambda, &share);
        let mut rng = rng_from_seed(seed);
        let tail = random_poly(&mut rng, new_threshold - 1);
        let mut coeffs: Vec<CurveScalar> = Vec::new();
        coeffs.push(constant);
        let mut i: usize = 0;
        while i < tail.len()
            invariant
                i <= tail@.len(),
                coeffs@.len() == 1 + i,
                coeffs@[0] == constant,
            decreases tail@.len() - i,
        {
            coeffs.push(tail[i]);
            i += 1;
        }

        let others = new_list.others(me);
        let mut i: usize = 0;
        while i < others.len()
            invariant
                i <= others@.len(),
                outbox@.len() == i,
                forall|k: int| 0 <= k < i ==> {
                    let e = #[trigger] outbox@[k];
                    e.0 == 0 && e.1 == Some(others@[k]) && match e.2 {
                        Payload::Share(s) => s@ == poly_eval_bytes(
                            scalar_views(coeffs@),
                            eval_point_bytes(others@[k]),
                        ),
                        _ => false,
                    }
                },
            decreases others@.len() - i,
        {
            let p = others[i];
            let x = eval_poly(&coeffs, &participant_scalar(&p));
            outbox.push((0, Some(p), Payload::Share(x)));
            i += 1;
        }

        let own = eval_poly(&coeffs, &participant_scalar(&me));
        contributions.put_at(my_old_idx, own);
        dealer_poly = Some(coeffs);
    }

    let m = ReshareMachine {
        old_list,
        new_list,
        me,
        new_threshold,
        phase: ResharePhase::Collect,
        mailbox: Mailbox::new(1),
        outbox,
        out_head: 0,
        contributions,
        dealer_poly,
    };
    proof {
        let others_spec = m.new_list@.filter(not_equal_to(me));
        assert forall|k: int| 0 <= k < m.outbox@.len() implies reshare_entry_wf(
            &m,
            #[trigger] m.outbox@[k],
        ) by {
            lemma_filter_subset(m.new_list@, not_equal_to(me), k);
            m.new_list@.lemma_filter_pred(not_equal_to(me), k);
        }
        assert(m.sent() =~= Seq::<(usize, Option<Participant>, Payload)>::empty());
        assert(m.queued() =~= m.outbox@);
    }
    Ok(m)
}

/// Whether some listed participant's Lagrange denominator collapses to
/// zero: impossible for distinct identities, but the arithmetic is the
/// curve library's and stays behind its contract.
pub open spec fn lagrange_den_is_zero(parts: Seq<Participant>) -> bool {
    exists|i: int|
        0 <= i < parts.len() && crate::math::lagrange_den_bytes(parts, i, parts.len() as int)
            == zero32()
}

/// One fresh 32-byte seed from the operating system's randomness source.
///
/// Relies on `rand_core::OsRng::fill_bytes`; nothing is promised of the
/// value.
#[verifier::external_body]
fn os_seed() -> [u8; 32] {
    let mut bytes = [0u8; 32];
    rand_core::RngCore::fill_bytes(&mut rand_core::OsRng, &mut bytes);
    bytes
}

/// The participants of a share list, in order: the dealers of a
/// resharing.
pub open spec fn holders_of(pairs: Seq<(Participant, KeygenOutput)>) -> Seq<Participant> {
    Seq::new(pairs.len(), |i: int| pairs[i].0)
}

/// A resharing configuration every participant's constructor accepts:
/// valid sizes and thresholds, duplicate-free lists.
pub open spec fn reshare_config_ok(
    old: Seq<Participant>,
    old_threshold: int,
    new: Seq<Participant>,
    new_threshold: int,
) -> bool {
    &&& new.len() >= 2
    &&& 1 <= new_threshold <= new.len()
    &&& 1 <= old_threshold <= old.len()
    &&& distinct(new)
    &&& distinct(old)
}

/// Runs a whole resharing in one process: builds one machine per new
/// participant, handing each old participant its recorded share and a
/// fresh seed, and drives them all with the local simulator.  Yields one
/// `(participant, fresh share)` pair per new participant, in list order.
/// An invalid configuration always yields nothing; a run can also fail on
/// a stall or an instance error, which the drivers cannot rule out.
pub fn run_reshare(
    old_participants: &Vec<(Participant, KeygenOutput)>,
    old_threshold: usize,
    new_participants: &Vec<Participant>,
    new_threshold: usize,
) -> (r: Option<Vec<(Participant, CurveScalar)>>)
    ensures
        r matches Some(v) ==> v@.len() == new_participants@.len() && (forall|i: int|
            0 <= i < v@.len() ==> (#[trigger] v@[i]).0 == new_participants@[i])
            && reshare_config_ok(
            holders_of(old_participants@),
            old_threshold as int,
            new_participants@,
            new_threshold as int,
        ),
        !reshare_config_ok(
            holders_of(old_participants@),
            old_threshold as int,
            new_participants@,
            new_threshold as int,
        ) ==> r is None,
{
    if new_participants.len() < 2 {
        return None;
    }
    let mut old_list: Vec<Participant> = Vec::new();
    let mut i: usize = 0;
    while i < old_participants.len()
        invariant
            i <= old_participants@.len(),
            old_list@ =~= holders_of(old_participants@).subrange(0, i as int),
        decreases old_participants@.len() - i,
    {
        old_list.push(old_participants[i].0);
        i += 1;
    }
    proof {
        assert(old_list@ =~= holders_of(old_participants@));
    }

    let mut machines: Vec<(Participant, ReshareMachine)> = Vec::new();
    let mut i: usize = 0;
    while i < new_participants.len()
        invariant
            i <= new_participants@.len(),
            new_participants@.len() >= 2,
            old_list@ == holders_of(old_participants@),
            machines@.len() == i,
            forall|k: int| 0 <= k < i ==> (#[trigger] machines@[k]).0 == new_participants@[k],
            forall|k: int| 0 <= k < i ==> (#[trigger] machines@[k]).1.wf(),
            i > 0 ==> reshare_config_ok(
                holders_of(old_participants@),
                old_threshold as int,
                new_participants@,
                new_threshold as int,
            ),
        decreases new_participants@.len() - i,
    {
        let me = new_participants[i];
        let mut share: Option<CurveScalar> = None;
        let mut j: usize = 0;
        while j < old_participants.len()
            invariant
                j <= old_participants@.len(),
            decreases old_participants@.len() - j,
        {
            if old_participants[j].0.id() == me.id() {
                share = Some(old_participants[j].1.private_share);
            }
            j += 1;
        }
        let seed = os_seed();
        let machine = match reshare(
            &old_list,
            old_threshold,
            new_participants,
            new_threshold,
            me,
            share,
            &seed,
        ) {
            Ok(m) => m,
            Err(_) => {
                return None;
            },
        };
        machines.push((me, machine));
        i += 1;
    }

    match run_protocol(machines) {
        Ok(v) => Some(v),
        Err(_) => None,
    }
}

} // verus!
