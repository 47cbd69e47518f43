//! Distributed key generation.
//!
//! Every participant samples a random polynomial of degree
//! `threshold - 1`, hash-commits to its public image, and broadcasts the
//! commitment (round 0); confirms the full commitment set (round 1);
//! reveals the public image with a proof of knowledge of its constant term
//! (round 2); and sends each other participant a private evaluation of its
//! polynomial (round 3).  A participant aborts on the first mismatching
//! confirmation, commitment or proof, and on an inconsistent final share.
//! The run is deterministic in the participant set, the threshold, and the
//! 32-byte seed the nonces and coefficients are drawn from.

use vstd::prelude::*;

use crate::commit::Commitment;
use crate::commit::commit_commitments;
use crate::commit::encoded_commitments;
use crate::commit::commit_points;
use crate::commit::encoded_points;
use crate::commit::hash32;
use crate::commit::vec_of_bytes32;
use crate::curve::CurvePoint;
use crate::curve::CurveScalar;
use crate::curve::g_mul;
use crate::curve::g_mul_bytes;
use crate::curve::pt_add_bytes;
use crate::curve::rng_from_seed;
use crate::math::commit_poly;
use crate::math::eval_point_bytes;
use crate::math::eval_group_poly;
use crate::math::eval_poly;
use crate::math::gpoly_eval_bytes;
use crate::math::participant_scalar;
use crate::math::poly_eval_bytes;
use crate::math::point_views;
use crate::math::random_poly;
use crate::math::sc_sum_bytes;
use crate::math::scalar_views;
use crate::math::sum_scalars;
use crate::participants::Participant;
use crate::participants::ParticipantList;
use crate::participants::ParticipantMap;
use crate::participants::distinct;
use crate::participants::not_equal_to;
use crate::participants::slots_preserved;
use crate::participants::u32_be_bytes;
use crate::proofs::dlog_prove;
use crate::proofs::dlog_verify;
use crate::protocol::Action;
use crate::protocol::action_matches_entry;
use crate::protocol::AssertionError;
use crate::protocol::InitializationError;
use crate::protocol::Mailbox;
use crate::protocol::Payload;
use crate::protocol::Protocol;
use crate::protocol::ProtocolError;
use crate::transcript::transcript_forked;
use crate::transcript::transcript_message;
use crate::transcript::transcript_new;

verus! {

/// The result of one participant's run: its private share of the joint
/// secret, and the joint public key, identical at every honest
/// participant.
#[derive(Clone, Copy)]
pub struct KeygenOutput {
    pub private_share: CurveScalar,
    pub public_key: CurvePoint,
}

/// Where a run stands: which round it is collecting, or that it finished
/// or failed.
enum KeygenPhase {
    CollectCommitments,
    CollectConfirmations,
    CollectReveals,
    CollectShares,
    Done,
    Failed(ProtocolError),
}

/// The big-endian bytes of a 64-bit value, used to absorb the threshold
/// into the transcript identically on every platform.
pub open spec fn u64_be_bytes(x: u64) -> Seq<u8> {
    seq![
        (x >> 56) as u8,
        (x >> 48) as u8,
        (x >> 40) as u8,
        (x >> 32) as u8,
        (x >> 24) as u8,
        (x >> 16) as u8,
        (x >> 8) as u8,
        x as u8,
    ]
}

/// The big-endian bytes of a 64-bit value.
fn u64_be_vec(x: u64) -> (r: Vec<u8>)
    ensures
        r@ == u64_be_bytes(x),
{
    let mut out: Vec<u8> = Vec::new();
    out.push((x >> 56u64) as u8);
    out.push((x >> 48u64) as u8);
    out.push((x >> 40u64) as u8);
    out.push((x >> 32u64) as u8);
    out.push((x >> 24u64) as u8);
    out.push((x >> 16u64) as u8);
    out.push((x >> 8u64) as u8);
    out.push(x as u8);
    proof {
        assert(out@ =~= u64_be_bytes(x));
    }
    out
}

/// The canonical encoding of a participant list: the big-endian identity
/// bytes concatenated in order.
pub open spec fn encoded_participants(s: Seq<Participant>) -> Seq<u8>
    decreases s.len(),
{
    if s.len() == 0 {
        Seq::empty()
    } else {
        encoded_participants(s.drop_last()) + u32_be_bytes(s.last().id)
    }
}

/// The canonical encoding of a participant list.
fn encode_participants(list: &ParticipantList) -> (r: Vec<u8>)
    ensures
        r@ == encoded_participants(list@),
{
    let mut out: Vec<u8> = Vec::new();
    let n = list.len();
    let mut i: usize = 0;
    proof {
        assert(encoded_participants(list@.subrange(0, 0int)) =~= Seq::<u8>::empty());
    }
    while i < n
        invariant
            i <= n,
            n == list@.len(),
            out@ == encoded_participants(list@.subrange(0, i as int)),
        decreases n - i,
    {
        let p = list.at(i);
        let mut bytes = p.bytes();
        out.append(&mut bytes);
        proof {
            assert(list@.subrange(0, i as int + 1).drop_last() =~= list@.subrange(0, i as int));
            assert(list@.subrange(0, i as int + 1).last() == list@[i as int]);
        }
        i += 1;
    }
    proof {
        assert(list@.subrange(0, n as int) =~= list@);
    }
    out
}

/// Every recorded revealed polynomial has exactly `threshold`
/// coefficients.
pub open spec fn reveal_slots_wf(slots: Seq<Option<Vec<CurvePoint>>>, threshold: int) -> bool {
    forall|i: int| 0 <= i < slots.len() ==> match (#[trigger] slots[i]) {
        Option::Some(v) => v@.len() == threshold,
        Option::None => true,
    }
}

/// The recorded values of a full commitment store, in list order.
pub open spec fn recorded_commitments(slots: Seq<Option<Commitment>>) -> Seq<Commitment> {
    Seq::new(slots.len(), |i: int| slots[i]->0)
}

/// The encodings of the recorded values of a full share store, in list
/// order.
pub open spec fn recorded_share_views(slots: Seq<Option<CurveScalar>>) -> Seq<Seq<u8>> {
    Seq::new(slots.len(), |i: int| (slots[i]->0)@)
}

/// The encoding of coefficient `k` of the joint committed polynomial: the
/// fold of point addition over coefficient `k` of the first `n` revealed
/// polynomials, in list order.
pub open spec fn joint_coeff_views(slots: Seq<Option<Vec<CurvePoint>>>, k: int, n: int) -> Seq<u8>
    decreases n,
{
    if n <= 1 {
        (slots[0]->0)@[k]@
    } else {
        pt_add_bytes(joint_coeff_views(slots, k, n - 1), (slots[n - 1]->0)@[k]@)
    }
}

/// The encodings of the joint committed polynomial's coefficients.
pub open spec fn joint_poly_views(slots: Seq<Option<Vec<CurvePoint>>>, t: int) -> Seq<Seq<u8>> {
    Seq::new(t as nat, |k: int| joint_coeff_views(slots, k, slots.len() as int))
}

/// Accepts a received confirmation exactly when it equals the locally
/// computed one; any difference, a single flipped byte included, is an
/// `AssertionFailed` abort naming the sender.
pub fn check_confirmation(expected: &Commitment, received: &Commitment, from: Participant) -> (r:
    Result<(), ProtocolError>)
    ensures
        r is Ok <==> received@ == expected@,
        r matches Err(e) ==> e == ProtocolError::AssertionFailed(
            AssertionError::ConfirmationMismatch(from),
        ) && received@ != expected@,
{
    if expected.equals(received) {
        Ok(())
    } else {
        Err(ProtocolError::AssertionFailed(AssertionError::ConfirmationMismatch(from)))
    }
}

/// Accepts a revealed polynomial exactly when it has the committed-to
/// degree, re-hashes to the sender's round-0 commitment, and came with a
/// verifying proof; any difference, a single flipped commitment byte
/// included, is an `AssertionFailed` abort naming the sender and the
/// check that caught it.
pub fn check_reveal(
    expected: &Commitment,
    points: &Vec<CurvePoint>,
    threshold: usize,
    proof_ok: bool,
    from: Participant,
) -> (r: Result<(), ProtocolError>)
    ensures
        r is Ok <==> points@.len() == threshold && hash32(encoded_points(points@)) == expected@
            && proof_ok,
        r matches Err(e) ==> {
            ||| e == ProtocolError::AssertionFailed(AssertionError::WrongDegree(from))
                && points@.len() != threshold
            ||| e == ProtocolError::AssertionFailed(AssertionError::CommitmentMismatch(from))
                && points@.len() == threshold && hash32(encoded_points(points@)) != expected@
            ||| e == ProtocolError::AssertionFailed(AssertionError::ProofFailed(from))
                && points@.len() == threshold && hash32(encoded_points(points@)) == expected@
                && !proof_ok
        },
{
    if points.len() != threshold {
        return Err(ProtocolError::AssertionFailed(AssertionError::WrongDegree(from)));
    }
    let c = commit_points(points);
    if !c.equals(expected) {
        return Err(ProtocolError::AssertionFailed(AssertionError::CommitmentMismatch(from)));
    }
    if !proof_ok {
        return Err(ProtocolError::AssertionFailed(AssertionError::ProofFailed(from)));
    }
    Ok(())
}

/// Copies a point list.
fn copy_points(points: &Vec<CurvePoint>) -> (r: Vec<CurvePoint>)
    ensures
        r@ == points@,
{
    let mut out: Vec<CurvePoint> = Vec::new();
    let mut i: usize = 0;
    while i < points.len()
        invariant
            i <= points@.len(),
            out@ =~= points@.subrange(0, i as int),
        decreases points@.len() - i,
    {
        out.push(points[i]);
        i += 1;
    }
    proof {
        assert(out@ =~= points@);
    }
    out
}

/// One participant's distributed-key-generation run, drivable through the
/// `Protocol` contract.
pub struct KeygenMachine {
    list: ParticipantList,
    me: Participant,
    me_index: usize,
    threshold: usize,
    rng: magikitten::MeowRng,
    transcript: magikitten::Transcript,
    phase: KeygenPhase,
    mailbox: Mailbox,
    outbox: Vec<(usize, Option<Participant>, Payload)>,
    out_head: usize,
    coeffs: Vec<CurveScalar>,
    big_f: Vec<CurvePoint>,
    my_confirmation: Option<Commitment>,
    commitments: ParticipantMap<Commitment>,
    confirmed: ParticipantMap<bool>,
    reveals: ParticipantMap<Vec<CurvePoint>>,
    shares: ParticipantMap<CurveScalar>,
}

impl KeygenMachine {
    /// The machine's internal well-formedness.
    pub closed spec fn machine_wf(&self) -> bool {
        &&& distinct(self.list@)
        &&& self.list@.len() >= 2
        &&& self.me_index < self.list@.len()
        &&& self.list@[self.me_index as int] == self.me
        &&& 1 <= self.threshold <= self.list@.len()
        &&& self.mailbox@.len() == 4
        &&& self.out_head <= self.outbox@.len()
        &&& self.coeffs@.len() == self.threshold
        &&& self.big_f@.len() == self.threshold
        &&& forall|i: int| 0 <= i < self.big_f@.len() ==> (#[trigger] self.big_f@[i])@
            == g_mul_bytes(self.coeffs@[i]@)
        &&& match self.my_confirmation {
            Some(c) => c@ == hash32(
                encoded_commitments(recorded_commitments(self.commitments.slots())),
            ),
            None => true,
        }
        &&& outbox_entries_wf(self)
        &&& keygen_outbox_shape(self)
        &&& self.commitments.wf() && self.commitments.keys() == self.list@
        &&& self.confirmed.wf() && self.confirmed.keys() == self.list@
        &&& self.reveals.wf() && self.reveals.keys() == self.list@
        &&& self.shares.wf() && self.shares.keys() == self.list@
        &&& reveal_slots_wf(self.reveals.slots(), self.threshold as int)
        &&& match self.phase {
            KeygenPhase::CollectCommitments => self.my_confirmation is None,
            KeygenPhase::CollectConfirmations | KeygenPhase::CollectReveals => {
                self.commitments.is_full() && self.my_confirmation is Some
            },
            KeygenPhase::CollectShares => {
                self.commitments.is_full() && self.my_confirmation is Some
                    && self.reveals.is_full()
            },
            KeygenPhase::Done => {
                self.commitments.is_full() && self.my_confirmation is Some
                    && self.reveals.is_full() && self.out_head == self.outbox@.len()
            },
            KeygenPhase::Failed(_) => true,
        }
    }

    /// The participant this machine runs for.
    pub closed spec fn me_spec(&self) -> Participant {
        self.me
    }

    /// The participant set this machine runs over.
    pub closed spec fn list_spec(&self) -> Seq<Participant> {
        self.list@
    }

    /// The reconstruction threshold.
    pub closed spec fn threshold_spec(&self) -> int {
        self.threshold as int
    }

    /// The recorded private-share contributions, one per participant.
    pub closed spec fn share_slots(&self) -> Seq<Option<CurveScalar>> {
        self.shares.slots()
    }

    /// The recorded revealed polynomials, one per participant.
    pub closed spec fn reveal_slots(&self) -> Seq<Option<Vec<CurvePoint>>> {
        self.reveals.slots()
    }

    /// Whether every round's inbox is empty: nothing undelivered is
    /// pending inside the machine.
    pub closed spec fn quiet(&self) -> bool {
        forall|i: int| 0 <= i < self.mailbox@.len() ==> (#[trigger] self.mailbox@[i]).len() == 0
    }

    /// Whether the run has completed.
    pub closed spec fn is_done(&self) -> bool {
        self.phase is Done
    }

    /// The error the run aborted with, if it has failed.
    pub closed spec fn failure(&self) -> Option<ProtocolError> {
        match self.phase {
            KeygenPhase::Failed(e) => Some(e),
            _ => None,
        }
    }

    /// Whether two states stand at the same phase of the run.
    pub closed spec fn same_phase(&self, other: &Self) -> bool {
        self.phase == other.phase
    }

    /// The configuration never changes after construction.
    pub closed spec fn same_config(&self, other: &Self) -> bool {
        &&& self.list == other.list
        &&& self.me == other.me
        &&& self.me_index == other.me_index
        &&& self.threshold == other.threshold
    }

    /// The encodings of this participant's own polynomial coefficients.
    pub closed spec fn poly(&self) -> Seq<Seq<u8>> {
        scalar_views(self.coeffs@)
    }

    /// This participant's committed polynomial: each coefficient times the
    /// generator.
    pub closed spec fn revealed_points(&self) -> Seq<CurvePoint> {
        self.big_f@
    }

    /// The recorded round-0 commitments, one slot per participant.
    pub closed spec fn commitment_slots(&self) -> Seq<Option<Commitment>> {
        self.commitments.slots()
    }

    /// The confirmation computed over the full commitment set, once the
    /// set filled.
    pub closed spec fn confirmation(&self) -> Option<Commitment> {
        self.my_confirmation
    }

    /// The full send schedule so far: every queued entry, handed out or
    /// not, oldest first.
    pub closed spec fn outbox_log(&self) -> Seq<(usize, Option<Participant>, Payload)> {
        self.outbox@
    }

    /// The sends already handed to the caller, oldest first.
    pub closed spec fn sent(&self) -> Seq<(usize, Option<Participant>, Payload)> {
        self.outbox@.take(self.out_head as int)
    }

    /// The sends queued but not yet handed to the caller, oldest first.
    pub closed spec fn queued(&self) -> Seq<(usize, Option<Participant>, Payload)> {
        self.outbox@.skip(self.out_head as int)
    }

    /// The buffered inbound messages, per round, oldest first.
    pub closed spec fn inbox(&self) -> Seq<Seq<(Participant, Payload)>> {
        self.mailbox@
    }

    /// The round the machine is collecting, while it is collecting one.
    pub closed spec fn awaiting_round(&self) -> Option<int> {
        match self.phase {
            KeygenPhase::CollectCommitments => Some(0int),
            KeygenPhase::CollectConfirmations => Some(1int),
            KeygenPhase::CollectReveals => Some(2int),
            KeygenPhase::CollectShares => Some(3int),
            KeygenPhase::Done => None,
            KeygenPhase::Failed(_) => None,
        }
    }
}

/// What one queued send may be: this participant's own commitment to its
/// committed polynomial, its confirmation, the committed polynomial
/// itself, or a correct private evaluation of its polynomial for another
/// listed participant.
pub open spec fn keygen_entry_wf(m: &KeygenMachine, e: (usize, Option<Participant>, Payload)) -> bool {
    match e.2 {
        Payload::Commit(c) => e.0 == 0 && e.1 is None && c@ == hash32(
            encoded_points(m.revealed_points()),
        ),
        Payload::Confirm(c) => e.0 == 1 && e.1 is None && m.confirmation() == Some(c),
        Payload::Reveal(points, _proof) => e.0 == 2 && e.1 is None && points@
            == m.revealed_points(),
        Payload::Share(s) => e.0 == 3 && match e.1 {
            Some(p) => m.list_spec().contains(p) && p != m.me_spec() && s@ == poly_eval_bytes(
                m.poly(),
                eval_point_bytes(p),
            ),
            None => false,
        },
    }
}

/// Every entry of the send schedule is one of this participant's own
/// protocol messages.
pub open spec fn outbox_entries_wf(m: &KeygenMachine) -> bool {
    forall|i: int| 0 <= i < m.outbox_log().len() ==> keygen_entry_wf(
        m,
        #[trigger] m.outbox_log()[i],
    )
}

/// The shape of the send schedule: the commitment broadcast alone while
/// commitments are being collected; afterwards exactly the confirmation,
/// the reveal, and one private evaluation per other participant in list
/// order.  A failed run keeps whatever schedule it had.
pub open spec fn keygen_outbox_shape(m: &KeygenMachine) -> bool {
    let log = m.outbox_log();
    &&& log.len() >= 1
    &&& (log[0].2 is Commit)
    &&& if m.awaiting_round() == Some(0int) {
        log.len() == 1
    } else if m.failure() is Some {
        true
    } else {
        let others = m.list_spec().filter(not_equal_to(m.me_spec()));
        &&& log.len() == 3 + others.len()
        &&& (log[1].2 is Confirm)
        &&& (log[2].2 is Reveal)
        &&& forall|i: int| 0 <= i < others.len() ==> (#[trigger] log[3 + i]).1 == Some(others[i])
    }
}

/// Nothing recorded is ever overwritten: commitments, reveals and share
/// contributions only accumulate, so a repeated sender cannot displace
/// what was recorded first.
pub open spec fn records_preserved(pre: &KeygenMachine, post: &KeygenMachine) -> bool {
    &&& slots_preserved(pre.commitment_slots(), post.commitment_slots())
    &&& slots_preserved(pre.reveal_slots(), post.reveal_slots())
    &&& slots_preserved(pre.share_slots(), post.share_slots())
}

/// The send schedule splits into what was already handed out and what is
/// still queued.
pub proof fn lemma_outbox_split(m: &KeygenMachine)
    requires
        m.machine_wf(),
    ensures
        m.outbox_log() == m.sent() + m.queued(),
{
    assert(m.outbox_log() =~= m.sent() + m.queued());
}

/// What a completed run returned: exactly the fold of the recorded share
/// contributions, the constant term of the joint committed polynomial,
/// and the share-consistency equation that was checked before returning.
pub open spec fn keygen_output_spec(m: &KeygenMachine, out: KeygenOutput) -> bool {
    &&& forall|i: int| 0 <= i < m.share_slots().len() ==> (#[trigger] m.share_slots()[i]) is Some
    &&& forall|i: int| 0 <= i < m.reveal_slots().len() ==> (#[trigger] m.reveal_slots()[i]) is Some
    &&& out.private_share@ == sc_sum_bytes(recorded_share_views(m.share_slots()))
    &&& out.public_key@ == joint_coeff_views(m.reveal_slots(), 0, m.reveal_slots().len() as int)
    &&& gpoly_eval_bytes(
        joint_poly_views(m.reveal_slots(), m.threshold_spec()),
        eval_point_bytes(m.me_spec()),
    ) == g_mul_bytes(out.private_share@)
}

/// The recorded values of a full commitment store, in list order.
fn gather_commitments(map: &ParticipantMap<Commitment>) -> (r: Vec<Commitment>)
    requires
        map.wf(),
        map.is_full(),
    ensures
        r@ == recorded_commitments(map.slots()),
{
    let n = map.len();
    let mut out: Vec<Commitment> = Vec::new();
    let mut i: usize = 0;
    while i < n
        invariant
            i <= n,
            map.wf(),
            map.is_full(),
            n == map.slots().len(),
            out@.len() == i,
            forall|k: int| 0 <= k < i ==> out@[k] == map.slots()[k]->0,
        decreases n - i,
    {
        out.push(*map.get_at(i));
        i += 1;
    }
    proof {
        assert(out@ =~= recorded_commitments(map.slots()));
    }
    out
}

/// The recorded values of a full share store, in list order.
pub(crate) fn gather_scalar_slots(map: &ParticipantMap<CurveScalar>) -> (r: Vec<CurveScalar>)
    requires
        map.wf(),
        map.is_full(),
    ensures
        scalar_views(r@) == recorded_share_views(map.slots()),
{
    let n = map.len();
    let mut out: Vec<CurveScalar> = Vec::new();
    let mut i: usize = 0;
    while i < n
        invariant
            i <= n,
            map.wf(),
            map.is_full(),
            n == map.slots().len(),
            out@.len() == i,
            forall|k: int| 0 <= k < i ==> out@[k] == map.slots()[k]->0,
        decreases n - i,
    {
        out.push(*map.get_at(i));
        i += 1;
    }
    proof {
        assert(scalar_views(out@) =~= recorded_share_views(map.slots()));
    }
    out
}

/// The joint committed polynomial of a full reveal store: the pointwise
/// sum of every revealed polynomial, in list order.
fn joint_poly(map: &ParticipantMap<Vec<CurvePoint>>, threshold: usize) -> (r: Vec<CurvePoint>)
    requires
        map.wf(),
        map.is_full(),
        map.slots().len() >= 1,
        threshold >= 1,
        reveal_slots_wf(map.slots(), threshold as int),
    ensures
        r@.len() == threshold,
        point_views(r@) == joint_poly_views(map.slots(), threshold as int),
{
    let n = map.len();
    let mut out: Vec<CurvePoint> = Vec::new();
    let mut k: usize = 0;
    while k < threshold
        invariant
            k <= threshold,
            map.wf(),
            map.is_full(),
            n == map.slots().len(),
            n >= 1,
            threshold >= 1,
            reveal_slots_wf(map.slots(), threshold as int),
            out@.len() == k,
            forall|t: int| 0 <= t < k ==> (#[trigger] out@[t])@ == joint_coeff_views(
                map.slots(),
                t,
                n as int,
            ),
        decreases threshold - k,
    {
        let first = map.get_at(0);
        let mut acc: CurvePoint = first[k];
        let mut i: usize = 1;
        while i < n
            invariant
                1 <= i <= n,
                k < threshold,
                map.wf(),
                map.is_full(),
                n == map.slots().len(),
                reveal_slots_wf(map.slots(), threshold as int),
                acc@ == joint_coeff_views(map.slots(), k as int, i as int),
            decreases n - i,
        {
            let row = map.get_at(i);
            acc = crate::curve::pt_add(&acc, &row[k]);
            i += 1;
        }
        out.push(acc);
        k += 1;
    }
    proof {
        assert(point_views(out@) =~= joint_poly_views(map.slots(), threshold as int));
    }
    out
}

impl KeygenMachine {
    /// Emits the next queued outgoing action, if one is pending.
    fn emit(&mut self) -> (r: Option<Action<KeygenOutput>>)
        requires
            old(self).machine_wf(),
        ensures
            final(self).machine_wf(),
            final(self).same_config(old(self)),
            final(self).same_phase(old(self)),
            r is None ==> *final(self) == *old(self),
            r is None <==> old(self).queued().len() == 0,
            r matches Some(a) ==> (a is SendMany || a is SendPrivate)
                && action_matches_entry(a, old(self).queued()[0])
                && final(self).queued() == old(self).queued().drop_first()
                && final(self).sent() == old(self).sent().push(old(self).queued()[0]),
            final(self).outbox_log() == old(self).outbox_log(),
            final(self).mailbox == old(self).mailbox,
            final(self).commitments == old(self).commitments,
            final(self).reveals == old(self).reveals,
            final(self).shares == old(self).shares,
            final(self).my_confirmation == old(self).my_confirmation,
    {
        if self.out_head < self.outbox.len() {
            let entry = &self.outbox[self.out_head];
            let round = entry.0;
            let to = entry.1;
            let payload = entry.2.duplicate();
            let ghost head = self.out_head as int;
            self.out_head += 1;
            proof {
                assert(old(self).queued()[0] == old(self).outbox@[head]);
                assert(self.queued() =~= old(self).queued().drop_first());
                assert(self.sent() =~= old(self).sent().push(old(self).outbox@[head]));
            }
            match to {
                Some(p) => Some(Action::SendPrivate(round, p, payload)),
                None => Some(Action::SendMany(round, payload)),
            }
        } else {
            None
        }
    }

    /// Processes buffered round-0 commitments: records the first
    /// commitment from each sender, and once every participant has one,
    /// computes and broadcasts the confirmation, the revealed polynomial
    /// with its proof of knowledge, and the private evaluations.  Returns
    /// whether the phase advanced.
    fn process_commitments(&mut self) -> (r: Result<bool, ProtocolError>)
        requires
            old(self).machine_wf(),
            old(self).phase is CollectCommitments,
            old(self).out_head == old(self).outbox@.len(),
        ensures
            final(self).machine_wf(),
            final(self).same_config(old(self)),
            final(self).sent() == old(self).sent(),
            records_preserved(old(self), final(self)),
            r matches Ok(true) ==> final(self).phase is CollectConfirmations,
            r matches Ok(false) ==> final(self).phase is CollectCommitments && final(self).inbox()[0].len() == 0 && final(self).queued() == old(self).queued(),
            old(self).quiet() ==> (r matches Ok(false)) && *final(self) == *old(self),
            r matches Err(e) ==> final(self).failure() == Some(e) && final(self).queued() == old(self).queued(),
        decreases old(self).mailbox@[0].len(),
    {
        let next = self.mailbox.recv(0);
        match next {
            None => Ok(false),
            Some((from, payload)) => {
                match payload {
                    Payload::Commit(c) => {
                        match self.commitments.index_of(from) {
                            None => {},
                            Some(idx) => {
                                if !self.commitments.filled_at(idx) {
                                    self.commitments.put_at(idx, c);
                                }
                            },
                        }
                        if self.commitments.full() {
                            self.finish_commitments();
                            Ok(true)
                        } else {
                            self.process_commitments()
                        }
                    },
                    _ => {
                        let e = ProtocolError::AssertionFailed(
                            AssertionError::UnexpectedMessage(from),
                        );
                        self.phase = KeygenPhase::Failed(e);
                        Err(e)
                    },
                }
            },
        }
    }

    /// Computes the confirmation over the full commitment set, absorbs it
    /// into the transcript, and queues the round-1 confirmation, the
    /// round-2 reveal with its proof, and the round-3 private shares;
    /// records this participant's own contributions.
    #[verifier::loop_isolation(false)]
    fn finish_commitments(&mut self)
        requires
            old(self).machine_wf(),
            old(self).phase is CollectCommitments,
            old(self).commitments.is_full(),
            old(self).out_head == old(self).outbox@.len(),
        ensures
            final(self).machine_wf(),
            final(self).same_config(old(self)),
            final(self).phase is CollectConfirmations,
            final(self).sent() == old(self).sent(),
            final(self).inbox() == old(self).inbox(),
            records_preserved(old(self), final(self)),
    {
        let ghost old_log = self.outbox@;
        let values = gather_commitments(&self.commitments);
        let confirmation = commit_commitments(&values);
        let confirmation_bytes = confirmation.to_bytes();
        transcript_message(&mut self.transcript, "confirmation", &vec_of_bytes32(
            &confirmation_bytes,
        ));
        self.my_confirmation = Some(confirmation);

        let me_bytes = self.me.bytes();
        let mut fork = transcript_forked(&self.transcript, "dlog0", &me_bytes);
        let public = self.big_f[0];
        let proof = dlog_prove(&mut fork, &mut self.rng, &public, &self.coeffs[0]);

        let others = self.list.others(self.me);
        let mut private_sends: Vec<(usize, Option<Participant>, Payload)> = Vec::new();
        let mut i: usize = 0;
        while i < others.len()
            invariant
                i <= others@.len(),
                private_sends@.len() == i,
                forall|k: int| 0 <= k < i ==> {
                    let e = #[trigger] private_sends@[k];
                    e.0 == 3 && e.1 == Some(others@[k]) && match e.2 {
                        Payload::Share(s) => s@ == poly_eval_bytes(
                            scalar_views(self.coeffs@),
                            eval_point_bytes(others@[k]),
                        ),
                        _ => false,
                    }
                },
            decreases others@.len() - i,
        {
            let p = others[i];
            let x = eval_poly(&self.coeffs, &participant_scalar(&p));
            private_sends.push((3, Some(p), Payload::Share(x)));
            i += 1;
        }

        let ghost private_sends_snapshot = private_sends@;
        self.outbox.push((1, None, Payload::Confirm(confirmation)));
        self.outbox.push((2, None, Payload::Reveal(copy_points(&self.big_f), proof)));
        self.outbox.append(&mut private_sends);

        let x_me = eval_poly(&self.coeffs, &participant_scalar(&self.me));
        let me_index = self.me_index;
        if !self.shares.filled_at(me_index) {
            self.shares.put_at(me_index, x_me);
        }
        if !self.reveals.filled_at(me_index) {
            self.reveals.put_at(me_index, copy_points(&self.big_f));
        }
        if !self.confirmed.filled_at(me_index) {
            self.confirmed.put_at(me_index, true);
        }
        self.phase = KeygenPhase::CollectConfirmations;
        proof {
            let others_spec = self.list@.filter(not_equal_to(self.me));
            assert(old_log.len() == 1 && (old_log[0].2 is Commit));
            assert(self.outbox@.len() == 3 + others_spec.len());
            assert forall|k: int| 0 <= k < self.outbox@.len() implies keygen_entry_wf(
                self,
                #[trigger] self.outbox@[k],
            ) by {
                if k == 0 {
                    assert(self.outbox@[0] == old_log[0]);
                    assert(keygen_entry_wf(old(self), old_log[0]));
                } else if k >= 3 {
                    let p = others_spec[k - 3];
                    assert(self.outbox@[k] == private_sends_snapshot[k - 3]);
                    crate::participants::lemma_filter_subset(
                        self.list@,
                        not_equal_to(self.me),
                        k - 3,
                    );
                    self.list@.lemma_filter_pred(not_equal_to(self.me), k - 3);
                    assert(self.list@.contains(p) && p != self.me);
                }
            }
            assert(self.sent() =~= old(self).sent());
        }
    }

    /// Processes buffered round-1 confirmations: aborts on the first one
    /// that differs from the locally computed confirmation, and advances
    /// once every participant has confirmed.
    fn process_confirmations(&mut self) -> (r: Result<bool, ProtocolError>)
        requires
            old(self).machine_wf(),
            old(self).phase is CollectConfirmations,
        ensures
            final(self).machine_wf(),
            final(self).same_config(old(self)),
            final(self).sent() == old(self).sent(),
            final(self).queued() == old(self).queued(),
            records_preserved(old(self), final(self)),
            r matches Ok(true) ==> final(self).phase is CollectReveals,
            r matches Ok(false) ==> final(self).phase is CollectConfirmations && final(self).inbox()[1].len() == 0,
            old(self).quiet() ==> (r matches Ok(false)) && *final(self) == *old(self),
            r matches Err(e) ==> final(self).failure() == Some(e),
        decreases old(self).mailbox@[1].len(),
    {
        let next = self.mailbox.recv(1);
        match next {
            None => Ok(false),
            Some((from, payload)) => {
                match payload {
                    Payload::Confirm(c) => {
                        match self.confirmed.index_of(from) {
                            None => {},
                            Some(idx) => {
                                if !self.confirmed.filled_at(idx) {
                                    proof {
                                        assert(self.my_confirmation is Some);
                                    }
                                    let expected = self.my_confirmation.as_ref().unwrap();
                                    match check_confirmation(expected, &c, from) {
                                        Ok(()) => {},
                                        Err(e) => {
                                            self.phase = KeygenPhase::Failed(e);
                                            return Err(e);
                                        },
                                    }
                                    self.confirmed.put_at(idx, true);
                                }
                            },
                        }
                        if self.confirmed.full() {
                            self.phase = KeygenPhase::CollectReveals;
                            Ok(true)
                        } else {
                            self.process_confirmations()
                        }
                    },
                    _ => {
                        let e = ProtocolError::AssertionFailed(
                            AssertionError::UnexpectedMessage(from),
                        );
                        self.phase = KeygenPhase::Failed(e);
                        Err(e)
                    },
                }
            },
        }
    }

    /// Processes buffered round-2 reveals: checks each against the
    /// sender's round-0 commitment and verifies its proof of knowledge
    /// under a transcript fork labeled by the sender, aborting on the
    /// first failure; advances once every participant has revealed.
    fn process_reveals(&mut self) -> (r: Result<bool, ProtocolError>)
        requires
            old(self).machine_wf(),
            old(self).phase is CollectReveals,
        ensures
            final(self).machine_wf(),
            final(self).same_config(old(self)),
            final(self).sent() == old(self).sent(),
            final(self).queued() == old(self).queued(),
            records_preserved(old(self), final(self)),
            r matches Ok(true) ==> final(self).phase is CollectShares,
            r matches Ok(false) ==> final(self).phase is CollectReveals && final(self).inbox()[2].len() == 0,
            old(self).quiet() ==> (r matches Ok(false)) && *final(self) == *old(self),
            r matches Err(e) ==> final(self).failure() == Some(e),
        decreases old(self).mailbox@[2].len(),
    {
        let next = self.mailbox.recv(2);
        match next {
            None => Ok(false),
            Some((from, payload)) => {
                match payload {
                    Payload::Reveal(points, proof) => {
                        match self.reveals.index_of(from) {
                            None => {},
                            Some(idx) => {
                                if !self.reveals.filled_at(idx) {
                                    let expected = *self.commitments.get_at(idx);
                                    let proof_ok = if points.len() >= 1 {
                                        let from_bytes = from.bytes();
                                        let mut fork = transcript_forked(
                                            &self.transcript,
                                            "dlog0",
                                            &from_bytes,
                                        );
                                        dlog_verify(&mut fork, &points[0], &proof)
                                    } else {
                                        false
                                    };
                                    match check_reveal(
                                        &expected,
                                        &points,
                                        self.threshold,
                                        proof_ok,
                                        from,
                                    ) {
                                        Ok(()) => {},
                                        Err(e) => {
                                            self.phase = KeygenPhase::Failed(e);
                                            return Err(e);
                                        },
                                    }
                                    self.reveals.put_at(idx, points);
                                }
                            },
                        }
                        if self.reveals.full() {
                            self.phase = KeygenPhase::CollectShares;
                            Ok(true)
                        } else {
                            self.process_reveals()
                        }
                    },
                    _ => {
                        let e = ProtocolError::AssertionFailed(
                            AssertionError::UnexpectedMessage(from),
                        );
                        self.phase = KeygenPhase::Failed(e);
                        Err(e)
                    },
                }
            },
        }
    }

    /// Processes buffered round-3 private shares: records the first from
    /// each sender, and once every contribution is in, folds them into
    /// the private share, checks it against the joint committed
    /// polynomial evaluated at this participant's point, and completes.
    fn process_shares(&mut self) -> (r: Result<Option<KeygenOutput>, ProtocolError>)
        requires
            old(self).machine_wf(),
            old(self).phase is CollectShares,
            old(self).out_head == old(self).outbox@.len(),
        ensures
            final(self).machine_wf(),
            final(self).same_config(old(self)),
            final(self).sent() == old(self).sent(),
            final(self).queued() == old(self).queued(),
            records_preserved(old(self), final(self)),
            r matches Ok(Some(out)) ==> final(self).phase is Done && keygen_output_spec(
                final(self),
                out,
            ),
            r matches Ok(None) ==> final(self).phase is CollectShares && final(self).inbox()[3].len() == 0,
            old(self).quiet() ==> (r matches Ok(None)) && *final(self) == *old(self),
            r matches Err(e) ==> final(self).failure() == Some(e),
        decreases old(self).mailbox@[3].len(),
    {
        let next = self.mailbox.recv(3);
        match next {
            None => Ok(None),
            Some((from, payload)) => {
                match payload {
                    Payload::Share(s) => {
                        match self.shares.index_of(from) {
                            None => {},
                            Some(idx) => {
                                if !self.shares.filled_at(idx) {
                                    self.shares.put_at(idx, s);
                                }
                            },
                        }
                        if self.shares.full() {
                            self.finish_shares()
                        } else {
                            self.process_shares()
                        }
                    },
                    _ => {
                        let e = ProtocolError::AssertionFailed(
                            AssertionError::UnexpectedMessage(from),
                        );
                        self.phase = KeygenPhase::Failed(e);
                        Err(e)
                    },
                }
            },
        }
    }

    /// Folds the recorded contributions into the private share, checks it
    /// against the joint committed polynomial, and produces the output.
    fn finish_shares(&mut self) -> (r: Result<Option<KeygenOutput>, ProtocolError>)
        requires
            old(self).machine_wf(),
            old(self).phase is CollectShares,
            old(self).out_head == old(self).outbox@.len(),
            old(self).shares.is_full(),
            old(self).reveals.is_full(),
        ensures
            final(self).machine_wf(),
            final(self).same_config(old(self)),
            final(self).sent() == old(self).sent(),
            final(self).queued() == old(self).queued(),
            records_preserved(old(self), final(self)),
            r matches Ok(Some(out)) ==> final(self).phase is Done && keygen_output_spec(
                final(self),
                out,
            ),
            r matches Ok(None) ==> false,
            r matches Err(e) ==> final(self).failure() == Some(e) && e
                == ProtocolError::AssertionFailed(AssertionError::InconsistentShare)
                && gpoly_eval_bytes(
                joint_poly_views(final(self).reveal_slots(), final(self).threshold_spec()),
                eval_point_bytes(final(self).me_spec()),
            ) != g_mul_bytes(sc_sum_bytes(recorded_share_views(final(self).share_slots()))),
    {
        let share_values = gather_scalar_slots(&self.shares);
        let x = sum_scalars(&share_values);
        let total = joint_poly(&self.reveals, self.threshold);
        let lhs = eval_group_poly(&total, &participant_scalar(&self.me));
        let rhs = g_mul(&x);
        if !lhs.equals(&rhs) {
            let e = ProtocolError::AssertionFailed(AssertionError::InconsistentShare);
            self.phase = KeygenPhase::Failed(e);
            return Err(e);
        }
        let out = KeygenOutput { private_share: x, public_key: total[0] };
        self.phase = KeygenPhase::Done;
        proof {
            assert(point_views(total@)[0] == total@[0]@);
        }
        Ok(Some(out))
    }

    /// Advances the run: emits a queued send if one is pending, otherwise
    /// works through the buffered messages of the current round, and
    /// completes or aborts as the protocol dictates.  With nothing
    /// buffered and nothing queued, `Wait` comes back and the machine is
    /// exactly as it was: re-poking after `Wait` with no new message is a
    /// no-op.
    pub fn step(&mut self) -> (r: Result<Action<KeygenOutput>, ProtocolError>)
        requires
            old(self).machine_wf(),
        ensures
            final(self).machine_wf(),
            final(self).same_config(old(self)),
            records_preserved(old(self), final(self)),
            outbox_entries_wf(final(self)),
            keygen_outbox_shape(final(self)),
            r matches Ok(Action::Return(out)) ==> final(self).is_done() && keygen_output_spec(
                final(self),
                out,
            ),
            r matches Ok(Action::Wait) && old(self).quiet() ==> *final(self) == *old(self),
            r matches Ok(Action::Wait) ==> final(self).queued().len() == 0 && match final(self).awaiting_round() {
                Some(round) => final(self).inbox()[round].len() == 0,
                None => true,
            },
            r matches Ok(a) ==> ((a is SendMany || a is SendPrivate) ==> final(self).sent() == old(self).sent().push(final(self).sent().last()) && action_matches_entry(
                a,
                final(self).sent().last(),
            )),
            r matches Err(e) ==> final(self).failure() == Some(e),
            old(self).failure() matches Some(e) ==> r == Err::<Action<KeygenOutput>, ProtocolError>(
                e,
            ) && *final(self) == *old(self),
            old(self).is_done() ==> (r matches Ok(Action::Wait)) && *final(self) == *old(self),
    {
        if let KeygenPhase::Failed(e) = &self.phase {
            return Err(*e);
        }
        match self.emit() {
            Some(action) => Ok(action),
            None => self.step_phase(),
        }
    }

    /// Works through the current phase, following transitions until the
    /// machine must wait, send, complete, or abort.
    fn step_phase(&mut self) -> (r: Result<Action<KeygenOutput>, ProtocolError>)
        requires
            old(self).machine_wf(),
            old(self).out_head == old(self).outbox@.len(),
        ensures
            final(self).machine_wf(),
            final(self).same_config(old(self)),
            records_preserved(old(self), final(self)),
            r matches Ok(Action::Return(out)) ==> final(self).is_done() && keygen_output_spec(
                final(self),
                out,
            ),
            r matches Ok(Action::Wait) && old(self).quiet() ==> *final(self) == *old(self),
            r matches Ok(Action::Wait) ==> final(self).queued().len() == 0 && match final(self).awaiting_round() {
                Some(round) => final(self).inbox()[round].len() == 0,
                None => true,
            },
            r matches Ok(a) ==> ((a is SendMany || a is SendPrivate) ==> final(self).sent() == old(self).sent().push(final(self).sent().last()) && action_matches_entry(
                a,
                final(self).sent().last(),
            )),
            r matches Err(e) ==> final(self).failure() == Some(e),
            old(self).is_done() ==> (r matches Ok(Action::Wait)) && *final(self) == *old(self),
        decreases old(self).phase_rank(),
    {
        let phase_is_commitments = matches!(self.phase, KeygenPhase::CollectCommitments);
        if phase_is_commitments {
            match self.process_commitments() {
                Err(e) => return Err(e),
                Ok(false) => return Ok(Action::Wait),
                Ok(true) => {
                    match self.emit() {
                        Some(action) => return Ok(action),
                        None => return self.step_phase(),
                    }
                },
            }
        }
        let phase_is_confirmations = matches!(self.phase, KeygenPhase::CollectConfirmations);
        if phase_is_confirmations {
            match self.process_confirmations() {
                Err(e) => return Err(e),
                Ok(false) => return Ok(Action::Wait),
                Ok(true) => {
                    match self.emit() {
                        Some(action) => return Ok(action),
                        None => return self.step_phase(),
                    }
                },
            }
        }
        let phase_is_reveals = matches!(self.phase, KeygenPhase::CollectReveals);
        if phase_is_reveals {
            match self.process_reveals() {
                Err(e) => return Err(e),
                Ok(false) => return Ok(Action::Wait),
                Ok(true) => {
                    match self.emit() {
                        Some(action) => return Ok(action),
                        None => return self.step_phase(),
                    }
                },
            }
        }
        let phase_is_shares = matches!(self.phase, KeygenPhase::CollectShares);
        if phase_is_shares {
            match self.process_shares() {
                Err(e) => return Err(e),
                Ok(None) => return Ok(Action::Wait),
                Ok(Some(out)) => return Ok(Action::Return(out)),
            }
        }
        match self.phase {
            KeygenPhase::Failed(e) => Err(e),
            _ => Ok(Action::Wait),
        }
    }

    /// How far the run still has to go, for termination of the phase
    /// walk.
    pub closed spec fn phase_rank(&self) -> int {
        match self.phase {
            KeygenPhase::CollectCommitments => 4,
            KeygenPhase::CollectConfirmations => 3,
            KeygenPhase::CollectReveals => 2,
            KeygenPhase::CollectShares => 1,
            KeygenPhase::Done => 0,
            KeygenPhase::Failed(_) => 0,
        }
    }

    /// Buffers one inbound payload; rounds this protocol never uses are
    /// dropped.
    pub fn deliver(&mut self, from: Participant, round: usize, payload: Payload)
        requires
            old(self).machine_wf(),
        ensures
            final(self).machine_wf(),
            final(self).same_config(old(self)),
            final(self).same_phase(old(self)),
            round < 4 ==> final(self).inbox() == old(self).inbox().update(
                round as int,
                old(self).inbox()[round as int].push((from, payload)),
            ),
            round >= 4 ==> *final(self) == *old(self),
            final(self).sent() == old(self).sent(),
            final(self).queued() == old(self).queued(),
            final(self).commitment_slots() == old(self).commitment_slots(),
            final(self).reveal_slots() == old(self).reveal_slots(),
            final(self).share_slots() == old(self).share_slots(),
            final(self).confirmation() == old(self).confirmation(),
    {
        if round < 4 {
            self.mailbox.push(round, from, payload);
        }
    }
}

impl Protocol for KeygenMachine {
    type Output = KeygenOutput;

    open spec fn wf(&self) -> bool {
        self.machine_wf()
    }

    fn poke(&mut self) -> (r: Result<Action<KeygenOutput>, ProtocolError>) {
        self.step()
    }

    fn message(&mut self, from: Participant, round: usize, payload: Payload) {
        self.deliver(from, round, payload);
    }
}

/// Starts one participant's distributed key generation over the given
/// participant set.  All randomness, the polynomial coefficients and the
/// proof nonce, is drawn from a byte stream seeded by `seed`, which must
/// be fresh and secret for every run.  Rejects exactly the invalid
/// configurations: fewer than two participants, a threshold of zero or
/// more than the participant count, duplicate entries, and a local party
/// missing from the list.
pub fn keygen(
    participants: &Vec<Participant>,
    me: Participant,
    threshold: usize,
    seed: &[u8; 32],
) -> (r: Result<KeygenMachine, InitializationError>)
    ensures
        match r {
            Ok(m) => {
                &&& m.wf()
                &&& m.me_spec() == me
                &&& m.list_spec() == participants@
                &&& m.threshold_spec() == threshold
                &&& participants@.len() >= 2
                &&& 1 <= threshold <= participants@.len()
                &&& distinct(participants@)
                &&& participants@.contains(me)
                &&& m.quiet()
                &&& m.sent().len() == 0
                &&& m.queued().len() == 1
                &&& (m.queued()[0].2 is Commit)
                &&& outbox_entries_wf(&m)
                &&& keygen_outbox_shape(&m)
                &&& m.poly().len() == threshold
                &&& m.revealed_points().len() == threshold
                &&& forall|i: int| 0 <= i < threshold ==> (#[trigger] m.revealed_points()[i])@
                    == g_mul_bytes(m.poly()[i])
                &&& m.confirmation() is None
            },
            Err(InitializationError::TooFewParticipants) => participants@.len() < 2,
            Err(InitializationError::ThresholdTooLarge) => participants@.len() >= 2 && threshold
                > participants@.len(),
            Err(InitializationError::ZeroThreshold) => participants@.len() >= 2 && threshold == 0
                && threshold <= participants@.len(),
            Err(InitializationError::DuplicateParticipants) => participants@.len() >= 2 && 1
                <= threshold <= participants@.len() && !distinct(participants@),
            Err(InitializationError::MissingParticipant) => participants@.len() >= 2 && 1
                <= threshold <= participants@.len() && distinct(participants@)
                && !participants@.contains(me),
            Err(_) => false,
        },
{
    if participants.len() < 2 {
        return Err(InitializationError::TooFewParticipants);
    }
    if threshold > participants.len() {
        return Err(InitializationError::ThresholdTooLarge);
    }
    if threshold == 0 {
        return Err(InitializationError::ZeroThreshold);
    }
    let list = match ParticipantList::new(participants) {
        Some(list) => list,
        None => {
            return Err(InitializationError::DuplicateParticipants);
        },
    };
    let me_index = match list.index_of(me) {
        Some(i) => i,
        None => {
            return Err(InitializationError::MissingParticipant);
        },
    };

    let mut transcript = transcript_new("cait-sith v0.1.0 keygen");
    transcript_message(&mut transcript, "participants", &encode_participants(&list));
    transcript_message(&mut transcript, "threshold", &u64_be_vec(threshold as u64));

    let mut rng = rng_from_seed(seed);
    let coeffs = random_poly(&mut rng, threshold);
    let big_f = commit_poly(&coeffs);
    let my_commitment = commit_points(&big_f);

    let mut commitments: ParticipantMap<Commitment> = ParticipantMap::new(&list);
    let confirmed: ParticipantMap<bool> = ParticipantMap::new(&list);
    let reveals: ParticipantMap<Vec<CurvePoint>> = ParticipantMap::new(&list);
    let shares: ParticipantMap<CurveScalar> = ParticipantMap::new(&list);
    commitments.put_at(me_index, my_commitment);

    let mut outbox: Vec<(usize, Option<Participant>, Payload)> = Vec::new();
    outbox.push((0, None, Payload::Commit(my_commitment)));

    Ok(
        KeygenMachine {
            list,
            me,
            me_index,
            threshold,
            rng,
            transcript,
            phase: KeygenPhase::CollectCommitments,
            mailbox: Mailbox::new(4),
            outbox,
            out_head: 0,
            coeffs,
            big_f,
            my_confirmation: None,
            commitments,
            confirmed,
            reveals,
            shares,
        },
    )
}

/// Folds of equal revealed coefficients are equal: the joint coefficient
/// is a function of the recorded coefficient encodings alone.
proof fn lemma_joint_coeff_agreement(
    s1: Seq<Option<Vec<CurvePoint>>>,
    s2: Seq<Option<Vec<CurvePoint>>>,
    k: int,
    n: int,
)
    requires
        0 < n <= s1.len(),
        n <= s2.len(),
        k >= 0,
        forall|i: int| 0 <= i < n ==> point_views(((#[trigger] s1[i])->0)@) == point_views(
            ((s2[i])->0)@,
        ),
        forall|i: int| 0 <= i < n ==> k < ((#[trigger] s1[i])->0)@.len(),
        forall|i: int| 0 <= i < n ==> k < ((#[trigger] s2[i])->0)@.len(),
    ensures
        joint_coeff_views(s1, k, n) == joint_coeff_views(s2, k, n),
    decreases n,
{
    assert(((s1[n - 1])->0)@[k]@ == point_views(((s1[n - 1])->0)@)[k]);
    assert(((s2[n - 1])->0)@[k]@ == point_views(((s2[n - 1])->0)@)[k]);
    if n > 1 {
        lemma_joint_coeff_agreement(s1, s2, k, n - 1);
    }
}

/// Agreement on the joint public key: two completed runs that recorded
/// the same revealed coefficient encodings, position for position,
/// returned the same public key.  Honest delivery hands every participant
/// the same reveals, so every honest participant that completes holds the
/// same key.
pub proof fn lemma_public_key_agreement(
    m1: &KeygenMachine,
    o1: KeygenOutput,
    m2: &KeygenMachine,
    o2: KeygenOutput,
)
    requires
        m1.machine_wf(),
        m2.machine_wf(),
        keygen_output_spec(m1, o1),
        keygen_output_spec(m2, o2),
        m1.reveal_slots().len() == m2.reveal_slots().len(),
        forall|i: int| 0 <= i < m1.reveal_slots().len() ==> point_views(
            ((#[trigger] m1.reveal_slots()[i])->0)@,
        ) == point_views(((m2.reveal_slots()[i])->0)@),
    ensures
        o1.public_key@ == o2.public_key@,
{
    let n = m1.reveal_slots().len() as int;
    assert forall|i: int| 0 <= i < n implies 0 < ((#[trigger] m1.reveal_slots()[i])->0)@.len() by {
        assert(m1.reveal_slots()[i] is Some);
    }
    assert forall|i: int| 0 <= i < n implies 0 < ((#[trigger] m2.reveal_slots()[i])->0)@.len() by {
        assert(m2.reveal_slots()[i] is Some);
        assert(point_views(((m1.reveal_slots()[i])->0)@) == point_views(
            ((m2.reveal_slots()[i])->0)@,
        ));
    }
    lemma_joint_coeff_agreement(m1.reveal_slots(), m2.reveal_slots(), 0, n);
}

} // verus!
