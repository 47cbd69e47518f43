//! Participant identities, the ordered duplicate-free participant set of a
//! protocol run, and the per-round completeness-tracked slot store.

use vstd::prelude::*;

verus! {

/// The big-endian bytes of a 32-bit identity.
pub open spec fn u32_be_bytes(x: u32) -> Seq<u8> {
    seq![(x >> 24) as u8, (x >> 16) as u8, (x >> 8) as u8, x as u8]
}

/// One protocol party: an opaque small-integer identity.  Participant `p`
/// owns the nonzero evaluation point `p + 1`; point `0` is reserved for the
/// shared secret itself.
#[derive(Clone, Copy, Debug, PartialEq, Eq, Structural)]
pub struct Participant {
    pub id: u32,
}

impl Participant {
    /// Builds the participant with the given identity.
    pub fn new(id: u32) -> (r: Self)
        ensures
            r.id == id,
    {
        Participant { id }
    }

    /// The numeric identity.
    pub fn id(&self) -> (r: u32)
        ensures
            r == self.id,
    {
        self.id
    }

    /// The canonical big-endian byte encoding of this identity, used to
    /// bind transcript forks to a sender.
    pub fn bytes(&self) -> (r: Vec<u8>)
        ensures
            r@ == u32_be_bytes(self.id),
    {
        let mut out: Vec<u8> = Vec::new();
        out.push((self.id >> 24u32) as u8);
        out.push((self.id >> 16u32) as u8);
        out.push((self.id >> 8u32) as u8);
        out.push(self.id as u8);
        proof {
            assert(out@ =~= u32_be_bytes(self.id));
        }
        out
    }
}

impl From<u32> for Participant {
    /// Builds the participant with the given identity.
    fn from(id: u32) -> (r: Self) {
        Participant { id }
    }
}

impl vstd::std_specs::convert::FromSpecImpl<u32> for Participant {
    open spec fn obeys_from_spec() -> bool {
        true
    }

    open spec fn from_spec(id: u32) -> Self {
        Participant { id }
    }
}

/// No identity occurs twice.
pub open spec fn distinct(s: Seq<Participant>) -> bool {
    forall|i: int, j: int| 0 <= i < j < s.len() ==> s[i] != s[j]
}

/// The fixed, duplicate-free, ordered participant set of one protocol run.
#[derive(Clone, Debug, PartialEq, Eq)]
pub struct ParticipantList {
    participants: Vec<Participant>,
}

impl View for ParticipantList {
    type V = Seq<Participant>;

    closed spec fn view(&self) -> Seq<Participant> {
        self.participants@
    }
}

impl ParticipantList {
    /// Builds the set, rejecting any list with duplicate entries.
    pub fn new(participants: &Vec<Participant>) -> (r: Option<Self>)
        ensures
            match r {
                Some(l) => l@ == participants@ && distinct(participants@),
                None => !distinct(participants@),
            },
    {
        let n = participants.len();
        let mut copied: Vec<Participant> = Vec::new();
        let mut i: usize = 0;
        while i < n
            invariant
                i <= n,
                n == participants@.len(),
                copied@ =~= participants@.subrange(0, i as int),
                distinct(participants@.subrange(0, i as int)),
            decreases n - i,
        {
            let p = participants[i];
            let mut j: usize = 0;
            while j < i
                invariant
                    j <= i,
                    i < n,
                    n == participants@.len(),
                    p == participants@[i as int],
                    forall|k: int| 0 <= k < j ==> participants@[k] != p,
                decreases i - j,
            {
                if participants[j].id == p.id {
                    return None;
                }
                j += 1;
            }
            proof {
                assert(distinct(participants@.subrange(0, i as int + 1)));
            }
            copied.push(p);
            i += 1;
        }
        proof {
            assert(copied@ =~= participants@);
            assert(participants@.subrange(0, n as int) =~= participants@);
        }
        Some(ParticipantList { participants: copied })
    }

    /// The number of participants.
    pub fn len(&self) -> (r: usize)
        ensures
            r == self@.len(),
    {
        self.participants.len()
    }

    /// The participant at a position.
    pub fn at(&self, i: usize) -> (r: Participant)
        requires
            i < self@.len(),
        ensures
            r == self@[i as int],
    {
        self.participants[i]
    }

    /// The position of a participant, if a member.
    pub fn index_of(&self, p: Participant) -> (r: Option<usize>)
        ensures
            match r {
                Some(i) => i < self@.len() && self@[i as int] == p,
                None => !self@.contains(p),
            },
            self@.contains(p) <==> r is Some,
    {
        let n = self.participants.len();
        let mut i: usize = 0;
        while i < n
            invariant
                i <= n,
                n == self@.len(),
                forall|k: int| 0 <= k < i ==> self@[k] != p,
            decreases n - i,
        {
            if self.participants[i].id == p.id {
                return Some(i);
            }
            i += 1;
        }
        None
    }

    /// Whether a participant is a member.
    pub fn contains(&self, p: Participant) -> (r: bool)
        ensures
            r == self@.contains(p),
    {
        self.index_of(p).is_some()
    }

    /// All members except the given one, in list order.
    pub fn others(&self, me: Participant) -> (r: Vec<Participant>)
        ensures
            r@ == self@.filter(not_equal_to(me)),
    {
        let n = self.participants.len();
        let mut out: Vec<Participant> = Vec::new();
        let mut i: usize = 0;
        proof {
            assert(self@.subrange(0, 0int).filter(not_equal_to(me)) =~= Seq::<
                Participant,
            >::empty());
        }
        while i < n
            invariant
                i <= n,
                n == self@.len(),
                out@ == self@.subrange(0, i as int).filter(not_equal_to(me)),
            decreases n - i,
        {
            let p = self.participants[i];
            proof {
                reveal_with_fuel(Seq::filter, 2);
                assert(self@.subrange(0, i as int + 1).drop_last() =~= self@.subrange(
                    0,
                    i as int,
                ));
                assert(self@.subrange(0, i as int + 1).last() == self@[i as int]);
            }
            if p.id != me.id {
                out.push(p);
            }
            i += 1;
            proof {
                assert(out@ == self@.subrange(0, i as int).filter(not_equal_to(me)));
            }
        }
        proof {
            assert(self@.subrange(0, n as int) =~= self@);
        }
        out
    }
}

/// The predicate selecting every participant other than `me`.
pub open spec fn not_equal_to(me: Participant) -> spec_fn(Participant) -> bool {
    |x: Participant| x != me
}

/// Every element the filter keeps was in the original sequence.
pub proof fn lemma_filter_subset<A>(s: Seq<A>, pred: spec_fn(A) -> bool, i: int)
    requires
        0 <= i < s.filter(pred).len(),
    ensures
        s.contains(s.filter(pred)[i]),
    decreases s.len(),
{
    reveal_with_fuel(Seq::filter, 2);
    if s.len() != 0 {
        let sub = s.drop_last().filter(pred);
        if pred(s.last()) && i == sub.len() {
            assert(s.filter(pred)[i] == s.last());
            assert(s[s.len() - 1] == s.last());
        } else {
            lemma_filter_subset(s.drop_last(), pred, i);
            let x = s.drop_last().filter(pred)[i];
            let j = choose|j: int| 0 <= j < s.drop_last().len() && s.drop_last()[j] == x;
            assert(s[j] == x);
        }
    }
}

/// Recorded values are never overwritten: every slot filled before is
/// still filled with the same value after.
pub open spec fn slots_preserved<V>(pre: Seq<Option<V>>, post: Seq<Option<V>>) -> bool {
    pre.len() == post.len() && forall|i: int|
        0 <= i < pre.len() && pre[i] is Some ==> (#[trigger] post[i]) == pre[i]
}

/// A per-round slot store over a participant list: records at most one value
/// per participant and reports when every slot is filled.
pub struct ParticipantMap<V> {
    keys: Vec<Participant>,
    slots: Vec<Option<V>>,
}

impl<V> ParticipantMap<V> {
    /// The participants, in list order.
    pub closed spec fn keys(&self) -> Seq<Participant> {
        self.keys@
    }

    /// The recorded values, in list order.
    pub closed spec fn slots(&self) -> Seq<Option<V>> {
        self.slots@
    }

    /// One slot per participant.
    pub open spec fn wf(&self) -> bool {
        self.slots().len() == self.keys().len()
    }

    /// Every participant has a recorded value.
    pub open spec fn is_full(&self) -> bool {
        forall|i: int| 0 <= i < self.slots().len() ==> self.slots()[i] is Some
    }

    /// Builds an empty store over the given list.
    pub fn new(list: &ParticipantList) -> (r: Self)
        ensures
            r.wf(),
            r.keys() == list@,
            r.slots().len() == list@.len(),
            forall|i: int| 0 <= i < r.slots().len() ==> r.slots()[i] is None,
    {
        let n = list.len();
        let mut keys: Vec<Participant> = Vec::new();
        let mut slots: Vec<Option<V>> = Vec::new();
        let mut i: usize = 0;
        while i < n
            invariant
                i <= n,
                n == list@.len(),
                keys@ =~= list@.subrange(0, i as int),
                slots@.len() == i,
                forall|k: int| 0 <= k < i ==> slots@[k] is None,
            decreases n - i,
        {
            keys.push(list.at(i));
            slots.push(None);
            i += 1;
        }
        proof {
            assert(keys@ =~= list@);
        }
        ParticipantMap { keys, slots }
    }

    /// The number of tracked participants.
    pub fn len(&self) -> (r: usize)
        ensures
            r == self.slots().len(),
    {
        self.slots.len()
    }

    /// The position of a participant, if the store tracks it.
    pub fn index_of(&self, p: Participant) -> (r: Option<usize>)
        ensures
            match r {
                Some(i) => i < self.keys().len() && self.keys()[i as int] == p,
                None => !self.keys().contains(p),
            },
            self.keys().contains(p) <==> r is Some,
    {
        let n = self.keys.len();
        let mut i: usize = 0;
        while i < n
            invariant
                i <= n,
                n == self.keys().len(),
                forall|k: int| 0 <= k < i ==> self.keys()[k] != p,
            decreases n - i,
        {
            if self.keys[i].id == p.id {
                return Some(i);
            }
            i += 1;
        }
        None
    }

    /// Whether the slot at a position is filled.
    pub fn filled_at(&self, i: usize) -> (r: bool)
        requires
            i < self.slots().len(),
        ensures
            r == (self.slots()[i as int] is Some),
    {
        self.slots[i].is_some()
    }

    /// Records a value at a position, overwriting whatever was there;
    /// callers that need record-first-seen semantics check `filled_at`
    /// before calling.
    pub fn put_at(&mut self, i: usize, v: V)
        requires
            i < old(self).slots().len(),
        ensures
            final(self).keys() == old(self).keys(),
            final(self).slots() == old(self).slots().update(i as int, Some(v)),
    {
        self.slots[i] = Some(v);
        proof {
            assert(self.slots@ =~= old(self).slots@.update(i as int, Some(v)));
        }
    }

    /// Whether a value has been recorded for a participant.
    pub fn contains(&self, p: Participant) -> (r: bool)
        requires
            self.wf(),
            distinct(self.keys()),
        ensures
            r == exists|i: int|
                0 <= i < self.keys().len() && self.keys()[i] == p && self.slots()[i] is Some,
    {
        match self.index_of(p) {
            Some(i) => {
                let filled = self.filled_at(i);
                proof {
                    if filled {
                        assert(0 <= i < self.keys().len() && self.keys()[i as int] == p
                            && self.slots()[i as int] is Some);
                    } else {
                        assert forall|k: int|
                            0 <= k < self.keys().len() && self.keys()[k] == p implies !(
                        self.slots()[k] is Some) by {
                            assert(k == i);
                        }
                    }
                }
                filled
            },
            None => {
                proof {
                    assert forall|k: int| 0 <= k < self.keys().len() implies self.keys()[k]
                        != p by {
                        assert(!self.keys().contains(p));
                    }
                }
                false
            },
        }
    }

    /// Whether every participant has a recorded value.
    pub fn full(&self) -> (r: bool)
        ensures
            r == self.is_full(),
    {
        let n = self.slots.len();
        let mut i: usize = 0;
        while i < n
            invariant
                i <= n,
                n == self.slots().len(),
                forall|k: int| 0 <= k < i ==> self.slots()[k] is Some,
            decreases n - i,
        {
            if self.slots[i].is_none() {
                return false;
            }
            i += 1;
        }
        true
    }

    /// A previously recorded value.
    pub fn get_at(&self, i: usize) -> (r: &V)
        requires
            i < self.slots().len(),
            self.slots()[i as int] is Some,
        ensures
            Some(*r) == self.slots()[i as int],
    {
        self.slots[i].as_ref().unwrap()
    }
}

} // verus!
