//! The participant set and the per-round slot store.

use cait_sith::{Participant, ParticipantList, ParticipantMap};

#[test]
fn test_list_rejects_duplicates() {
    let dup = vec![Participant::new(1), Participant::new(2), Participant::new(1)];
    assert!(ParticipantList::new(&dup).is_none());
    let ok = vec![Participant::new(1), Participant::new(2), Participant::new(3)];
    assert!(ParticipantList::new(&ok).is_some());
}

#[test]
fn test_list_membership_and_order() {
    let ps = vec![Participant::new(4), Participant::new(2), Participant::new(9)];
    let list = ParticipantList::new(&ps).unwrap();
    assert_eq!(list.len(), 3);
    assert!(list.contains(Participant::new(2)));
    assert!(!list.contains(Participant::new(3)));
    assert_eq!(list.index_of(Participant::new(9)), Some(2));
    assert_eq!(list.at(1).id(), 2);
}

#[test]
fn test_list_others_excludes_self() {
    let ps = vec![Participant::new(0), Participant::new(1), Participant::new(2)];
    let list = ParticipantList::new(&ps).unwrap();
    let others = list.others(Participant::new(1));
    let ids: Vec<u32> = others.iter().map(|p| p.id()).collect();
    assert_eq!(ids, vec![0, 2]);
}

#[test]
fn test_participant_from_and_bytes() {
    let p: Participant = Participant::from(0x01020304u32);
    assert_eq!(p.id(), 0x01020304);
    assert_eq!(p.bytes(), vec![1u8, 2, 3, 4]);
}

#[test]
fn test_map_tracks_completeness() {
    let ps = vec![Participant::new(0), Participant::new(1), Participant::new(2)];
    let list = ParticipantList::new(&ps).unwrap();
    let mut map: ParticipantMap<u32> = ParticipantMap::new(&list);
    assert!(!map.full());
    assert!(!map.contains(Participant::new(0)));

    let idx = map.index_of(Participant::new(0)).unwrap();
    map.put_at(idx, 10);
    assert!(map.contains(Participant::new(0)));
    assert!(!map.full());
    assert_eq!(*map.get_at(idx), 10);

    let idx1 = map.index_of(Participant::new(1)).unwrap();
    let idx2 = map.index_of(Participant::new(2)).unwrap();
    map.put_at(idx1, 11);
    map.put_at(idx2, 12);
    assert!(map.full());
    assert!(map.index_of(Participant::new(7)).is_none());
}
