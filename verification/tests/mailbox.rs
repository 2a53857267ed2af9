use imapmaildir::imap::client::mail::mailbox::Uid as MaybeUid;
use imapmaildir::imap::mailbox::mailbox::MailboxBuilder;
use imapmaildir::imap::mailbox::sequence_set::{SequenceSet, SequenceSetBuilder};
use imapmaildir::imap::mailbox::{ModSeq, Uid, UidValidity};
use imapmaildir::imap::response::UidSetMember;

fn uids_of(set: &SequenceSet) -> Vec<u32> {
    let mut it = set.iter();
    let mut out = Vec::new();
    while let Some(uid) = it.next() {
        out.push(uid.get());
    }
    out
}

#[test]
fn builder_merges_numbers_into_ranges() {
    let mut builder = SequenceSetBuilder::new();
    for n in [7, 3, 1, 2, 9, 3, 8, 12] {
        builder.add(n);
    }
    let set = builder.build().expect("not empty");
    assert_eq!(set.to_string(), "1:3,7:9,12");
    assert_eq!(uids_of(&set), vec![1, 2, 3, 7, 8, 9, 12]);
}

#[test]
fn empty_builder_is_an_error() {
    assert!(SequenceSetBuilder::new().build().is_err());
}

#[test]
fn empty_set_error_text() {
    match SequenceSetBuilder::new().build() {
        Err(e) => assert_eq!(e.to_string(), "No numbers in sequence set"),
        Ok(_) => panic!("an empty builder gave a set"),
    }
}

#[test]
fn single_number_set() {
    let mut builder = SequenceSetBuilder::new();
    builder.add(42);
    let set = builder.build().expect("not empty");
    assert_eq!(set.to_string(), "42");
    assert_eq!(uids_of(&set), vec![42]);
}

#[test]
fn all_covers_every_identifier() {
    let all = SequenceSet::all();
    assert_eq!(all.to_string(), "1:4294967295");
    let mut it = all.iter();
    assert_eq!(it.next().map(|u| u.get()), Some(1));
    assert_eq!(it.next().map(|u| u.get()), Some(2));
}

#[test]
fn set_from_ranges_keeps_them_as_given() {
    let set = SequenceSet::from_ranges(&vec![5..=6, 1..=1]);
    assert_eq!(set.to_string(), "5:6,1:1");
    assert_eq!(uids_of(&set), vec![5, 6, 1]);
    let from: SequenceSet = SequenceSet::from(&vec![2..=3]);
    assert_eq!(from.to_string(), "2:3");
}

#[test]
fn set_from_members() {
    let set = SequenceSet::from_members(&vec![UidSetMember::Uid(4), UidSetMember::UidRange(6, 7)]);
    assert_eq!(set.to_string(), "4,6:7");
    assert_eq!(uids_of(&set), vec![4, 6, 7]);
}

#[test]
fn uid_conversions() {
    assert!(Uid::try_from_u32(0).is_err());
    assert_eq!(Uid::try_from_u32(0).unwrap_err(), "Cannot convert u32 to nonzero");
    assert_eq!(Uid::try_from_u32(5).expect("nonzero").get(), 5);
    assert_eq!(Uid::try_from_i64(-1).unwrap_err(), "i64 too large");
    assert_eq!(Uid::try_from_i64(1 << 40).unwrap_err(), "i64 too large");
    assert_eq!(Uid::try_from_i64(0).unwrap_err(), "Cannot convert u32 to nonzero");
    assert_eq!(Uid::try_from_i64(9).expect("in range").get(), 9);
    let uid: Uid = Uid::try_from(3u32).expect("nonzero");
    assert_eq!(u32::from(uid), 3);
    assert_eq!(uid.to_string(), "3");
    assert_eq!((uid + 4).get(), 7);
    assert_eq!(Uid::max_value().saturating_add(5).get(), u32::MAX);
}

#[test]
fn uid_range_is_inclusive() {
    let from = Uid::try_from_u32(3).expect("nonzero");
    let to = Uid::try_from_u32(5).expect("nonzero");
    let mut range = from.range_inclusive(to);
    let mut got = Vec::new();
    while let Some(u) = range.next() {
        got.push(u.get());
    }
    assert_eq!(got, vec![3, 4, 5]);
    let mut empty = to.range_inclusive(from);
    assert!(empty.next().is_none());
}

#[test]
fn modseq_and_validity() {
    assert!(ModSeq::try_from_u64(0).is_err());
    let m = ModSeq::try_from_u64(70500).expect("nonzero");
    assert_eq!(m.get(), 70500);
    assert_eq!(m.to_string(), "70500");
    assert_eq!(u64::from(m), 70500);
    let v = UidValidity::new(1_234_214);
    assert_eq!(v.to_string(), "1234214");
    assert_eq!(u32::from(v), 1_234_214);
    assert_eq!(UidValidity::from(8u32).get(), 8);
}

#[test]
fn mailbox_state_needs_both_parts() {
    let mut builder = MailboxBuilder::new();
    builder.uid_validity(UidValidity::new(3));
    assert!(MailboxBuilder::new().build().is_err());
    let mut complete = MailboxBuilder::new();
    complete.uid_validity(UidValidity::new(3));
    complete.highest_modseq(ModSeq::try_from_u64(4).expect("nonzero"));
    let mailbox = complete.build().expect("complete");
    assert_eq!(mailbox.uid_validity().get(), 3);
    assert_eq!(mailbox.highest_modseq().get(), 4);
    assert_eq!(builder.build().unwrap_err(), "not all required fields present");
}

#[test]
fn optional_uid_shows_zero_for_none() {
    let none = MaybeUid::from(0u32);
    assert!(!none.is_some());
    assert_eq!(none.to_string(), "0");
    assert_eq!(u32::from(none), 0);
    let some = MaybeUid::from(4321u32);
    assert!(some.is_some());
    assert_eq!(some.to_string(), "4321");
    assert_eq!(u32::from(some), 4321);
}

#[test]
fn builder_order_and_repeats_do_not_matter() {
    let mut first = SequenceSetBuilder::new();
    for n in [5, 1, 2, 9, 3] {
        first.add(n);
    }
    let mut second = SequenceSetBuilder::new();
    for n in [9, 3, 3, 2, 1, 5, 9, 1] {
        second.add(n);
    }
    let first = first.build().expect("not empty");
    let second = second.build().expect("not empty");
    assert_eq!(first.to_string(), second.to_string());
    assert_eq!(uids_of(&first), uids_of(&second));
}
