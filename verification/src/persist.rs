//! The calendar as bytes: what is written to disk after every change and read
//! back when the program starts.
//!
//! The calendar is listed as plain records, and the records are put into
//! bytes by `bincode`. Reading goes the other way and checks every due date.

use crate::assignment::{Assignment, AssignmentView, Notification, NotificationView};
use crate::calendar::CalendarData;
use crate::date::{is_calendar_date, CalendarDay, Date};
use vstd::prelude::*;

verus! {

/// An attached file as a plain record: its bytes and its name.
pub type NotificationRecord = (Vec<u8>, String);

/// An assignment as a plain record: its subject, the year, month and day it
/// is due, its files, and whether it is accepted.
pub type AssignmentRecord = (String, (i32, u32, u32), Vec<NotificationRecord>, bool);

/// An entry of the calendar as a plain record: the identity of the review
/// message and the assignment kept under it.
pub type CalendarRecord = (u64, AssignmentRecord);

/// Why a calendar could not be written or read.
#[derive(Clone, Copy, Debug, PartialEq, Eq, Structural)]
pub enum PersistError {
    /// The records could not be put into bytes.
    Encode,
    /// The bytes do not hold records.
    Decode,
    /// A record is due on a day that the calendar does not have.
    NoSuchDay,
    /// The bytes hold another calendar than the one they were checked against.
    Mismatch,
}

/// What a file record holds.
pub open spec fn notification_record_view(r: NotificationRecord) -> NotificationView {
    NotificationView { data: r.0@, filename: r.1@ }
}

/// What an assignment record holds.
pub open spec fn assignment_record_view(r: AssignmentRecord) -> AssignmentView {
    AssignmentView {
        subject: r.0@,
        due_date: CalendarDay { year: r.1.0 as int, month: r.1.1 as int, day: r.1.2 as int },
        notifications: r.2@.map_values(|n: NotificationRecord| notification_record_view(n)),
        accepted: r.3,
    }
}

/// What a list of calendar records holds, entry by entry.
pub open spec fn record_views(records: Seq<CalendarRecord>) -> Seq<(u64, AssignmentView)> {
    records.map_values(|r: CalendarRecord| (r.0, assignment_record_view(r.1)))
}

/// Whether `entries` lists a calendar: each of its entries once, under its
/// own message, and nothing else, in whatever order.
pub open spec fn is_listing_of(
    entries: Seq<(u64, AssignmentView)>,
    m: Map<u64, AssignmentView>,
) -> bool {
    &&& forall|i: int|
        0 <= i < entries.len() ==> m.contains_key((#[trigger] entries[i]).0) && m[entries[i].0]
            == entries[i].1
    &&& forall|i: int, j: int|
        0 <= i < j < entries.len() ==> (#[trigger] entries[i]).0 != (#[trigger] entries[j]).0
    &&& forall|id: u64| #[trigger]
        m.contains_key(id) ==> exists|i: int|
            0 <= i < entries.len() && (#[trigger] entries[i]).0 == id
}

/// Whether every entry is due on a day that the calendar has.
pub open spec fn all_days_exist(entries: Seq<(u64, AssignmentView)>) -> bool {
    forall|i: int|
        0 <= i < entries.len() ==> {
            let due = (#[trigger] entries[i]).1.due_date;
            is_calendar_date(due.year, due.month, due.day)
        }
}

/// The calendar that a list of entries stands for. Where two entries name the
/// same message, the later one counts.
pub open spec fn calendar_of(entries: Seq<(u64, AssignmentView)>) -> Map<u64, AssignmentView>
    decreases entries.len(),
{
    if entries.len() == 0 {
        Map::empty()
    } else {
        calendar_of(entries.drop_last()).insert(entries.last().0, entries.last().1)
    }
}

/// The bytes that `bincode::serialize` makes of a list of calendar records
/// that holds `entries`, or nothing where it gives an error.
pub uninterp spec fn bincode_encoding(entries: Seq<(u64, AssignmentView)>) -> Option<Seq<u8>>;

/// The entries of the calendar records that `bincode::deserialize` reads out
/// of `bytes`, or nothing where it gives an error.
pub uninterp spec fn bincode_decoding(bytes: Seq<u8>) -> Option<Seq<(u64, AssignmentView)>>;

#[verifier::external_type_specification]
#[verifier::external_body]
pub struct ExBincodeErrorKind(bincode::ErrorKind);

/// Puts calendar records into bytes with `bincode::serialize`.
///
/// Trusted, not proved: what bincode returns depends on nothing but what the
/// records hold. Nothing is claimed of the bytes themselves, nor that
/// bincode succeeds.
#[verifier::external_body]
fn encode_records(records: &Vec<CalendarRecord>) -> (r: Result<Vec<u8>, Box<bincode::ErrorKind>>)
    ensures
        match r {
            Ok(bytes) => bincode_encoding(record_views(records@)) == Some(bytes@),
            Err(_) => bincode_encoding(record_views(records@)) is None,
        },
{
    bincode::serialize(records)
}

/// Reads calendar records out of bytes with `bincode::deserialize`.
///
/// Trusted, not proved: what bincode returns depends on nothing but the
/// bytes. Nothing is claimed of the records themselves, nor that bincode
/// succeeds.
#[verifier::external_body]
fn decode_records(bytes: &[u8]) -> (r: Result<Vec<CalendarRecord>, Box<bincode::ErrorKind>>)
    ensures
        match r {
            Ok(records) => bincode_decoding(bytes@) == Some(record_views(records@)),
            Err(_) => bincode_decoding(bytes@) is None,
        },
{
    bincode::deserialize(bytes)
}

/// The calendar that `from_bytes` makes of what bincode read.
pub open spec fn restored(decoded: Option<Seq<(u64, AssignmentView)>>) -> Result<
    Map<u64, AssignmentView>,
    PersistError,
> {
    match decoded {
        None => Err(PersistError::Decode),
        Some(entries) => if all_days_exist(entries) {
            Ok(calendar_of(entries))
        } else {
            Err(PersistError::NoSuchDay)
        },
    }
}

/// Whether `snapshot` is what writing a calendar gives: the bytes that bincode
/// makes of some listing of the calendar, or an error where bincode makes none
/// of the listing at hand.
pub open spec fn is_snapshot_of(
    snapshot: Result<Vec<u8>, PersistError>,
    m: Map<u64, AssignmentView>,
) -> bool {
    match snapshot {
        Ok(bytes) => exists|entries: Seq<(u64, AssignmentView)>|
            is_listing_of(entries, m) && all_days_exist(entries) && #[trigger] bincode_encoding(
                entries,
            ) == Some(bytes@),
        Err(e) => e == PersistError::Encode && exists|entries: Seq<(u64, AssignmentView)>|
            is_listing_of(entries, m) && #[trigger] bincode_encoding(entries) is None,
    }
}

/// What checking bytes against the calendar `m` gives, from what bincode reads
/// out of the bytes: the error of reading, or that what was read is another
/// calendar, or that all is well.
pub open spec fn snapshot_check(
    decoded: Option<Seq<(u64, AssignmentView)>>,
    m: Map<u64, AssignmentView>,
) -> Result<(), PersistError> {
    match restored(decoded) {
        Err(e) => Err(e),
        Ok(read) => if read == m {
            Ok(())
        } else {
            Err(PersistError::Mismatch)
        },
    }
}

/// Whether `snapshot` is what writing a calendar with a check gives: bytes that
/// bincode made of some listing of the calendar and that read back as this
/// very calendar; or the error that writing or reading back a listing ran into.
pub open spec fn is_checked_snapshot_of(
    snapshot: Result<Vec<u8>, PersistError>,
    m: Map<u64, AssignmentView>,
) -> bool {
    match snapshot {
        Ok(bytes) => is_snapshot_of(snapshot, m) && restored(bincode_decoding(bytes@)) == Ok::<
            Map<u64, AssignmentView>,
            PersistError,
        >(m),
        Err(e) => exists|entries: Seq<(u64, AssignmentView)>|
            is_listing_of(entries, m) && match #[trigger] bincode_encoding(entries) {
                None => e == PersistError::Encode,
                Some(bytes) => snapshot_check(bincode_decoding(bytes), m) == Err::<
                    (),
                    PersistError,
                >(e),
            },
    }
}

impl Notification {
    /// This file as a plain record.
    pub fn to_record(&self) -> (r: NotificationRecord)
        ensures
            notification_record_view(r) == self@,
    {
        (self.data.clone(), self.filename.clone())
    }

    /// The file that a plain record holds.
    pub fn from_record(record: &NotificationRecord) -> (r: Notification)
        ensures
            r@ == notification_record_view(*record),
    {
        Notification { data: record.0.clone(), filename: record.1.clone() }
    }
}

impl Assignment {
    /// This assignment as a plain record.
    pub fn to_record(&self) -> (r: AssignmentRecord)
        ensures
            assignment_record_view(r) == self@,
            is_calendar_date(self@.due_date.year, self@.due_date.month, self@.due_date.day),
    {
        let mut files: Vec<NotificationRecord> = Vec::new();
        let mut i: usize = 0;
        while i < self.notifications.len()
            invariant
                i <= self.notifications.len(),
                files.len() == i,
                forall|j: int|
                    0 <= j < i ==> notification_record_view(#[trigger] files@[j])
                        == self.notifications@[j]@,
            decreases self.notifications.len() - i,
        {
            files.push(self.notifications[i].to_record());
            i += 1;
        }
        let year = self.due_date.year();
        let month = self.due_date.month();
        let day = self.due_date.day();
        let r = (self.subject.clone(), (year, month, day), files, self.accepted);
        assert(assignment_record_view(r).notifications =~= self@.notifications);
        r
    }

    /// The assignment that a plain record holds, where the calendar has the
    /// day it is due.
    pub fn from_record(record: &AssignmentRecord) -> (r: Option<Assignment>)
        ensures
            r is Some <==> is_calendar_date(
                record.1.0 as int,
                record.1.1 as int,
                record.1.2 as int,
            ),
            r matches Some(a) ==> a@ == assignment_record_view(*record),
    {
        let due_date = match Date::from_ymd(record.1.0, record.1.1, record.1.2) {
            Some(d) => d,
            None => { return None; },
        };
        let mut notifications: Vec<Notification> = Vec::new();
        let mut i: usize = 0;
        while i < record.2.len()
            invariant
                i <= record.2.len(),
                notifications.len() == i,
                forall|j: int|
                    0 <= j < i ==> (#[trigger] notifications@[j])@ == notification_record_view(
                        record.2@[j],
                    ),
            decreases record.2.len() - i,
        {
            notifications.push(Notification::from_record(&record.2[i]));
            i += 1;
        }
        let a = Assignment {
            subject: record.0.clone(),
            due_date,
            notifications,
            accepted: record.3,
        };
        assert(a@.notifications =~= assignment_record_view(*record).notifications);
        Some(a)
    }
}

impl CalendarData {
    /// The calendar as plain records, one for each entry, in no particular
    /// order.
    pub fn to_records(&self) -> (records: Vec<CalendarRecord>)
        ensures
            is_listing_of(record_views(records@), self@),
            all_days_exist(record_views(records@)),
    {
        let ids = self.message_ids();
        let mut records: Vec<CalendarRecord> = Vec::new();
        let mut i: usize = 0;
        while i < ids.len()
            invariant
                i <= ids.len(),
                ids@.no_duplicates(),
                ids@.to_set() == self@.dom(),
                records.len() == i,
                forall|j: int|
                    0 <= j < i ==> {
                        let entry = (#[trigger] record_views(records@)[j]);
                        &&& entry.0 == ids@[j]
                        &&& entry.1 == self@[ids@[j]]
                        &&& is_calendar_date(
                            entry.1.due_date.year,
                            entry.1.due_date.month,
                            entry.1.due_date.day,
                        )
                    },
            decreases ids.len() - i,
        {
            let id = ids[i];
            assert(ids@.to_set().contains(id));
            let ghost earlier = record_views(records@);
            match self.get(id) {
                Some(a) => {
                    records.push((id, a.to_record()));
                },
                None => {},
            }
            proof {
                let now = record_views(records@);
                assert forall|j: int| 0 <= j < i implies now[j] == earlier[j] by {}
            }
            i += 1;
        }
        proof {
            let entries = record_views(records@);
            assert forall|j: int| 0 <= j < entries.len() implies self@.contains_key(
                (#[trigger] entries[j]).0,
            ) && self@[entries[j].0] == entries[j].1 by {
                assert(ids@.to_set().contains(ids@[j]));
            }
            assert forall|id: u64| #[trigger] self@.contains_key(id) implies exists|j: int|
                0 <= j < entries.len() && (#[trigger] entries[j]).0 == id by {
                assert(ids@.to_set().contains(id));
                let j = choose|j: int| 0 <= j < ids@.len() && ids@[j] == id;
                assert(entries[j].0 == id);
            }
        }
        records
    }

    /// The calendar that plain records hold. A record that is due on a day
    /// which does not exist makes the whole list unusable.
    pub fn from_records(records: &Vec<CalendarRecord>) -> (r: Result<CalendarData, PersistError>)
        ensures
            match restored(Some(record_views(records@))) {
                Ok(m) => r is Ok && r.unwrap()@ == m,
                Err(e) => r matches Err(found) && found == e,
            },
    {
        let ghost entries = record_views(records@);
        let mut calendar = CalendarData::new();
        let mut i: usize = 0;
        while i < records.len()
            invariant
                i <= records.len(),
                entries == record_views(records@),
                calendar@ == calendar_of(entries.subrange(0, i as int)),
                all_days_exist(entries.subrange(0, i as int)),
            decreases records.len() - i,
        {
            let record = &records[i];
            proof {
                let next = entries.subrange(0, i as int + 1);
                assert(next.drop_last() =~= entries.subrange(0, i as int));
                assert(next.last() == entries[i as int]);
            }
            match Assignment::from_record(&record.1) {
                Some(a) => {
                    calendar.insert(record.0, a);
                    proof {
                        let next = entries.subrange(0, i as int + 1);
                        assert forall|j: int| 0 <= j < next.len() implies {
                            let due = (#[trigger] next[j]).1.due_date;
                            is_calendar_date(due.year, due.month, due.day)
                        } by {
                            if j < i {
                                assert(entries.subrange(0, i as int)[j] == next[j]);
                            }
                        }
                    }
                },
                None => {
                    assert(!all_days_exist(entries)) by {
                        let due = entries[i as int].1.due_date;
                        assert(!is_calendar_date(due.year, due.month, due.day));
                    }
                    return Err(PersistError::NoSuchDay);
                },
            }
            i += 1;
        }
        assert(entries.subrange(0, records.len() as int) =~= entries);
        Ok(calendar)
    }

    /// The calendar as bytes: some listing of its entries, put into bytes by
    /// bincode.
    pub fn to_bytes(&self) -> (r: Result<Vec<u8>, PersistError>)
        ensures
            is_snapshot_of(r, self@),
    {
        let records = self.to_records();
        match encode_records(&records) {
            Ok(bytes) => Ok(bytes),
            Err(_) => Err(PersistError::Encode),
        }
    }

    /// Checks that `bytes` read back as this calendar.
    pub fn check_snapshot(&self, bytes: &[u8]) -> (r: Result<(), PersistError>)
        ensures
            r == snapshot_check(bincode_decoding(bytes@), self@),
    {
        match CalendarData::from_bytes(bytes) {
            Err(e) => Err(e),
            Ok(read) => if read.same_as(self) {
                Ok(())
            } else {
                Err(PersistError::Mismatch)
            },
        }
    }

    /// The calendar as bytes that are known to read back as this calendar:
    /// the bytes are made, read again and held against the calendar before
    /// they are handed out.
    pub fn to_checked_bytes(&self) -> (r: Result<Vec<u8>, PersistError>)
        ensures
            is_checked_snapshot_of(r, self@),
    {
        let records = self.to_records();
        let bytes = match encode_records(&records) {
            Ok(bytes) => bytes,
            Err(_) => { return Err(PersistError::Encode); },
        };
        match self.check_snapshot(bytes.as_slice()) {
            Ok(()) => Ok(bytes),
            Err(e) => Err(e),
        }
    }

    /// The calendar that bytes hold: what bincode reads out of them, where
    /// every due date exists.
    pub fn from_bytes(bytes: &[u8]) -> (r: Result<CalendarData, PersistError>)
        ensures
            match restored(bincode_decoding(bytes@)) {
                Ok(m) => r is Ok && r.unwrap()@ == m,
                Err(e) => r matches Err(found) && found == e,
            },
    {
        match decode_records(bytes) {
            Ok(records) => CalendarData::from_records(&records),
            Err(_) => Err(PersistError::Decode),
        }
    }
}

/// A listing of a calendar stands for that calendar: listing the entries and
/// building a calendar from the list gives back what was listed.
pub proof fn lemma_listing_round_trip(
    entries: Seq<(u64, AssignmentView)>,
    m: Map<u64, AssignmentView>,
)
    requires
        is_listing_of(entries, m),
    ensures
        calendar_of(entries) == m,
    decreases entries.len(),
{
    if entries.len() == 0 {
        assert(m =~= Map::empty());
    } else {
        let last = entries.last();
        let rest = entries.drop_last();
        let smaller = m.remove(last.0);
        assert(is_listing_of(rest, smaller)) by {
            assert forall|i: int| 0 <= i < rest.len() implies smaller.contains_key(
                (#[trigger] rest[i]).0,
            ) && smaller[rest[i].0] == rest[i].1 by {
                assert(rest[i] == entries[i]);
                assert(entries[i].0 != entries[entries.len() - 1].0);
            }
            assert forall|i: int, j: int| 0 <= i < j < rest.len() implies (#[trigger] rest[i]).0 != (
            #[trigger] rest[j]).0 by {
                assert(rest[i] == entries[i] && rest[j] == entries[j]);
            }
            assert forall|id: u64| #[trigger] smaller.contains_key(id) implies exists|i: int|
                0 <= i < rest.len() && (#[trigger] rest[i]).0 == id by {
                assert(m.contains_key(id));
                let i = choose|i: int| 0 <= i < entries.len() && (#[trigger] entries[i]).0 == id;
                assert(rest[i].0 == id);
            }
        }
        lemma_listing_round_trip(rest, smaller);
        assert(m.contains_key(entries[entries.len() - 1].0));
        assert(calendar_of(entries) =~= m);
    }
}

} // verus!
