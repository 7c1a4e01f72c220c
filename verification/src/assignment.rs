//! Assignments of the shared calendar and the files attached to them.

use crate::date::{is_calendar_date, CalendarDay, Date};
use crate::text::{decimal_digits, decimal_string};
use vstd::prelude::*;

verus! {

/// The year that every newly entered assignment is due in.
pub const DUE_YEAR: i32 = 2020;

/// A file attached to an assignment: its bytes and its name.
#[derive(Debug, PartialEq, Eq)]
pub struct Notification {
    pub data: Vec<u8>,
    pub filename: String,
}

/// What a [`Notification`] holds.
pub struct NotificationView {
    pub data: Seq<u8>,
    pub filename: Seq<char>,
}

impl View for Notification {
    type V = NotificationView;

    open spec fn view(&self) -> NotificationView {
        NotificationView { data: self.data@, filename: self.filename@ }
    }
}

impl Clone for Notification {
    fn clone(&self) -> (r: Self)
        ensures
            r@ == self@,
    {
        Notification { data: self.data.clone(), filename: self.filename.clone() }
    }
}

/// Whether two lists of bytes hold the same bytes.
pub fn same_bytes(a: &Vec<u8>, b: &Vec<u8>) -> (r: bool)
    ensures
        r == (a@ == b@),
{
    if a.len() != b.len() {
        return false;
    }
    let mut i: usize = 0;
    while i < a.len()
        invariant
            i <= a.len(),
            a.len() == b.len(),
            forall|j: int| 0 <= j < i ==> a@[j] == b@[j],
        decreases a.len() - i,
    {
        if a[i] != b[i] {
            return false;
        }
        i += 1;
    }
    assert(a@ =~= b@);
    true
}

impl Notification {
    /// Whether this file and `other` hold the same bytes under the same name.
    pub fn same_as(&self, other: &Notification) -> (r: bool)
        ensures
            r == (self@ == other@),
    {
        self.filename == other.filename && same_bytes(&self.data, &other.data)
    }
}

/// What a list of notifications holds, file by file.
pub open spec fn notification_views(files: Seq<Notification>) -> Seq<NotificationView> {
    files.map_values(|n: Notification| n@)
}

/// Copies a list of notifications.
pub fn clone_notifications(files: &Vec<Notification>) -> (r: Vec<Notification>)
    ensures
        notification_views(r@) == notification_views(files@),
{
    let mut r: Vec<Notification> = Vec::new();
    let mut i: usize = 0;
    while i < files.len()
        invariant
            i <= files.len(),
            r.len() == i,
            forall|j: int| 0 <= j < i ==> r@[j]@ == files@[j]@,
        decreases files.len() - i,
    {
        r.push(files[i].clone());
        i += 1;
    }
    assert(notification_views(r@) =~= notification_views(files@));
    r
}

/// A piece of work with a due date, entered by a user and shown in the
/// calendar once the voters have accepted it.
#[derive(Debug, PartialEq, Eq)]
pub struct Assignment {
    pub subject: String,
    pub due_date: Date,
    pub notifications: Vec<Notification>,
    pub accepted: bool,
}

/// What an [`Assignment`] holds.
pub struct AssignmentView {
    pub subject: Seq<char>,
    pub due_date: CalendarDay,
    pub notifications: Seq<NotificationView>,
    pub accepted: bool,
}

impl View for Assignment {
    type V = AssignmentView;

    open spec fn view(&self) -> AssignmentView {
        AssignmentView {
            subject: self.subject@,
            due_date: self.due_date@,
            notifications: notification_views(self.notifications@),
            accepted: self.accepted,
        }
    }
}

impl Clone for Assignment {
    fn clone(&self) -> (r: Self)
        ensures
            r@ == self@,
    {
        Assignment {
            subject: self.subject.clone(),
            due_date: self.due_date,
            notifications: clone_notifications(&self.notifications),
            accepted: self.accepted,
        }
    }
}

/// A message to send: its text and the files that go with it.
#[derive(Debug, PartialEq, Eq)]
pub struct Post {
    pub content: String,
    pub files: Vec<Notification>,
}

/// What a [`Post`] holds.
pub struct PostView {
    pub content: Seq<char>,
    pub files: Seq<NotificationView>,
}

impl View for Post {
    type V = PostView;

    open spec fn view(&self) -> PostView {
        PostView { content: self.content@, files: notification_views(self.files@) }
    }
}

/// The line that announces an assignment: its subject, then the day and the
/// month it is due.
pub open spec fn assignment_line(a: AssignmentView) -> Seq<char> {
    a.subject + ": Due on "@ + decimal_digits(a.due_date.day as nat) + "/"@ + decimal_digits(
        a.due_date.month as nat,
    ) + "."@
}

/// The message that shows an assignment: its line, with its files attached.
pub open spec fn assignment_post(a: AssignmentView) -> PostView {
    PostView { content: assignment_line(a), files: a.notifications }
}

/// The assignment that a user's entry stands for, before any review.
pub open spec fn pending_assignment(
    subject: Seq<char>,
    day: u32,
    month: u32,
    notifications: Seq<NotificationView>,
) -> AssignmentView {
    AssignmentView {
        subject,
        due_date: CalendarDay { year: DUE_YEAR as int, month: month as int, day: day as int },
        notifications,
        accepted: false,
    }
}

/// Why an entry was turned down.
#[derive(Clone, Copy, Debug, PartialEq, Eq, Structural)]
pub enum InsertError {
    /// The calendar has no such day in the year that entries are due in.
    NoSuchDay,
}

/// Builds the assignment that a user entered: a subject, the day and the month
/// it is due, and the files sent along. The assignment is due in [`DUE_YEAR`]
/// and not yet accepted. An entry whose day does not exist is turned down.
pub fn calendar_insert(
    subject: String,
    day: u32,
    month: u32,
    notifications: Vec<Notification>,
) -> (r: Result<Assignment, InsertError>)
    ensures
        is_calendar_date(DUE_YEAR as int, month as int, day as int) ==> r is Ok && r.unwrap()@
            == pending_assignment(subject@, day, month, notification_views(notifications@)),
        !is_calendar_date(DUE_YEAR as int, month as int, day as int) ==> r == Err::<
            Assignment,
            InsertError,
        >(InsertError::NoSuchDay),
{
    match Date::from_ymd(DUE_YEAR, month, day) {
        Some(due_date) => Ok(Assignment { subject, due_date, notifications, accepted: false }),
        None => Err(InsertError::NoSuchDay),
    }
}

/// Whether two lists of notifications hold the same files in the same order.
pub fn same_notifications(a: &Vec<Notification>, b: &Vec<Notification>) -> (r: bool)
    ensures
        r == (notification_views(a@) == notification_views(b@)),
{
    if a.len() != b.len() {
        assert(notification_views(a@).len() != notification_views(b@).len());
        return false;
    }
    let mut i: usize = 0;
    while i < a.len()
        invariant
            i <= a.len(),
            a.len() == b.len(),
            forall|j: int| 0 <= j < i ==> a@[j]@ == b@[j]@,
        decreases a.len() - i,
    {
        if !a[i].same_as(&b[i]) {
            assert(notification_views(a@)[i as int] != notification_views(b@)[i as int]);
            return false;
        }
        i += 1;
    }
    assert(notification_views(a@) =~= notification_views(b@));
    true
}

impl Assignment {
    /// Whether this assignment and `other` hold the same: subject, due date,
    /// files and acceptance.
    pub fn same_as(&self, other: &Assignment) -> (r: bool)
        ensures
            r == (self@ == other@),
    {
        self.subject == other.subject && self.due_date.same_day(&other.due_date)
            && self.accepted == other.accepted && same_notifications(
            &self.notifications,
            &other.notifications,
        )
    }

    /// The line that announces this assignment.
    pub fn to_text(&self) -> (r: String)
        ensures
            r@ == assignment_line(self@),
    {
        let mut r = self.subject.clone();
        r.append(": Due on ");
        let day = decimal_string(self.due_date.day() as u64);
        r.append(day.as_str());
        r.append("/");
        let month = decimal_string(self.due_date.month() as u64);
        r.append(month.as_str());
        r.append(".");
        r
    }

    /// The message that shows this assignment, with copies of its files.
    pub fn create_message(&self) -> (r: Post)
        ensures
            r@ == assignment_post(self@),
    {
        Post { content: self.to_text(), files: clone_notifications(&self.notifications) }
    }
}

} // verus!
