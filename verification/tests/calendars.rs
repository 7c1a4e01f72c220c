use g22_study_bot::assignment::{calendar_insert, Assignment, Notification};
use g22_study_bot::calendar::{CalendarData, CALENDAR_CHANNEL_ID};
use g22_study_bot::date::Date;
use g22_study_bot::tally::VoteStatus;

fn entry(subject: &str, day: u32, month: u32) -> Assignment {
    calendar_insert(subject.to_string(), day, month, vec![]).unwrap()
}

fn sorted(mut ids: Vec<u64>) -> Vec<u64> {
    ids.sort();
    ids
}

#[test]
fn a_new_calendar_is_empty() {
    let c = CalendarData::new();
    assert_eq!(c.len(), 0);
    assert!(!c.contains(1));
    assert!(c.get(1).is_none());
    assert!(c.message_ids().is_empty());
    assert!(c.accepted_posts().is_empty());
}

#[test]
fn insert_keeps_an_assignment_under_its_message() {
    let mut c = CalendarData::new();
    c.insert(10, entry("Math", 5, 10));
    c.insert(20, entry("History", 9, 3));
    assert_eq!(c.len(), 2);
    assert!(c.contains(10));
    assert!(!c.contains(30));
    assert_eq!(c.get(10), Some(&entry("Math", 5, 10)));
    assert_eq!(c.get(20), Some(&entry("History", 9, 3)));
    assert_eq!(sorted(c.message_ids()), vec![10, 20]);
}

#[test]
fn insert_under_a_used_message_takes_the_place_of_the_old_entry() {
    let mut c = CalendarData::new();
    c.insert(10, entry("Math", 5, 10));
    c.insert(10, entry("History", 9, 3));
    assert_eq!(c.len(), 1);
    assert_eq!(c.get(10), Some(&entry("History", 9, 3)));
}

#[test]
fn vote_status_tells_the_three_cases_apart() {
    let mut c = CalendarData::new();
    c.insert(10, entry("Math", 5, 10));
    assert_eq!(c.vote_status(10), VoteStatus::Pending);
    assert_eq!(c.vote_status(11), VoteStatus::NotFound);
    assert!(c.accept(10));
    assert_eq!(c.vote_status(10), VoteStatus::AlreadyAccepted);
}

#[test]
fn accept_marks_only_the_entry_under_the_message() {
    let mut c = CalendarData::new();
    c.insert(10, entry("Math", 5, 10));
    c.insert(20, entry("History", 9, 3));
    assert!(c.accept(20));
    assert!(!c.get(10).unwrap().accepted);
    assert!(c.get(20).unwrap().accepted);
    assert_eq!(c.get(20).unwrap().subject, "History");
    assert_eq!(c.len(), 2);
}

#[test]
fn accept_a_second_time_changes_nothing() {
    let mut c = CalendarData::new();
    c.insert(10, entry("Math", 5, 10));
    assert!(c.accept(10));
    let before = c.get(10).unwrap().clone();
    assert!(!c.accept(10));
    assert_eq!(c.get(10), Some(&before));
    assert_eq!(c.len(), 1);
}

#[test]
fn accept_of_an_unknown_message_changes_nothing() {
    let mut c = CalendarData::new();
    c.insert(10, entry("Math", 5, 10));
    assert!(!c.accept(11));
    assert_eq!(c.len(), 1);
    assert!(!c.get(10).unwrap().accepted);
}

#[test]
fn accepted_posts_shows_every_accepted_assignment_once() {
    let mut c = CalendarData::new();
    c.insert(10, entry("Math", 5, 10));
    c.insert(20, entry("History", 9, 3));
    c.insert(30, entry("Art", 1, 6));
    c.accept(10);
    c.accept(30);
    let mut posts = c.accepted_posts();
    posts.sort_by_key(|p| p.message_id);
    assert_eq!(posts.len(), 2);
    assert_eq!(posts[0].message_id, 10);
    assert_eq!(posts[0].post.content, "Math: Due on 5/10.");
    assert_eq!(posts[1].message_id, 30);
    assert_eq!(posts[1].post.content, "Art: Due on 1/6.");
}

#[test]
fn accepted_posts_carry_the_files() {
    let mut c = CalendarData::new();
    let files = vec![Notification { data: vec![1, 2, 3], filename: "sheet.pdf".to_string() }];
    c.insert(10, calendar_insert("Math".to_string(), 5, 10, files.clone()).unwrap());
    c.accept(10);
    let posts = c.accepted_posts();
    assert_eq!(posts.len(), 1);
    assert_eq!(posts[0].post.files, files);
}

#[test]
fn is_outdated_looks_for_a_due_date_before_today() {
    let mut c = CalendarData::new();
    assert!(!c.is_outdated(&Date::from_ymd(2030, 1, 1).unwrap()));
    c.insert(10, entry("Math", 5, 10));
    assert!(!c.is_outdated(&Date::from_ymd(2020, 10, 4).unwrap()));
    assert!(!c.is_outdated(&Date::from_ymd(2020, 10, 5).unwrap()));
    assert!(c.is_outdated(&Date::from_ymd(2020, 10, 6).unwrap()));
    assert!(c.is_outdated(&Date::from_ymd(2021, 1, 1).unwrap()));
    assert!(!c.is_outdated(&Date::from_ymd(2019, 12, 31).unwrap()));
}

#[test]
fn remove_outdated_takes_what_was_due_before_today_and_keeps_the_rest() {
    let mut c = CalendarData::new();
    c.insert(10, entry("Math", 5, 10));
    c.insert(20, entry("History", 6, 10));
    c.insert(30, entry("Art", 7, 10));
    c.insert(40, entry("Music", 1, 1));
    c.accept(30);
    c.remove_outdated(&Date::from_ymd(2020, 10, 6).unwrap());
    assert_eq!(sorted(c.message_ids()), vec![20, 30]);
    assert_eq!(c.get(20), Some(&entry("History", 6, 10)));
    assert!(c.get(30).unwrap().accepted);
    assert!(!c.is_outdated(&Date::from_ymd(2020, 10, 6).unwrap()));
}

#[test]
fn remove_outdated_without_overdue_entries_changes_nothing() {
    let mut c = CalendarData::new();
    c.insert(10, entry("Math", 5, 10));
    c.insert(20, entry("History", 6, 10));
    c.remove_outdated(&Date::from_ymd(2020, 10, 5).unwrap());
    assert_eq!(sorted(c.message_ids()), vec![10, 20]);
}

#[test]
fn remove_outdated_can_empty_the_calendar() {
    let mut c = CalendarData::new();
    for id in 0..50u64 {
        c.insert(id, entry("Math", 1 + (id % 28) as u32, 1 + (id % 12) as u32));
    }
    c.remove_outdated(&Date::from_ymd(2021, 1, 1).unwrap());
    assert_eq!(c.len(), 0);
}

#[test]
fn the_calendar_channel_is_fixed() {
    assert_eq!(CALENDAR_CHANNEL_ID, 771595328029589544);
}

#[test]
fn to_text_of_an_empty_calendar_is_empty() {
    assert_eq!(CalendarData::new().to_text(), "");
}

#[test]
fn to_text_parts_the_lines_of_a_fully_accepted_calendar() {
    let mut c = CalendarData::new();
    c.insert(10, entry("Math", 5, 10));
    c.accept(10);
    assert_eq!(c.to_text(), "Math: Due on 5/10.");
    c.insert(20, entry("Art", 1, 6));
    c.accept(20);
    let text = c.to_text();
    assert!(
        text == "Math: Due on 5/10.\nArt: Due on 1/6."
            || text == "Art: Due on 1/6.\nMath: Due on 5/10."
    );
}

#[test]
fn to_text_ends_every_line_where_something_is_pending() {
    let mut c = CalendarData::new();
    c.insert(10, entry("Math", 5, 10));
    c.insert(20, entry("Art", 1, 6));
    assert_eq!(c.to_text(), "");
    c.accept(10);
    assert_eq!(c.to_text(), "Math: Due on 5/10.\n");
}

#[test]
fn the_default_calendar_is_empty() {
    assert_eq!(CalendarData::default(), CalendarData::new());
    assert_eq!(CalendarData::default().len(), 0);
}

#[test]
fn calendars_are_the_same_by_keys_and_entries() {
    let mut a = CalendarData::new();
    let mut b = CalendarData::new();
    assert!(a.same_as(&b));
    a.insert(10, entry("Math", 5, 10));
    assert!(!a.same_as(&b));
    assert!(!b.same_as(&a));
    b.insert(10, entry("Math", 5, 10));
    assert!(a.same_as(&b));
    a.insert(20, entry("Art", 1, 6));
    b.insert(30, entry("Art", 1, 6));
    assert!(!a.same_as(&b));
    b.insert(20, entry("Art", 1, 6));
    a.insert(30, entry("Art", 1, 6));
    assert!(a.same_as(&b));
    a.accept(20);
    assert!(!a.same_as(&b));
    b.accept(20);
    assert!(a.same_as(&b));
}
