use g22_study_bot::assignment::{calendar_insert, Assignment, Notification};
use g22_study_bot::calendar::CalendarData;
use g22_study_bot::date::Date;
use g22_study_bot::flash_cards::{Deck, FlashCards, InboundMessage};
use g22_study_bot::handler::{
    handle_assignment_vote, is_thumbs_up, message, prune, reaction_add, refresh_calendar,
    vote_emoji, PruneAction, PruneError, Reaction, ReactionKind, ReactionPlan, Workflow,
};
use g22_study_bot::tally::TallyError;

fn entry(subject: &str, day: u32, month: u32) -> Assignment {
    calendar_insert(subject.to_string(), day, month, vec![]).unwrap()
}

fn thumbs_up_on(message_id: u64) -> Reaction {
    Reaction { emoji: ReactionKind::Unicode("\u{1F44D}".to_string()), message_id }
}

fn deck(name: &str) -> Deck {
    Deck { data: name.as_bytes().to_vec(), filename: name.to_string() }
}

fn chatter() -> InboundMessage {
    InboundMessage { author_is_bot: false, in_guild: true, attachments: vec![] }
}

fn day(year: i32, month: u32, day: u32) -> Date {
    Date::from_ymd(year, month, day).unwrap()
}

#[test]
fn the_vote_emoji_is_the_thumbs_up() {
    assert_eq!(vote_emoji(), "\u{1F44D}");
    assert!(is_thumbs_up(&ReactionKind::Unicode(vote_emoji().to_string())));
}

#[test]
fn other_emoji_are_no_votes() {
    assert!(!is_thumbs_up(&ReactionKind::Unicode("\u{1F44E}".to_string())));
    assert!(!is_thumbs_up(&ReactionKind::Unicode("".to_string())));
    assert!(!is_thumbs_up(&ReactionKind::Unicode("\u{1F44D}\u{1F44D}".to_string())));
    assert!(!is_thumbs_up(&ReactionKind::Unicode("\u{1F44D}\u{1F3FD}".to_string())));
    assert!(!is_thumbs_up(&ReactionKind::Custom));
}

#[test]
fn a_reaction_that_is_no_vote_asks_for_nothing() {
    let mut cards = FlashCards::new();
    cards.add_submission(deck("a.apkg"), 1, 10);
    let mut calendar = CalendarData::new();
    calendar.insert(2, entry("Math", 5, 10));
    let heart = Reaction { emoji: ReactionKind::Unicode("\u{2764}".to_string()), message_id: 1 };
    assert_eq!(reaction_add(&cards, &calendar, &heart), ReactionPlan::Nothing);
    let custom = Reaction { emoji: ReactionKind::Custom, message_id: 2 };
    assert_eq!(reaction_add(&cards, &calendar, &custom), ReactionPlan::Nothing);
}

#[test]
fn a_vote_on_an_unknown_message_is_nobodys() {
    let mut cards = FlashCards::new();
    cards.add_submission(deck("a.apkg"), 1, 10);
    let mut calendar = CalendarData::new();
    calendar.insert(2, entry("Math", 5, 10));
    assert_eq!(reaction_add(&cards, &calendar, &thumbs_up_on(3)), ReactionPlan::Nothing);
    assert_eq!(
        reaction_add(&FlashCards::new(), &CalendarData::new(), &thumbs_up_on(1)),
        ReactionPlan::Nothing
    );
}

#[test]
fn a_vote_goes_to_the_flash_cards_first() {
    let mut cards = FlashCards::new();
    cards.add_submission(deck("a.apkg"), 1, 10);
    let mut calendar = CalendarData::new();
    calendar.insert(1, entry("Math", 5, 10));
    calendar.insert(2, entry("History", 9, 3));
    assert_eq!(
        reaction_add(&cards, &calendar, &thumbs_up_on(1)),
        ReactionPlan::Tally(Workflow::FlashCard)
    );
    assert_eq!(
        reaction_add(&cards, &calendar, &thumbs_up_on(2)),
        ReactionPlan::Tally(Workflow::Assignment)
    );
    cards.mark_last_submission_as_accepted();
    assert_eq!(
        reaction_add(&cards, &calendar, &thumbs_up_on(1)),
        ReactionPlan::AlreadyAccepted(Workflow::FlashCard)
    );
    calendar.accept(2);
    assert_eq!(
        reaction_add(&cards, &calendar, &thumbs_up_on(2)),
        ReactionPlan::AlreadyAccepted(Workflow::Assignment)
    );
}

#[test]
fn enough_votes_accept_an_assignment_and_republish_the_calendar() {
    // "Math", due on the 5th of October, is entered and put up for the vote.
    let assignment = calendar_insert("Math".to_string(), 5, 10, vec![]).unwrap();
    assert_eq!(assignment.create_message().content, "Math: Due on 5/10.");
    let mut calendar = CalendarData::new();
    calendar.insert(900, assignment);
    let cards = FlashCards::new();
    assert_eq!(
        reaction_add(&cards, &calendar, &thumbs_up_on(900)),
        ReactionPlan::Tally(Workflow::Assignment)
    );

    // Three voters and the bot: two votes are needed. One is not enough.
    assert_eq!(handle_assignment_vote(&mut calendar, 900, 4, 2), Ok(None));
    assert!(!calendar.get(900).unwrap().accepted);

    // The second vote crosses the line.
    let refresh = handle_assignment_vote(&mut calendar, 900, 4, 3).unwrap().unwrap();
    assert!(calendar.get(900).unwrap().accepted);
    assert_eq!(refresh.posts.len(), 1);
    assert_eq!(refresh.posts[0].message_id, 900);
    assert_eq!(refresh.posts[0].post.content, "Math: Due on 5/10.");
    assert!(refresh.posts[0].post.files.is_empty());
    let saved = CalendarData::from_bytes(&refresh.snapshot.unwrap()).unwrap();
    assert_eq!(saved, calendar);
}

#[test]
fn a_vote_on_an_accepted_assignment_changes_nothing() {
    let mut calendar = CalendarData::new();
    calendar.insert(900, entry("Math", 5, 10));
    assert!(handle_assignment_vote(&mut calendar, 900, 4, 3).unwrap().is_some());
    let before = calendar.get(900).unwrap().clone();
    assert_eq!(handle_assignment_vote(&mut calendar, 900, 4, 3), Ok(None));
    assert_eq!(handle_assignment_vote(&mut calendar, 900, 4, 4), Ok(None));
    // Not even the counts are looked at.
    assert_eq!(handle_assignment_vote(&mut calendar, 900, 0, 0), Ok(None));
    assert_eq!(calendar.get(900), Some(&before));
    assert_eq!(calendar.len(), 1);
}

#[test]
fn a_vote_on_an_unknown_assignment_changes_nothing() {
    let mut calendar = CalendarData::new();
    calendar.insert(900, entry("Math", 5, 10));
    assert_eq!(handle_assignment_vote(&mut calendar, 901, 4, 4), Ok(None));
    assert_eq!(handle_assignment_vote(&mut calendar, 901, 0, 0), Ok(None));
    assert_eq!(calendar.get(900), Some(&entry("Math", 5, 10)));
}

#[test]
fn an_assignment_vote_that_cannot_be_tallied_is_an_error() {
    let mut calendar = CalendarData::new();
    calendar.insert(900, entry("Math", 5, 10));
    assert_eq!(handle_assignment_vote(&mut calendar, 900, 0, 4), Err(TallyError::NoMembers));
    assert!(!calendar.get(900).unwrap().accepted);
}

#[test]
fn an_assignment_without_reactors_is_not_accepted() {
    let mut calendar = CalendarData::new();
    calendar.insert(900, entry("Math", 5, 10));
    assert_eq!(handle_assignment_vote(&mut calendar, 900, 4, 0), Ok(None));
    assert_eq!(handle_assignment_vote(&mut calendar, 900, 1, 0), Ok(None));
    assert_eq!(calendar.get(900), Some(&entry("Math", 5, 10)));
}

#[test]
fn accepting_one_assignment_republishes_all_accepted_ones() {
    let mut calendar = CalendarData::new();
    let files = vec![Notification { data: vec![1, 2], filename: "sheet.pdf".to_string() }];
    calendar.insert(1, calendar_insert("Math".to_string(), 5, 10, files.clone()).unwrap());
    calendar.insert(2, entry("History", 9, 3));
    calendar.insert(3, entry("Art", 1, 6));
    calendar.accept(1);
    let mut refresh = handle_assignment_vote(&mut calendar, 3, 2, 2).unwrap().unwrap();
    refresh.posts.sort_by_key(|p| p.message_id);
    assert_eq!(refresh.posts.len(), 2);
    assert_eq!(refresh.posts[0].post.content, "Math: Due on 5/10.");
    assert_eq!(refresh.posts[0].post.files, files);
    assert_eq!(refresh.posts[1].post.content, "Art: Due on 1/6.");
    // Pending assignments are saved too.
    let saved = CalendarData::from_bytes(&refresh.snapshot.unwrap()).unwrap();
    assert_eq!(saved.len(), 3);
    assert_eq!(saved, calendar);
}

#[test]
fn refresh_calendar_of_an_empty_calendar_posts_nothing() {
    let refresh = refresh_calendar(&CalendarData::new());
    assert!(refresh.posts.is_empty());
    assert_eq!(refresh.snapshot, Ok(vec![0u8; 8]));
}

#[test]
fn a_sweep_takes_an_overdue_assignment_and_refreshes_once() {
    let mut calendar = CalendarData::new();
    calendar.insert(1, entry("Math", 5, 10));
    calendar.insert(2, entry("History", 6, 10));
    calendar.insert(3, entry("Art", 7, 10));
    calendar.accept(1);
    calendar.accept(3);
    let today = day(2020, 10, 6);
    let plan = message(&mut calendar, &today, &chatter());
    // Due yesterday: gone. Due today or later: kept.
    assert!(!calendar.contains(1));
    assert_eq!(calendar.get(2), Some(&entry("History", 6, 10)));
    assert!(calendar.contains(3));
    let refresh = plan.refresh.unwrap();
    assert_eq!(refresh.posts.len(), 1);
    assert_eq!(refresh.posts[0].post.content, "Art: Due on 7/10.");
    assert_eq!(CalendarData::from_bytes(&refresh.snapshot.unwrap()), Ok(calendar));
    assert!(!plan.review_deck);
}

#[test]
fn two_overdue_assignments_go_in_one_sweep_with_one_refresh() {
    let mut calendar = CalendarData::new();
    calendar.insert(1, entry("Math", 5, 10));
    calendar.insert(2, entry("History", 1, 3));
    let today = day(2020, 10, 6);
    let plan = message(&mut calendar, &today, &chatter());
    assert_eq!(calendar.len(), 0);
    let refresh = plan.refresh.unwrap();
    assert!(refresh.posts.is_empty());
    assert_eq!(refresh.snapshot, Ok(vec![0u8; 8]));
    // The next message of the day finds nothing to sweep.
    let next = message(&mut calendar, &today, &chatter());
    assert!(next.refresh.is_none());
    assert_eq!(calendar.len(), 0);
}

#[test]
fn a_message_without_overdue_assignments_refreshes_nothing() {
    let mut calendar = CalendarData::new();
    calendar.insert(1, entry("Math", 5, 10));
    calendar.accept(1);
    let plan = message(&mut calendar, &day(2020, 10, 5), &chatter());
    assert!(plan.refresh.is_none());
    assert_eq!(calendar.len(), 1);
    let earlier = message(&mut calendar, &day(2019, 1, 1), &chatter());
    assert!(earlier.refresh.is_none());
    assert_eq!(calendar.len(), 1);
}

#[test]
fn a_message_is_swept_and_looked_at_as_a_deck() {
    let mut calendar = CalendarData::new();
    calendar.insert(1, entry("Math", 5, 10));
    let handed_in = InboundMessage {
        author_is_bot: false,
        in_guild: false,
        attachments: vec!["cards.apkg".to_string()],
    };
    let plan = message(&mut calendar, &day(2021, 1, 1), &handed_in);
    assert!(plan.refresh.is_some());
    assert!(plan.review_deck);
    let quiet = message(&mut calendar, &day(2021, 1, 1), &handed_in);
    assert!(quiet.refresh.is_none());
    assert!(quiet.review_deck);
}

#[test]
fn prune_needs_the_permission() {
    let refusal = PruneAction::Refuse("You need to have Manage Messages to use prune.".to_string());
    assert_eq!(prune(false, Some(5)), Ok(refusal));
    let again = PruneAction::Refuse("You need to have Manage Messages to use prune.".to_string());
    assert_eq!(prune(false, None), Ok(again));
}

#[test]
fn prune_deletes_the_named_number_of_messages() {
    assert_eq!(prune(true, Some(5)), Ok(PruneAction::Delete(5)));
    assert_eq!(prune(true, Some(0)), Ok(PruneAction::Delete(0)));
    assert_eq!(prune(true, Some(u64::MAX)), Ok(PruneAction::Delete(u64::MAX)));
}

#[test]
fn prune_without_a_count_is_an_error() {
    assert_eq!(prune(true, None), Err(PruneError::NoCount));
}
