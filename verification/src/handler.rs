//! What the bot does when something happens: a message arrives, a reaction is
//! added, a command is given.
//!
//! Each function takes the state and the event and says what is to be done.
//! The caller does it and, where a decision needs to know more, fetches that
//! and asks again.

use crate::assignment::AssignmentView;
use crate::calendar::{
    has_overdue, is_overdue, is_publication_of, vote_status_of, with_accepted, without_overdue,
    CalendarData, CalendarPost,
};
use crate::date::{CalendarDay, Date};
use crate::flash_cards::{
    handle_message, is_deck_submission, submission_status, FlashCards, InboundMessage,
    SubmissionView,
};
use crate::persist::{is_checked_snapshot_of, PersistError};
use crate::tally::{is_submission_accepted, tally_outcome, TallyError, VoteStatus};
use crate::text::same_text;
use vstd::prelude::*;

verus! {

/// The emoji of a reaction.
#[derive(Debug, PartialEq, Eq)]
pub enum ReactionKind {
    /// An emoji of Unicode, as text.
    Unicode(String),
    /// An emoji of a guild's own.
    Custom,
}

/// A reaction that was added to a message.
#[derive(Debug, PartialEq, Eq)]
pub struct Reaction {
    pub emoji: ReactionKind,
    pub message_id: u64,
}

/// The emoji that counts as a vote.
pub open spec fn thumbs_up() -> Seq<char> {
    "\u{1F44D}"@
}

/// The emoji that counts as a vote, as text: the bot gives it to every
/// message that it puts up for the vote.
pub fn vote_emoji() -> (r: &'static str)
    ensures
        r@ == thumbs_up(),
{
    "\u{1F44D}"
}

/// Whether a reaction's emoji is the one that counts as a vote.
pub open spec fn is_vote(emoji: ReactionKind) -> bool {
    emoji matches ReactionKind::Unicode(text) && text@ == thumbs_up()
}

/// Whether a reaction's emoji is the thumbs-up.
pub fn is_thumbs_up(emoji: &ReactionKind) -> (r: bool)
    ensures
        r == is_vote(*emoji),
{
    match emoji {
        ReactionKind::Unicode(text) => same_text(text.as_str(), "\u{1F44D}"),
        ReactionKind::Custom => false,
    }
}

/// Which of the two workflows a review message belongs to.
#[derive(Clone, Copy, Debug, PartialEq, Eq, Structural)]
pub enum Workflow {
    FlashCard,
    Assignment,
}

/// What a newly added reaction asks for.
#[derive(Clone, Copy, Debug, PartialEq, Eq, Structural)]
pub enum ReactionPlan {
    /// Nothing: the reaction is no vote, or its message is under review in
    /// neither workflow.
    Nothing,
    /// Nothing but a note in the log: what the message shows was accepted
    /// before.
    AlreadyAccepted(Workflow),
    /// Count the votes on the message and hand them to the workflow.
    Tally(Workflow),
}

/// What a reaction asks for, given the submissions and the calendar. The
/// flash cards come first; the calendar is asked only about a message that
/// shows no submission.
pub open spec fn reaction_plan(
    submissions: Seq<SubmissionView>,
    calendar: Map<u64, AssignmentView>,
    reaction: Reaction,
) -> ReactionPlan {
    if !is_vote(reaction.emoji) {
        ReactionPlan::Nothing
    } else {
        match submission_status(submissions, reaction.message_id) {
            VoteStatus::Pending => ReactionPlan::Tally(Workflow::FlashCard),
            VoteStatus::AlreadyAccepted => ReactionPlan::AlreadyAccepted(Workflow::FlashCard),
            VoteStatus::NotFound => match vote_status_of(calendar, reaction.message_id) {
                VoteStatus::Pending => ReactionPlan::Tally(Workflow::Assignment),
                VoteStatus::AlreadyAccepted => ReactionPlan::AlreadyAccepted(Workflow::Assignment),
                VoteStatus::NotFound => ReactionPlan::Nothing,
            },
        }
    }
}

/// Decides what a newly added reaction asks for.
pub fn reaction_add(flash_cards: &FlashCards, calendar: &CalendarData, reaction: &Reaction) -> (r:
    ReactionPlan)
    ensures
        r == reaction_plan(flash_cards@, calendar@, *reaction),
{
    if !is_thumbs_up(&reaction.emoji) {
        return ReactionPlan::Nothing;
    }
    match flash_cards.vote_status(reaction.message_id) {
        VoteStatus::Pending => ReactionPlan::Tally(Workflow::FlashCard),
        VoteStatus::AlreadyAccepted => ReactionPlan::AlreadyAccepted(Workflow::FlashCard),
        VoteStatus::NotFound => match calendar.vote_status(reaction.message_id) {
            VoteStatus::Pending => ReactionPlan::Tally(Workflow::Assignment),
            VoteStatus::AlreadyAccepted => ReactionPlan::AlreadyAccepted(Workflow::Assignment),
            VoteStatus::NotFound => ReactionPlan::Nothing,
        },
    }
}

/// The public calendar made anew: the messages that take the place of all
/// messages in the calendar channel, and then the bytes to write to disk,
/// which are known to read back as the calendar.
#[derive(Debug, PartialEq, Eq)]
pub struct Refresh {
    /// One message for each accepted assignment.
    pub posts: Vec<CalendarPost>,
    /// The whole calendar as bytes, or why there are none.
    pub snapshot: Result<Vec<u8>, PersistError>,
}

/// Whether a refresh shows and saves the calendar `m`.
pub open spec fn is_refresh_of(refresh: Refresh, m: Map<u64, AssignmentView>) -> bool {
    &&& is_publication_of(refresh.posts@, m)
    &&& is_checked_snapshot_of(refresh.snapshot, m)
}

/// Makes the public calendar anew from all accepted assignments.
pub fn refresh_calendar(calendar: &CalendarData) -> (r: Refresh)
    ensures
        is_refresh_of(r, calendar@),
{
    Refresh { posts: calendar.accepted_posts(), snapshot: calendar.to_checked_bytes() }
}

/// Whether a vote on the assignment under `id` passes: not unless the
/// assignment waits for votes, and then as the tally says.
pub open spec fn assignment_vote_passes(
    m: Map<u64, AssignmentView>,
    id: u64,
    member_count: nat,
    reactor_count: nat,
) -> Result<bool, TallyError> {
    if vote_status_of(m, id) != VoteStatus::Pending {
        Ok(false)
    } else {
        tally_outcome(member_count, reactor_count)
    }
}

/// Handles a thumbs-up on the review message `id`, given the number of
/// members of its channel and the number of users who gave it a thumbs-up.
///
/// The calendar changes only where the message shows an assignment that waits
/// for votes and now has enough of them: that assignment is then accepted, and
/// the public calendar is to be made anew.
pub fn handle_assignment_vote(
    calendar: &mut CalendarData,
    id: u64,
    member_count: usize,
    reactor_count: usize,
) -> (r: Result<Option<Refresh>, TallyError>)
    ensures
        match assignment_vote_passes(old(calendar)@, id, member_count as nat, reactor_count as nat) {
            Err(e) => r matches Err(found) && found == e && final(calendar)@ == old(calendar)@,
            Ok(false) => r matches Ok(None) && final(calendar)@ == old(calendar)@,
            Ok(true) => r matches Ok(Some(refresh)) && final(calendar)@ == with_accepted(
                old(calendar)@,
                id,
            ) && is_refresh_of(refresh, final(calendar)@),
        },
{
    match calendar.vote_status(id) {
        VoteStatus::Pending => {},
        _ => { return Ok(None); },
    }
    let accepted = match is_submission_accepted(member_count, reactor_count) {
        Ok(a) => a,
        Err(e) => { return Err(e); },
    };
    if !accepted {
        return Ok(None);
    }
    calendar.accept(id);
    Ok(Some(refresh_calendar(calendar)))
}

/// What a received message asks for.
#[derive(Debug, PartialEq, Eq)]
pub struct MessagePlan {
    /// The public calendar made anew, where assignments had to go.
    pub refresh: Option<Refresh>,
    /// Whether the message hands in a deck that is to be put up for review.
    pub review_deck: bool,
}

/// Handles a received message on the day `today`.
///
/// First the calendar is swept: every assignment that was due before today
/// goes, and where any went, the public calendar is to be made anew, once.
/// Then the message is looked at as a deck handed in for review.
pub fn message(calendar: &mut CalendarData, today: &Date, msg: &InboundMessage) -> (plan:
    MessagePlan)
    ensures
        final(calendar)@ == without_overdue(old(calendar)@, today@),
        plan.refresh is Some <==> has_overdue(old(calendar)@, today@),
        plan.refresh matches Some(refresh) ==> is_refresh_of(refresh, final(calendar)@),
        plan.review_deck == is_deck_submission(*msg),
{
    let refresh = if calendar.is_outdated(today) {
        calendar.remove_outdated(today);
        Some(refresh_calendar(calendar))
    } else {
        proof {
            lemma_sweep_without_overdue(calendar@, today@);
        }
        None
    };
    MessagePlan { refresh, review_deck: handle_message(msg) }
}

/// The answer to a user who may not prune.
pub open spec fn prune_refusal() -> Seq<char> {
    "You need to have Manage Messages to use prune."@
}

/// What a prune command leads to.
#[derive(Debug, PartialEq, Eq)]
pub enum PruneAction {
    /// Answer the user with this text and delete nothing.
    Refuse(String),
    /// Delete this many messages before the command, then the command itself.
    Delete(u64),
}

/// Why a prune command could not be carried out.
#[derive(Clone, Copy, Debug, PartialEq, Eq, Structural)]
pub enum PruneError {
    /// The command does not say how many messages to delete.
    NoCount,
}

/// Decides a prune command, given whether its author may manage messages and
/// the count that the command names, if it names one. The permission is
/// looked at first: without it the count does not matter.
pub fn prune(can_manage_messages: bool, count: Option<u64>) -> (r: Result<PruneAction, PruneError>)
    ensures
        !can_manage_messages ==> (r matches Ok(PruneAction::Refuse(reply)) && reply@
            == prune_refusal()),
        can_manage_messages && count is None ==> r == Err::<PruneAction, PruneError>(
            PruneError::NoCount,
        ),
        can_manage_messages && count is Some ==> (r matches Ok(PruneAction::Delete(n)) && n
            == count.unwrap()),
{
    if !can_manage_messages {
        return Ok(
            PruneAction::Refuse(String::from_str("You need to have Manage Messages to use prune.")),
        );
    }
    match count {
        Some(n) => Ok(PruneAction::Delete(n)),
        None => Err(PruneError::NoCount),
    }
}

/// A sweep takes every assignment that was due before today and keeps every
/// other one as it is.
pub proof fn lemma_sweep_removes_overdue(m: Map<u64, AssignmentView>, today: CalendarDay, id: u64)
    requires
        m.contains_key(id),
    ensures
        is_overdue(m[id], today) ==> !without_overdue(m, today).contains_key(id),
        !is_overdue(m[id], today) ==> without_overdue(m, today).contains_key(id) && without_overdue(
            m,
            today,
        )[id] == m[id],
{
}

/// A sweep of a calendar in which nothing is overdue changes nothing.
pub proof fn lemma_sweep_without_overdue(m: Map<u64, AssignmentView>, today: CalendarDay)
    requires
        !has_overdue(m, today),
    ensures
        without_overdue(m, today) == m,
{
    assert forall|id: u64| m.contains_key(id) implies !is_overdue(#[trigger] m[id], today) by {}
    assert(without_overdue(m, today) =~= m);
}

/// After a sweep nothing is overdue, so a second sweep on the same day
/// changes nothing and asks for no refresh.
pub proof fn lemma_sweep_once(m: Map<u64, AssignmentView>, today: CalendarDay)
    ensures
        !has_overdue(without_overdue(m, today), today),
        without_overdue(without_overdue(m, today), today) == without_overdue(m, today),
{
    lemma_sweep_without_overdue(without_overdue(m, today), today);
}

/// A vote on an assignment that was accepted before changes nothing and asks
/// for nothing, whatever the tally would say.
pub proof fn lemma_accepted_assignment_vote_is_idle(
    m: Map<u64, AssignmentView>,
    id: u64,
    member_count: nat,
    reactor_count: nat,
)
    requires
        vote_status_of(m, id) == VoteStatus::AlreadyAccepted,
    ensures
        assignment_vote_passes(m, id, member_count, reactor_count) == Ok::<bool, TallyError>(false),
        with_accepted(m, id) == m,
{
    assert(with_accepted(m, id) =~= m);
}

/// Once a vote on an assignment has passed, the assignment counts as
/// accepted, and every later vote on it is idle.
pub proof fn lemma_assignment_accepted_once(
    m: Map<u64, AssignmentView>,
    id: u64,
    member_count: nat,
    reactor_count: nat,
)
    requires
        m.contains_key(id),
    ensures
        vote_status_of(with_accepted(m, id), id) == VoteStatus::AlreadyAccepted,
        assignment_vote_passes(with_accepted(m, id), id, member_count, reactor_count) == Ok::<
            bool,
            TallyError,
        >(false),
        with_accepted(with_accepted(m, id), id) == with_accepted(m, id),
{
    assert(with_accepted(with_accepted(m, id), id) =~= with_accepted(m, id));
}

} // verus!
