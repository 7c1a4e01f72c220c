//! The voting gate: how many votes a submission needs, how many it has,
//! and whether that is enough.

use vstd::prelude::*;

verus! {

/// Why a tally could not be taken.
#[derive(Clone, Copy, Debug, PartialEq, Eq, Structural)]
pub enum TallyError {
    /// The channel's member list does not even hold the bot.
    NoMembers,
}

/// Where a vote on a review message stands.
#[derive(Clone, Copy, Debug, PartialEq, Eq, Structural)]
pub enum VoteStatus {
    /// No entry is kept under the message.
    NotFound,
    /// The entry under the message was accepted before.
    AlreadyAccepted,
    /// The entry under the message still waits for enough votes.
    Pending,
}

/// Half of `eligible`, rounded to the nearest whole number, a tie going up.
pub open spec fn required_votes(eligible: nat) -> nat {
    (eligible + 1) / 2
}

/// The voters of a channel: its members without the bot.
pub open spec fn eligible_voters(member_count: nat) -> nat {
    if member_count == 0 {
        0
    } else {
        (member_count - 1) as nat
    }
}

/// The votes on a message: its reactors less one, for the bot's own reaction.
/// Where nobody has reacted, not even the bot, this is one below zero.
pub open spec fn cast_votes(reactor_count: nat) -> int {
    reactor_count - 1
}

/// A submission passes once its votes reach the required number.
pub open spec fn has_enough_votes(num_votes: int, needed_votes: nat) -> bool {
    num_votes >= needed_votes
}

/// The decision on a message, from the size of its channel and the number of its reactors.
pub open spec fn tally_outcome(member_count: nat, reactor_count: nat) -> Result<bool, TallyError> {
    if member_count == 0 {
        Err(TallyError::NoMembers)
    } else {
        Ok(
            has_enough_votes(
                cast_votes(reactor_count),
                required_votes(eligible_voters(member_count)),
            ),
        )
    }
}

/// The number of votes that a channel of `member_count` members, the bot
/// among them, asks of a submission.
pub fn needed_votes(member_count: usize) -> (r: Result<usize, TallyError>)
    ensures
        member_count == 0 ==> r == Err::<usize, TallyError>(TallyError::NoMembers),
        member_count > 0 ==> r == Ok::<usize, TallyError>(
            required_votes(eligible_voters(member_count as nat)) as usize,
        ),
        member_count > 0 ==> required_votes(eligible_voters(member_count as nat)) <= usize::MAX,
{
    if member_count == 0 {
        return Err(TallyError::NoMembers);
    }
    let num_voters: usize = member_count - 1;
    let half: usize = num_voters / 2;
    let odd: usize = num_voters % 2;
    Ok(half + odd)
}

/// The number of votes that `reactor_count` reactors have cast: one less than
/// there are reactors, since the bot's own reaction is no vote.
pub fn num_votes(reactor_count: usize) -> (r: i128)
    ensures
        r == cast_votes(reactor_count as nat),
{
    reactor_count as i128 - 1
}

/// Whether a submission is accepted, given the size of the channel that
/// holds it and the number of users who reacted to it with a thumbs-up.
pub fn is_submission_accepted(member_count: usize, reactor_count: usize) -> (r: Result<
    bool,
    TallyError,
>)
    ensures
        r == tally_outcome(member_count as nat, reactor_count as nat),
{
    let needed = match needed_votes(member_count) {
        Ok(n) => n,
        Err(e) => { return Err(e); },
    };
    let votes = num_votes(reactor_count);
    Ok(votes >= needed as i128)
}

/// The required number of votes is the whole number nearest to half the
/// voters, and the upper one of the two where half the voters falls
/// between two whole numbers.
pub proof fn lemma_required_votes_rounds_half_up(eligible: nat)
    ensures
        eligible % 2 == 0 ==> 2 * required_votes(eligible) == eligible,
        eligible % 2 == 1 ==> 2 * required_votes(eligible) == eligible + 1,
        required_votes(eligible) <= eligible,
{
}

/// One more reactor is one more vote, and more reactors are never fewer
/// votes.
pub proof fn lemma_votes_monotonic(fewer: nat, more: nat)
    requires
        fewer <= more,
    ensures
        cast_votes(fewer) <= cast_votes(more),
        cast_votes(fewer + 1) == cast_votes(fewer) + 1,
{
}

/// With the required number held fixed, a submission that passes with some
/// number of votes passes with any larger number.
pub proof fn lemma_acceptance_monotonic(fewer: int, more: int, needed_votes: nat)
    requires
        fewer <= more,
        has_enough_votes(fewer, needed_votes),
    ensures
        has_enough_votes(more, needed_votes),
{
}

/// In a channel of fixed size, a message that is accepted with some reactors
/// stays accepted when more react.
pub proof fn lemma_tally_monotonic(member_count: nat, fewer: nat, more: nat)
    requires
        fewer <= more,
        tally_outcome(member_count, fewer) == Ok::<bool, TallyError>(true),
    ensures
        tally_outcome(member_count, more) == Ok::<bool, TallyError>(true),
{
}

/// A message that nobody has reacted to is not accepted, whatever the size
/// of its channel.
pub proof fn lemma_no_reactor_no_acceptance(member_count: nat)
    requires
        member_count >= 1,
    ensures
        tally_outcome(member_count, 0) == Ok::<bool, TallyError>(false),
{
}

} // verus!
