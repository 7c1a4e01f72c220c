//! Flash-card decks: sent to the bot in private, put up for review, and
//! published once the voters have accepted them.

use crate::tally::{is_submission_accepted, tally_outcome, TallyError, VoteStatus};
use crate::text::{decimal_digits, ends_with, has_suffix, same_text};
use serenity::model::id::UserId;
use serenity::model::misc::Mentionable;
use vstd::prelude::*;

verus! {

/// The channel in which decks are put up for the vote.
pub const FOR_REVIEW_CHANNEL_ID: u64 = 793720525250756639;

/// The channel in which accepted decks are published.
pub const FLASH_CARDS_CHANNEL_ID: u64 = 771593804057673767;

/// A deck of flash cards: the bytes of the file and its name.
#[derive(Debug, PartialEq, Eq)]
pub struct Deck {
    pub data: Vec<u8>,
    pub filename: String,
}

/// What a [`Deck`] holds.
pub struct DeckView {
    pub data: Seq<u8>,
    pub filename: Seq<char>,
}

impl View for Deck {
    type V = DeckView;

    open spec fn view(&self) -> DeckView {
        DeckView { data: self.data@, filename: self.filename@ }
    }
}

impl Clone for Deck {
    fn clone(&self) -> (r: Self)
        ensures
            r@ == self@,
    {
        Deck { data: self.data.clone(), filename: self.filename.clone() }
    }
}

/// A deck under review: the deck, the review message that shows it, the user
/// who sent it, and whether it has been accepted.
#[derive(Debug, PartialEq, Eq)]
pub struct Submission {
    pub deck: Deck,
    pub message_id: u64,
    pub author: u64,
    pub accepted: bool,
}

/// What a [`Submission`] holds.
pub struct SubmissionView {
    pub deck: DeckView,
    pub message_id: u64,
    pub author: u64,
    pub accepted: bool,
}

impl View for Submission {
    type V = SubmissionView;

    open spec fn view(&self) -> SubmissionView {
        SubmissionView {
            deck: self.deck@,
            message_id: self.message_id,
            author: self.author,
            accepted: self.accepted,
        }
    }
}

/// What the bot needs to know of a message that it received.
#[derive(Debug, PartialEq, Eq)]
pub struct InboundMessage {
    /// Whether a bot wrote the message.
    pub author_is_bot: bool,
    /// Whether the message was sent in a guild rather than in private.
    pub in_guild: bool,
    /// The names of the attached files, in the order they were attached.
    pub attachments: Vec<String>,
}

/// The name that a deck's file must end in.
pub open spec fn deck_extension() -> Seq<char> {
    ".apkg"@
}

/// Whether a message hands in a deck: a private message of a user with
/// exactly one file, whose name ends in the deck extension.
pub open spec fn is_deck_submission(msg: InboundMessage) -> bool {
    &&& !msg.author_is_bot
    &&& !msg.in_guild
    &&& msg.attachments@.len() == 1
    &&& has_suffix(msg.attachments@[0]@, deck_extension())
}

/// Whether the bot takes a received message as a deck handed in for review.
/// Every other message is passed over in silence.
pub fn handle_message(msg: &InboundMessage) -> (review: bool)
    ensures
        review == is_deck_submission(*msg),
{
    if msg.author_is_bot {
        return false;
    }
    if msg.in_guild {
        return false;
    }
    if msg.attachments.len() != 1 {
        return false;
    }
    ends_with(msg.attachments[0].as_str(), ".apkg")
}

/// The submission that a deck becomes once its review message is posted.
pub open spec fn pending_submission(deck: DeckView, message_id: u64, author: u64) -> SubmissionView {
    SubmissionView { deck, message_id, author, accepted: false }
}

/// What a list of submissions holds, one by one.
pub open spec fn submission_views(list: Seq<Submission>) -> Seq<SubmissionView> {
    list.map_values(|s: Submission| s@)
}

/// The place of the submission that was added last among those shown by the
/// review message `id`, if there is any.
pub open spec fn latest_match(list: Seq<SubmissionView>, id: u64) -> Option<int>
    decreases list.len(),
{
    if list.len() == 0 {
        None
    } else if list.last().message_id == id {
        Some(list.len() - 1)
    } else {
        latest_match(list.drop_last(), id)
    }
}

/// Where a vote on the review message `id` stands among the submissions.
pub open spec fn submission_status(list: Seq<SubmissionView>, id: u64) -> VoteStatus {
    match latest_match(list, id) {
        None => VoteStatus::NotFound,
        Some(i) => if list[i].accepted {
            VoteStatus::AlreadyAccepted
        } else {
            VoteStatus::Pending
        },
    }
}

/// The list with its last submission accepted; the empty list stays empty.
pub open spec fn with_last_accepted(list: Seq<SubmissionView>) -> Seq<SubmissionView> {
    if list.len() == 0 {
        list
    } else {
        list.update(list.len() - 1, SubmissionView { accepted: true, ..list.last() })
    }
}

/// How a user is mentioned in a message.
pub open spec fn mention_of(user: u64) -> Seq<char> {
    "<@"@ + decimal_digits(user as nat) + ">"@
}

/// The line that goes with a published deck and credits its author.
pub open spec fn caption_for(author: u64) -> Seq<char> {
    "Submitted by "@ + mention_of(author)
}

/// A deck to publish, with the line that goes with it.
#[derive(Debug, PartialEq, Eq)]
pub struct DeckPost {
    pub content: String,
    pub deck: Deck,
}

/// A role of the guild: its identity and its name.
#[derive(Debug, PartialEq, Eq)]
pub struct Role {
    pub id: u64,
    pub name: String,
}

/// The name of the role that authors of accepted decks are given.
pub open spec fn contributor_role_name() -> Seq<char> {
    "contributor"@
}

/// A role to give to a user.
#[derive(Clone, Copy, Debug, PartialEq, Eq, Structural)]
pub struct RoleGrant {
    pub user: u64,
    pub role: u64,
}

/// Why no role could be given.
#[derive(Clone, Copy, Debug, PartialEq, Eq, Structural)]
pub enum RoleError {
    /// There is no submission whose author could be given a role.
    NoSubmission,
    /// The guild has no role of the wanted name.
    RoleNotFound,
}

/// The place of the first role of the wanted name, if there is any.
pub open spec fn first_contributor_role(roles: Seq<Role>) -> Option<int>
    decreases roles.len(),
{
    if roles.len() == 0 {
        None
    } else if roles[0].name@ == contributor_role_name() {
        Some(0)
    } else {
        match first_contributor_role(roles.drop_first()) {
            Some(i) => Some(i + 1),
            None => None,
        }
    }
}

/// The role to give once the last submission is accepted.
pub open spec fn contributor_grant(list: Seq<SubmissionView>, roles: Seq<Role>) -> Result<
    RoleGrant,
    RoleError,
> {
    if list.len() == 0 {
        Err(RoleError::NoSubmission)
    } else {
        match first_contributor_role(roles) {
            Some(i) => Ok(RoleGrant { user: list.last().author, role: roles[i].id }),
            None => Err(RoleError::RoleNotFound),
        }
    }
}

/// Writes the mention of a user with serenity's `Mentionable::mention`.
///
/// Trusted, not proved: serenity writes a user's mention as `<@`, the user's
/// identity in base ten, and `>`.
#[verifier::external_body]
fn user_mention(user: u64) -> (r: String)
    ensures
        r@ == mention_of(user),
{
    UserId(user).mention().to_string()
}

/// What is to be done once a deck has been accepted: the message that
/// publishes it, then the role to give to its author.
#[derive(Debug, PartialEq, Eq)]
pub struct Acceptance {
    /// The message for the channel of published decks.
    pub post: DeckPost,
    /// The role to give after the message is sent, or why none can be given.
    pub grant: Result<RoleGrant, RoleError>,
}

/// The decks handed in so far, oldest first.
#[derive(Debug, PartialEq, Eq)]
pub struct FlashCards {
    pub submissions: Vec<Submission>,
}

impl View for FlashCards {
    type V = Seq<SubmissionView>;

    open spec fn view(&self) -> Seq<SubmissionView> {
        submission_views(self.submissions@)
    }
}

/// What a vote on a deck leads to, given what the platform reports of the
/// review message: nothing unless the deck waits for votes and now has enough.
pub open spec fn flash_card_vote_passes(
    list: Seq<SubmissionView>,
    id: u64,
    member_count: nat,
    reactor_count: nat,
) -> Result<bool, TallyError> {
    if submission_status(list, id) != VoteStatus::Pending {
        Ok(false)
    } else {
        tally_outcome(member_count, reactor_count)
    }
}

impl Default for FlashCards {
    /// No submissions.
    fn default() -> (r: FlashCards)
        ensures
            r@ == Seq::<SubmissionView>::empty(),
    {
        FlashCards::new()
    }
}

impl FlashCards {
    /// No submissions.
    pub fn new() -> (r: FlashCards)
        ensures
            r@ == Seq::<SubmissionView>::empty(),
    {
        let r = FlashCards { submissions: Vec::new() };
        assert(r@ =~= Seq::<SubmissionView>::empty());
        r
    }

    /// The number of submissions.
    pub fn len(&self) -> (r: usize)
        ensures
            r == self@.len(),
    {
        self.submissions.len()
    }

    /// Adds a deck whose review message `message_id` was just posted. It waits
    /// for votes.
    pub fn add_submission(&mut self, deck: Deck, message_id: u64, author: u64)
        ensures
            final(self)@ == old(self)@.push(pending_submission(deck@, message_id, author)),
    {
        self.submissions.push(Submission { deck, message_id, author, accepted: false });
        assert(self@ =~= old(self)@.push(pending_submission(deck@, message_id, author)));
    }

    /// Where a vote on the review message `id` stands: whether the message
    /// shows a submission at all, and whether the one added last among those
    /// it shows was accepted before.
    pub fn vote_status(&self, id: u64) -> (r: VoteStatus)
        ensures
            r == submission_status(self@, id),
    {
        let mut i: usize = self.submissions.len();
        assert(self@.subrange(0, i as int) =~= self@);
        while i > 0
            invariant
                i <= self.submissions.len(),
                latest_match(self@, id) == latest_match(self@.subrange(0, i as int), id),
            decreases i,
        {
            let ghost prefix = self@.subrange(0, i as int);
            assert(prefix.last() == self@[i - 1]);
            assert(prefix.drop_last() =~= self@.subrange(0, i - 1));
            i -= 1;
            if self.submissions[i].message_id == id {
                return if self.submissions[i].accepted {
                    VoteStatus::AlreadyAccepted
                } else {
                    VoteStatus::Pending
                };
            }
        }
        assert(self@.subrange(0, 0).len() == 0);
        VoteStatus::NotFound
    }

    /// The message that publishes the deck of the last submission and credits
    /// its author; nothing where there is no submission.
    pub fn send_submission_to_flash_cards(&self) -> (r: Option<DeckPost>)
        ensures
            r is Some <==> self@.len() > 0,
            r matches Some(post) ==> post.deck@ == self@.last().deck && post.content@
                == caption_for(self@.last().author),
    {
        let n = self.submissions.len();
        if n == 0 {
            return None;
        }
        let last = &self.submissions[n - 1];
        let mut content = String::from_str("Submitted by ");
        let mention = user_mention(last.author);
        content.append(mention.as_str());
        Some(DeckPost { content, deck: last.deck.clone() })
    }

    /// The role to give to the author of the last submission: the first of
    /// `roles` that has the contributor's name.
    pub fn add_contributor_role(&self, roles: &Vec<Role>) -> (r: Result<RoleGrant, RoleError>)
        ensures
            r == contributor_grant(self@, roles@),
    {
        let n = self.submissions.len();
        if n == 0 {
            return Err(RoleError::NoSubmission);
        }
        let user = self.submissions[n - 1].author;
        let mut i: usize = 0;
        assert(roles@.subrange(0, roles@.len() as int) =~= roles@);
        while i < roles.len()
            invariant
                i <= roles.len(),
                self@.len() > 0,
                user == self@.last().author,
                first_contributor_role(roles@) == match first_contributor_role(
                    roles@.subrange(i as int, roles@.len() as int),
                ) {
                    Some(k) => Some(k + i),
                    None => None,
                },
            decreases roles.len() - i,
        {
            let ghost rest = roles@.subrange(i as int, roles@.len() as int);
            assert(rest[0] == roles@[i as int]);
            assert(rest.drop_first() =~= roles@.subrange(i + 1, roles@.len() as int));
            if same_text(roles[i].name.as_str(), "contributor") {
                assert(first_contributor_role(rest) == Some(0int));
                assert(first_contributor_role(roles@) == Some(i as int));
                return Ok(RoleGrant { user, role: roles[i].id });
            }
            i += 1;
        }
        assert(roles@.subrange(roles@.len() as int, roles@.len() as int).len() == 0);
        Err(RoleError::RoleNotFound)
    }

    /// Marks the last submission as accepted. An empty list stays empty.
    pub fn mark_last_submission_as_accepted(&mut self)
        ensures
            final(self)@ == with_last_accepted(old(self)@),
    {
        match self.submissions.pop() {
            None => {
                assert(self@ =~= old(self)@);
            },
            Some(last) => {
                self.submissions.push(
                    Submission {
                        deck: last.deck,
                        message_id: last.message_id,
                        author: last.author,
                        accepted: true,
                    },
                );
                assert(self@ =~= with_last_accepted(old(self)@));
            },
        }
    }

    /// Handles a thumbs-up on the review message `id`, given the number of
    /// members of its channel, the number of users who gave it a thumbs-up,
    /// and the roles of the guild.
    ///
    /// Nothing is to be done unless the message shows a submission that waits
    /// for votes and now has enough of them. Then the deck of the last
    /// submission is to be published and its author given the contributor's
    /// role; once both are done, the caller marks the last submission as
    /// accepted.
    pub fn handle_flash_card_vote(
        &self,
        id: u64,
        member_count: usize,
        reactor_count: usize,
        roles: &Vec<Role>,
    ) -> (r: Result<Option<Acceptance>, TallyError>)
        ensures
            match flash_card_vote_passes(self@, id, member_count as nat, reactor_count as nat) {
                Err(e) => r matches Err(found) && found == e,
                Ok(false) => r matches Ok(None),
                Ok(true) => r matches Ok(Some(todo)) && todo.post.deck@ == self@.last().deck
                    && todo.post.content@ == caption_for(self@.last().author) && todo.grant
                    == contributor_grant(self@, roles@),
            },
    {
        match self.vote_status(id) {
            VoteStatus::Pending => {},
            _ => { return Ok(None); },
        }
        let accepted = match is_submission_accepted(member_count, reactor_count) {
            Ok(a) => a,
            Err(e) => { return Err(e); },
        };
        if !accepted {
            return Ok(None);
        }
        proof {
            lemma_match_is_in_list(self@, id);
        }
        match self.send_submission_to_flash_cards() {
            Some(post) => Ok(Some(Acceptance { post, grant: self.add_contributor_role(roles) })),
            None => Ok(None),
        }
    }
}

/// The latest match is a place in the list, the submission there is shown by
/// the message, and no later submission is.
pub proof fn lemma_match_is_in_list(list: Seq<SubmissionView>, id: u64)
    ensures
        match latest_match(list, id) {
            Some(i) => {
                &&& 0 <= i < list.len()
                &&& list[i].message_id == id
                &&& forall|j: int| i < j < list.len() ==> (#[trigger] list[j]).message_id != id
            },
            None => forall|j: int| 0 <= j < list.len() ==> (#[trigger] list[j]).message_id != id,
        },
    decreases list.len(),
{
    if list.len() > 0 && list.last().message_id != id {
        lemma_match_is_in_list(list.drop_last(), id);
        assert forall|j: int| 0 <= j < list.len() - 1 implies list.drop_last()[j] == list[j] by {}
    }
}

/// A vote on a submission that was accepted before asks for nothing: no
/// second publication and no second role, whatever the tally would say.
pub proof fn lemma_accepted_submission_vote_is_idle(
    list: Seq<SubmissionView>,
    id: u64,
    member_count: nat,
    reactor_count: nat,
)
    requires
        submission_status(list, id) == VoteStatus::AlreadyAccepted,
    ensures
        flash_card_vote_passes(list, id, member_count, reactor_count) == Ok::<bool, TallyError>(
            false,
        ),
{
}

/// Once the last submission is marked as accepted, every later vote on its
/// review message is idle, and marking it again changes nothing.
pub proof fn lemma_last_submission_accepted_once(
    list: Seq<SubmissionView>,
    id: u64,
    member_count: nat,
    reactor_count: nat,
)
    requires
        list.len() > 0,
        list.last().message_id == id,
    ensures
        submission_status(with_last_accepted(list), id) == VoteStatus::AlreadyAccepted,
        flash_card_vote_passes(with_last_accepted(list), id, member_count, reactor_count) == Ok::<
            bool,
            TallyError,
        >(false),
        with_last_accepted(with_last_accepted(list)) == with_last_accepted(list),
{
    assert(with_last_accepted(with_last_accepted(list)) =~= with_last_accepted(list));
}

/// The first role of the contributor's name is a place among the roles, the
/// role there has that name, and no earlier role has it.
pub proof fn lemma_first_contributor_role(roles: Seq<Role>)
    ensures
        match first_contributor_role(roles) {
            Some(i) => {
                &&& 0 <= i < roles.len()
                &&& roles[i].name@ == contributor_role_name()
                &&& forall|j: int|
                    0 <= j < i ==> (#[trigger] roles[j]).name@ != contributor_role_name()
            },
            None => forall|j: int|
                0 <= j < roles.len() ==> (#[trigger] roles[j]).name@ != contributor_role_name(),
        },
    decreases roles.len(),
{
    if roles.len() > 0 && roles[0].name@ != contributor_role_name() {
        let rest = roles.drop_first();
        lemma_first_contributor_role(rest);
        assert forall|j: int| 1 <= j < roles.len() implies roles[j] == rest[j - 1] by {}
        match first_contributor_role(rest) {
            Some(i) => {
                assert forall|j: int| 0 <= j < i + 1 implies (#[trigger] roles[j]).name@
                    != contributor_role_name() by {
                    if j >= 1 {
                        assert(roles[j] == rest[j - 1]);
                    }
                }
            },
            None => {
                assert forall|j: int| 0 <= j < roles.len() implies (#[trigger] roles[j]).name@
                    != contributor_role_name() by {
                    if j >= 1 {
                        assert(roles[j] == rest[j - 1]);
                    }
                }
            },
        }
    }
}

} // verus!
