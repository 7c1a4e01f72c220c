//! The shared calendar: assignments keyed by the review message that stands
//! for each of them.

use crate::assignment::{assignment_post, Assignment, AssignmentView, Post};
use crate::date::{day_before, CalendarDay, Date};
use crate::tally::VoteStatus;
use std::collections::HashMap;
use vstd::prelude::*;
use vstd::std_specs::iter::IteratorSpec;

verus! {

broadcast use vstd::std_specs::hash::group_hash_axioms;

/// The channel that shows the accepted assignments.
pub const CALENDAR_CHANNEL_ID: u64 = 771595328029589544;

/// Whether an assignment was due before `today`.
pub open spec fn is_overdue(a: AssignmentView, today: CalendarDay) -> bool {
    day_before(a.due_date, today)
}

/// Whether a calendar holds an assignment that was due before `today`.
pub open spec fn has_overdue(m: Map<u64, AssignmentView>, today: CalendarDay) -> bool {
    exists|id: u64| m.contains_key(id) && is_overdue(#[trigger] m[id], today)
}

/// The calendar without the assignments that were due before `today`.
pub open spec fn without_overdue(m: Map<u64, AssignmentView>, today: CalendarDay) -> Map<
    u64,
    AssignmentView,
> {
    Map::new(|id: u64| m.contains_key(id) && !is_overdue(m[id], today), |id: u64| m[id])
}

/// An assignment once the voters have accepted it.
pub open spec fn accepted_version(a: AssignmentView) -> AssignmentView {
    AssignmentView { accepted: true, ..a }
}

/// The calendar after the entry under `id` was accepted; unchanged where
/// there is no such entry.
pub open spec fn with_accepted(m: Map<u64, AssignmentView>, id: u64) -> Map<u64, AssignmentView> {
    if m.contains_key(id) {
        m.insert(id, accepted_version(m[id]))
    } else {
        m
    }
}

/// Where a vote on the message `id` stands in a calendar.
pub open spec fn vote_status_of(m: Map<u64, AssignmentView>, id: u64) -> VoteStatus {
    if !m.contains_key(id) {
        VoteStatus::NotFound
    } else if m[id].accepted {
        VoteStatus::AlreadyAccepted
    } else {
        VoteStatus::Pending
    }
}

/// A message for the public calendar channel, with the identity of the review
/// message whose assignment it shows.
#[derive(Debug, PartialEq, Eq)]
pub struct CalendarPost {
    pub message_id: u64,
    pub post: Post,
}

/// Whether `posts` shows the accepted assignments of a calendar: one message
/// for each of them, none for any other, in whatever order.
pub open spec fn is_publication_of(posts: Seq<CalendarPost>, m: Map<u64, AssignmentView>) -> bool {
    &&& forall|i: int|
        0 <= i < posts.len() ==> {
            let id = (#[trigger] posts[i]).message_id;
            &&& m.contains_key(id)
            &&& m[id].accepted
            &&& posts[i].post@ == assignment_post(m[id])
        }
    &&& forall|i: int, j: int|
        0 <= i < j < posts.len() ==> (#[trigger] posts[i]).message_id != (
        #[trigger] posts[j]).message_id
    &&& forall|id: u64|
        m.contains_key(id) && (#[trigger] m[id]).accepted ==> exists|i: int|
            0 <= i < posts.len() && (#[trigger] posts[i]).message_id == id
}

/// The lines of a list of calendar messages, in their order.
pub open spec fn post_lines(posts: Seq<CalendarPost>) -> Seq<Seq<char>> {
    posts.map_values(|p: CalendarPost| p.post.content@)
}

/// The lines one after the other, each followed by a line break, but for the
/// line whose place is the last of `total` places.
pub open spec fn calendar_text(lines: Seq<Seq<char>>, total: nat) -> Seq<char>
    decreases lines.len(),
{
    if lines.len() == 0 {
        Seq::empty()
    } else {
        let text = calendar_text(lines.drop_last(), total) + lines.last();
        if lines.len() == total {
            text
        } else {
            text + "\n"@
        }
    }
}

/// All assignments, each under the identity of its review message.
#[derive(Debug, PartialEq, Eq)]
pub struct CalendarData {
    assignments: HashMap<u64, Assignment>,
}

impl View for CalendarData {
    type V = Map<u64, AssignmentView>;

    closed spec fn view(&self) -> Map<u64, AssignmentView> {
        Map::new(
            |id: u64| self.assignments@.contains_key(id),
            |id: u64| self.assignments@[id]@,
        )
    }
}

impl Default for CalendarData {
    /// A calendar without assignments.
    fn default() -> (r: CalendarData)
        ensures
            r@ == Map::<u64, AssignmentView>::empty(),
    {
        CalendarData::new()
    }
}

impl CalendarData {
    /// A calendar without assignments.
    pub fn new() -> (r: CalendarData)
        ensures
            r@ == Map::<u64, AssignmentView>::empty(),
    {
        let r = CalendarData { assignments: HashMap::new() };
        assert(r@ =~= Map::<u64, AssignmentView>::empty());
        r
    }

    /// The number of assignments.
    pub fn len(&self) -> (r: usize)
        ensures
            r == self@.len(),
            self@.dom().finite(),
    {
        assert(self@.dom() =~= self.assignments@.dom());
        self.assignments.len()
    }

    /// Whether an entry is kept under the message `id`.
    pub fn contains(&self, id: u64) -> (r: bool)
        ensures
            r == self@.contains_key(id),
    {
        self.assignments.contains_key(&id)
    }

    /// The entry kept under the message `id`.
    pub fn get(&self, id: u64) -> (r: Option<&Assignment>)
        ensures
            r is Some <==> self@.contains_key(id),
            r matches Some(a) ==> a@ == self@[id],
    {
        self.assignments.get(&id)
    }

    /// Keeps `assignment` under the review message `id`, in place of what
    /// was kept under it before.
    pub fn insert(&mut self, id: u64, assignment: Assignment)
        ensures
            final(self)@ == old(self)@.insert(id, assignment@),
    {
        self.assignments.insert(id, assignment);
        assert(self@ =~= old(self)@.insert(id, assignment@));
    }

    /// Where a vote on the message `id` stands.
    pub fn vote_status(&self, id: u64) -> (r: VoteStatus)
        ensures
            r == vote_status_of(self@, id),
    {
        match self.assignments.get(&id) {
            None => VoteStatus::NotFound,
            Some(a) => if a.accepted {
                VoteStatus::AlreadyAccepted
            } else {
                VoteStatus::Pending
            },
        }
    }

    /// Marks the entry under the message `id` as accepted. Says whether this
    /// changed the calendar: it does not where there is no such entry or
    /// where the entry was accepted before.
    pub fn accept(&mut self, id: u64) -> (changed: bool)
        ensures
            final(self)@ == with_accepted(old(self)@, id),
            changed == (vote_status_of(old(self)@, id) == VoteStatus::Pending),
            !changed ==> final(self)@ == old(self)@,
    {
        match self.assignments.remove(&id) {
            None => {
                assert(self@ =~= old(self)@);
                false
            },
            Some(a) => {
                let was_accepted = a.accepted;
                let updated = Assignment {
                    subject: a.subject,
                    due_date: a.due_date,
                    notifications: a.notifications,
                    accepted: true,
                };
                self.assignments.insert(id, updated);
                assert(self@ =~= with_accepted(old(self)@, id));
                if was_accepted {
                    assert(self@ =~= old(self)@);
                }
                !was_accepted
            },
        }
    }

    /// The identities of all review messages that have an entry, each once,
    /// in no particular order.
    pub fn message_ids(&self) -> (ids: Vec<u64>)
        ensures
            ids@.no_duplicates(),
            ids@.to_set() == self@.dom(),
    {
        let mut ids: Vec<u64> = Vec::new();
        for id in it: self.assignments.keys()
            invariant
                ids@.len() == it.index(),
                forall|j: int| 0 <= j < ids@.len() ==> ids@[j] == *it.seq()[j],
        {
            ids.push(*id);
        }
        proof {
            let keys = self.assignments.keys().remaining();
            assert(ids@ =~= keys.unref());
            assert(self@.dom() =~= self.assignments@.dom());
        }
        ids
    }

    /// Whether this calendar and `other` hold the same assignments under the
    /// same review messages.
    pub fn same_as(&self, other: &CalendarData) -> (r: bool)
        ensures
            r == (self@ == other@),
    {
        if self.len() != other.len() {
            return false;
        }
        let ids = self.message_ids();
        let mut i: usize = 0;
        while i < ids.len()
            invariant
                i <= ids.len(),
                ids@.to_set() == self@.dom(),
                forall|j: int|
                    0 <= j < i ==> other@.contains_key(#[trigger] ids@[j]) && other@[ids@[j]]
                        == self@[ids@[j]],
            decreases ids.len() - i,
        {
            let id = ids[i];
            assert(ids@.to_set().contains(id));
            match (self.get(id), other.get(id)) {
                (Some(mine), Some(theirs)) => {
                    if !mine.same_as(theirs) {
                        return false;
                    }
                },
                _ => {
                    return false;
                },
            }
            i += 1;
        }
        proof {
            assert forall|id: u64| self@.contains_key(id) implies other@.contains_key(id)
                && other@[id] == self@[id] by {
                assert(ids@.to_set().contains(id));
                let j = choose|j: int| 0 <= j < ids@.len() && ids@[j] == id;
                assert(other@.contains_key(ids@[j]));
            }
            assert(self@.dom().subset_of(other@.dom()));
            vstd::set_lib::lemma_subset_equality(self@.dom(), other@.dom());
            assert(self@ =~= other@);
        }
        true
    }

    /// Whether an assignment was due before `today`.
    pub fn is_outdated(&self, today: &Date) -> (r: bool)
        ensures
            r == has_overdue(self@, today@),
    {
        let ids = self.message_ids();
        let mut i: usize = 0;
        while i < ids.len()
            invariant
                i <= ids.len(),
                ids@.to_set() == self@.dom(),
                forall|j: int| 0 <= j < i ==> !is_overdue(#[trigger] self@[ids@[j]], today@),
            decreases ids.len() - i,
        {
            let id = ids[i];
            assert(ids@.to_set().contains(id));
            match self.assignments.get(&id) {
                Some(a) => {
                    if a.due_date.is_before(today) {
                        assert(self@.contains_key(id) && is_overdue(self@[id], today@));
                        return true;
                    }
                },
                None => {},
            }
            i += 1;
        }
        assert forall|id: u64| self@.contains_key(id) implies !is_overdue(
            #[trigger] self@[id],
            today@,
        ) by {
            assert(ids@.to_set().contains(id));
            let j = choose|j: int| 0 <= j < ids@.len() && ids@[j] == id;
            assert(!is_overdue(self@[ids@[j]], today@));
        }
        false
    }

    /// Removes every assignment that was due before `today` and keeps the
    /// others as they are.
    pub fn remove_outdated(&mut self, today: &Date)
        ensures
            final(self)@ == without_overdue(old(self)@, today@),
    {
        let ids = self.message_ids();
        let ghost before = self@;
        let mut i: usize = 0;
        while i < ids.len()
            invariant
                i <= ids.len(),
                ids@.no_duplicates(),
                ids@.to_set() == before.dom(),
                self@ =~= Map::new(
                    |id: u64|
                        before.contains_key(id) && !(is_overdue(before[id], today@)
                            && ids@.subrange(0, i as int).contains(id)),
                    |id: u64| before[id],
                ),
            decreases ids.len() - i,
        {
            let id = ids[i];
            let ghost current = self@;
            let overdue = match self.assignments.get(&id) {
                Some(a) => a.due_date.is_before(today),
                None => false,
            };
            if overdue {
                self.assignments.remove(&id);
            }
            proof {
                let done = ids@.subrange(0, i as int);
                let next = ids@.subrange(0, i as int + 1);
                assert(next =~= done.push(id));
                assert forall|k: u64| next.contains(k) <==> (done.contains(k) || k == id) by {
                    if done.contains(k) {
                        let j = choose|j: int| 0 <= j < done.len() && done[j] == k;
                        assert(next[j] == k);
                    }
                    if k == id {
                        assert(next[i as int] == k);
                    }
                }
                assert(ids@.to_set().contains(id));
                assert(!done.contains(id)) by {
                    if done.contains(id) {
                        let j = choose|j: int| 0 <= j < done.len() && done[j] == id;
                        assert(ids@[j] == ids@[i as int]);
                    }
                }
                assert(current.contains_key(id) && current[id] == before[id]);
                assert(overdue == is_overdue(before[id], today@));
                if overdue {
                    assert(self@ =~= current.remove(id));
                } else {
                    assert(self@ =~= current);
                }
            }
            i += 1;
        }
        proof {
            assert(ids@.subrange(0, ids@.len() as int) =~= ids@);
            assert forall|id: u64| before.contains_key(id) implies ids@.contains(id) by {
                assert(ids@.to_set().contains(id));
            }
            assert(self@ =~= without_overdue(before, today@));
        }
    }

    /// The messages that show the accepted assignments, one for each, in no
    /// particular order.
    pub fn accepted_posts(&self) -> (posts: Vec<CalendarPost>)
        ensures
            is_publication_of(posts@, self@),
    {
        let ids = self.message_ids();
        let mut posts: Vec<CalendarPost> = Vec::new();
        let ghost mut origin: Seq<int> = Seq::empty();
        let mut i: usize = 0;
        while i < ids.len()
            invariant
                i <= ids.len(),
                ids@.no_duplicates(),
                ids@.to_set() == self@.dom(),
                origin.len() == posts@.len(),
                forall|p: int|
                    0 <= p < posts@.len() ==> {
                        &&& 0 <= #[trigger] origin[p] < i
                        &&& posts@[p].message_id == ids@[origin[p]]
                        &&& self@[posts@[p].message_id].accepted
                        &&& posts@[p].post@ == assignment_post(self@[posts@[p].message_id])
                    },
                forall|p: int, q: int|
                    0 <= p < q < posts@.len() ==> #[trigger] origin[p] < #[trigger] origin[q],
                forall|j: int|
                    0 <= j < i && self@[#[trigger] ids@[j]].accepted ==> exists|p: int|
                        0 <= p < posts@.len() && (#[trigger] posts@[p]).message_id == ids@[j],
            decreases ids.len() - i,
        {
            let id = ids[i];
            assert(ids@.to_set().contains(id));
            let ghost earlier = posts@;
            match self.assignments.get(&id) {
                Some(a) => {
                    if a.accepted {
                        posts.push(CalendarPost { message_id: id, post: a.create_message() });
                        proof {
                            origin = origin.push(i as int);
                            let last = posts@.len() - 1;
                            assert(posts@[last].message_id == id);
                            assert forall|j: int|
                                0 <= j < i + 1 && self@[#[trigger] ids@[j]].accepted implies exists|
                                p: int,
                            |
                                0 <= p < posts@.len() && (#[trigger] posts@[p]).message_id
                                    == ids@[j] by {
                                if j < i {
                                    let p = choose|p: int|
                                        0 <= p < earlier.len() && (#[trigger] earlier[p]).message_id
                                            == ids@[j];
                                    assert(posts@[p].message_id == ids@[j]);
                                } else {
                                    assert(posts@[last].message_id == ids@[j]);
                                }
                            }
                        }
                    }
                },
                None => {},
            }
            i += 1;
        }
        proof {
            assert forall|p: int, q: int| 0 <= p < q < posts@.len() implies (
            #[trigger] posts@[p]).message_id != (#[trigger] posts@[q]).message_id by {
                assert(origin[p] < origin[q]);
            }
            assert forall|id: u64| self@.contains_key(id) && (#[trigger] self@[id]).accepted implies exists|
                p: int,
            |
                0 <= p < posts@.len() && (#[trigger] posts@[p]).message_id == id by {
                assert(ids@.to_set().contains(id));
                let j = choose|j: int| 0 <= j < ids@.len() && ids@[j] == id;
                assert(self@[ids@[j]].accepted);
            }
            assert forall|p: int| 0 <= p < posts@.len() implies {
                let id = (#[trigger] posts@[p]).message_id;
                &&& self@.contains_key(id)
                &&& self@[id].accepted
                &&& posts@[p].post@ == assignment_post(self@[id])
            } by {
                assert(0 <= origin[p] < ids@.len());
                assert(ids@.to_set().contains(ids@[origin[p]]));
            }
        }
        posts
    }
    /// The accepted assignments as one text, a line for each, in no
    /// particular order. The lines are parted by line breaks; where some
    /// assignment is not accepted, the last line ends in a line break too.
    pub fn to_text(&self) -> (r: String)
        ensures
            exists|posts: Seq<CalendarPost>|
                is_publication_of(posts, self@) && r@ == calendar_text(
                    #[trigger] post_lines(posts),
                    self@.len(),
                ),
    {
        let posts = self.accepted_posts();
        let total = self.len();
        let mut r = String::new();
        let mut i: usize = 0;
        assert(post_lines(posts@).subrange(0, 0) =~= Seq::<Seq<char>>::empty());
        while i < posts.len()
            invariant
                i <= posts.len(),
                total == self@.len(),
                r@ == calendar_text(post_lines(posts@).subrange(0, i as int), total as nat),
            decreases posts.len() - i,
        {
            proof {
                let next = post_lines(posts@).subrange(0, i as int + 1);
                assert(next.drop_last() =~= post_lines(posts@).subrange(0, i as int));
                assert(next.last() == posts@[i as int].post.content@);
            }
            r.append(posts[i].post.content.as_str());
            if i + 1 != total {
                r.append("\n");
            }
            i += 1;
        }
        assert(post_lines(posts@).subrange(0, posts@.len() as int) =~= post_lines(posts@));
        r
    }
}

} // verus!
