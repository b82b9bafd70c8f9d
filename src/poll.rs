use vstd::prelude::*;

use crate::clock::now_seconds;
use crate::tally::{same_text, texts, VoteCounts};

verus! {

/// The end of a voting window that opens at `start` and lasts `duration` seconds; a window that
/// would run past the largest time ends at the largest time.
pub open spec fn window_end(start: u64, duration: u64) -> u64 {
    if start + duration <= u64::MAX {
        (start + duration) as u64
    } else {
        u64::MAX
    }
}

/// One poll: its fixed question and options, its tally, who has voted, and its time window.
#[derive(Debug, Clone)]
pub struct Poll {
    pub poll_id: String,
    pub poll_title: String,
    pub poll_description: String,
    pub voting_options: Vec<String>,
    pub vote_counts: VoteCounts,
    pub participant_addresses: Vec<String>,
    pub poll_creator_address: String,
    pub poll_start_timestamp: u64,
    pub poll_end_timestamp: u64,
    pub poll_is_closed: bool,
}

impl Poll {
    /// The tally has exactly the declared options as labels, each participant appears once, and
    /// the votes add up to the number of participants.
    pub open spec fn wf(&self) -> bool {
        &&& self.voting_options@.len() >= 2
        &&& self.vote_counts.wf()
        &&& forall|k: Seq<char>| #[trigger]
            self.vote_counts@.contains_key(k) <==> self.offers(k)
        &&& texts(self.participant_addresses@).no_duplicates()
        &&& self.vote_counts.total() == self.participant_addresses@.len()
    }

    /// Whether `option` is one of the declared options.
    pub open spec fn offers(&self, option: Seq<char>) -> bool {
        texts(self.voting_options@).contains(option)
    }

    /// Whether `voter` has voted in this poll.
    pub open spec fn has_voted(&self, voter: Seq<char>) -> bool {
        texts(self.participant_addresses@).contains(voter)
    }

    /// Whether votes are taken at time `now`: the poll is open and `now` lies in its window.
    pub open spec fn active_at(&self, now: int) -> bool {
        !self.poll_is_closed && self.poll_start_timestamp <= now < self.poll_end_timestamp
    }

    /// This poll with its closed flag set.
    pub open spec fn as_closed(self) -> Poll {
        Poll { poll_is_closed: true, ..self }
    }

    /// `next` is this poll with one vote of `voter` for `option` added.
    pub open spec fn vote_recorded(&self, next: Poll, voter: String, option: Seq<char>) -> bool {
        &&& next.vote_counts.wf()
        &&& next.vote_counts@ == self.vote_counts@.insert(option, self.vote_counts@[option] + 1)
        &&& next.vote_counts.total() == self.vote_counts.total() + 1
        &&& next.participant_addresses@ == self.participant_addresses@.push(voter)
        &&& next.poll_id == self.poll_id
        &&& next.poll_title == self.poll_title
        &&& next.poll_description == self.poll_description
        &&& next.voting_options == self.voting_options
        &&& next.poll_creator_address == self.poll_creator_address
        &&& next.poll_start_timestamp == self.poll_start_timestamp
        &&& next.poll_end_timestamp == self.poll_end_timestamp
        &&& next.poll_is_closed == self.poll_is_closed
    }

    /// Whether votes are taken at time `now`.
    pub fn is_active_at(&self, now: u64) -> (r: bool)
        ensures
            r == self.active_at(now as int),
    {
        !self.poll_is_closed && self.poll_start_timestamp <= now && now < self.poll_end_timestamp
    }

    /// Whether votes are taken now, by the system clock.
    pub fn is_active(&self) -> (r: bool)
        ensures
            self.poll_is_closed ==> !r,
            exists|t: u64| r == self.active_at(t as int),
    {
        let now = now_seconds();
        self.is_active_at(now)
    }

    /// A copy of the current tally.
    pub fn get_results(&self) -> (r: VoteCounts)
        requires
            self.wf(),
        ensures
            r.wf(),
            r@ == self.vote_counts@,
            r.total() == self.vote_counts.total(),
    {
        self.vote_counts.snapshot()
    }

    /// The number of participants who have voted.
    pub fn total_votes(&self) -> (r: usize)
        ensures
            r == self.participant_addresses@.len(),
    {
        self.participant_addresses.len()
    }

    /// Marks the poll closed; closing a closed poll changes nothing.
    pub fn close(&mut self)
        ensures
            *final(self) == old(self).as_closed(),
    {
        self.poll_is_closed = true;
    }

    /// Whether `voter` has voted in this poll.
    pub fn has_participant(&self, voter: &String) -> (r: bool)
        ensures
            r == self.has_voted(voter@),
    {
        let mut i: usize = 0;
        while i < self.participant_addresses.len()
            invariant
                i <= self.participant_addresses@.len(),
                forall|j: int| 0 <= j < i ==> self.participant_addresses@[j]@ != voter@,
            decreases self.participant_addresses@.len() - i,
        {
            if same_text(&self.participant_addresses[i], voter) {
                assert(texts(self.participant_addresses@)[i as int] == voter@);
                return true;
            }
            i = i + 1;
        }
        assert forall|j: int| 0 <= j < texts(self.participant_addresses@).len() implies texts(
            self.participant_addresses@,
        )[j] != voter@ by {}
        false
    }

    /// Whether `option` is one of the declared options.
    pub fn has_option(&self, option: &String) -> (r: bool)
        ensures
            r == self.offers(option@),
    {
        let mut i: usize = 0;
        while i < self.voting_options.len()
            invariant
                i <= self.voting_options@.len(),
                forall|j: int| 0 <= j < i ==> self.voting_options@[j]@ != option@,
            decreases self.voting_options@.len() - i,
        {
            if same_text(&self.voting_options[i], option) {
                assert(texts(self.voting_options@)[i as int] == option@);
                return true;
            }
            i = i + 1;
        }
        assert forall|j: int| 0 <= j < texts(self.voting_options@).len() implies texts(
            self.voting_options@,
        )[j] != option@ by {}
        false
    }

    /// Records one vote of `voter` for `option`; the caller has checked that `voter` has not voted
    /// yet and that `option` is declared.
    pub fn record_vote(&mut self, voter: String, option: &String)
        requires
            old(self).wf(),
            !old(self).has_voted(voter@),
            old(self).offers(option@),
        ensures
            final(self).wf(),
            old(self).vote_recorded(*final(self), voter, option@),
    {
        let ghost before = texts(self.participant_addresses@);
        self.participant_addresses.push(voter);
        let n = self.participant_addresses.len();
        proof {
            assert(texts(self.participant_addresses@) =~= before.push(voter@));
            assert(forall|j: int| 0 <= j < before.len() ==> before[j] != voter@);
        }
        self.vote_counts.increment(option);
        proof {
            assert forall|k: Seq<char>| #[trigger]
                self.vote_counts@.contains_key(k) <==> self.offers(k) by {
                assert(old(self).vote_counts@.contains_key(k) <==> old(self).offers(k));
            }
        }
    }
}

} // verus!
