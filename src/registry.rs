use vstd::prelude::*;

use crate::clock::now_seconds;
use crate::error::VotingError;
use crate::ident::{lemma_numbered_poll_id_injective, numbered_poll_id, poll_id_for};
use crate::poll::{window_end, Poll};
use crate::tally::{same_text, texts, VoteCounts};

verus! {

/// The identifiers of a sequence of polls.
pub open spec fn ids_of(polls: Seq<Poll>) -> Seq<Seq<char>> {
    polls.map_values(|p: Poll| p.poll_id@)
}

/// Whether the expiry sweep at time `now` closes `p`: it is still open and its window has ended.
pub open spec fn expires_at(p: Poll, now: int) -> bool {
    !p.poll_is_closed && now >= p.poll_end_timestamp
}

/// `p` as the expiry sweep at time `now` leaves it.
pub open spec fn after_sweep(p: Poll, now: int) -> Poll {
    if expires_at(p, now) {
        p.as_closed()
    } else {
        p
    }
}

/// The identifiers of the polls among `polls` that the sweep at time `now` closes, in order.
pub open spec fn expired_ids(polls: Seq<Poll>, now: int) -> Seq<String>
    decreases polls.len(),
{
    if polls.len() == 0 {
        Seq::empty()
    } else if expires_at(polls.last(), now) {
        expired_ids(polls.drop_last(), now).push(polls.last().poll_id)
    } else {
        expired_ids(polls.drop_last(), now)
    }
}

/// The polls among `polls` that take votes at time `now`, in order.
pub open spec fn active_among(polls: Seq<Poll>, now: int) -> Seq<Poll>
    decreases polls.len(),
{
    if polls.len() == 0 {
        Seq::empty()
    } else if polls.last().active_at(now) {
        active_among(polls.drop_last(), now).push(polls.last())
    } else {
        active_among(polls.drop_last(), now)
    }
}

/// Whether `id` is the identifier of a poll numbered below `limit`.
pub open spec fn issued_before(id: Seq<char>, limit: nat) -> bool {
    exists|k: nat| 1 <= k < limit && id == numbered_poll_id(k)
}

/// The polls that a sequence of poll references points at.
pub open spec fn referenced(v: Seq<&Poll>) -> Seq<Poll> {
    v.map_values(|p: &Poll| *p)
}

/// A registry of polls with an administrator who may close any of them.
pub struct VotingContract {
    pub active_polls: Vec<Poll>,
    pub admin_address: String,
    /// The number that the next poll's identifier will carry.
    pub next_poll_number: u64,
}

impl VotingContract {
    /// Every poll is well formed, identifiers are distinct, and each carries a number that was
    /// handed out before.
    pub open spec fn wf(&self) -> bool {
        &&& forall|i: int| 0 <= i < self.active_polls@.len() ==> #[trigger] self.active_polls@[i].wf()
        &&& ids_of(self.active_polls@).no_duplicates()
        &&& self.next_poll_number >= 1
        &&& forall|i: int|
            0 <= i < self.active_polls@.len() ==> #[trigger] issued_before(
                self.active_polls@[i].poll_id@,
                self.next_poll_number as nat,
            )
    }

    /// Whether a poll has identifier `id`.
    pub open spec fn has_poll(&self, id: Seq<char>) -> bool {
        ids_of(self.active_polls@).contains(id)
    }

    /// Where the poll with identifier `id` stands.
    pub open spec fn poll_index(&self, id: Seq<char>) -> int {
        ids_of(self.active_polls@).index_of(id)
    }

    /// The poll with identifier `id`.
    pub open spec fn poll(&self, id: Seq<char>) -> Poll {
        self.active_polls@[self.poll_index(id)]
    }

    /// What a vote of `voter` for `option` in poll `id` at time `now` returns: the first check
    /// that fails decides.
    pub open spec fn vote_outcome(
        &self,
        id: Seq<char>,
        voter: Seq<char>,
        option: Seq<char>,
        now: int,
    ) -> Result<(), VotingError> {
        if !self.has_poll(id) {
            Err(VotingError::PollNotFound)
        } else if !self.poll(id).active_at(now) {
            Err(VotingError::PollClosed)
        } else if self.poll(id).has_voted(voter) {
            Err(VotingError::AlreadyVoted)
        } else if !self.poll(id).offers(option) {
            Err(VotingError::InvalidOption)
        } else {
            Ok(())
        }
    }

    /// `next` and `r` are the registry and result after a vote of `voter` for `option` in poll
    /// `id` at time `now`: a refused vote changes nothing, an accepted one changes that poll alone.
    pub open spec fn vote_result(
        &self,
        next: VotingContract,
        id: Seq<char>,
        voter: String,
        option: Seq<char>,
        now: int,
        r: Result<(), VotingError>,
    ) -> bool {
        &&& r == self.vote_outcome(id, voter@, option, now)
        &&& r is Err ==> next == *self
        &&& r is Ok ==> {
            let i = self.poll_index(id);
            &&& next.admin_address == self.admin_address
            &&& next.next_poll_number == self.next_poll_number
            &&& next.active_polls@ == self.active_polls@.update(i, next.active_polls@[i])
            &&& self.active_polls@[i].vote_recorded(next.active_polls@[i], voter, option)
        }
    }

    /// What closing poll `id` on behalf of `requester` returns.
    pub open spec fn close_outcome(&self, id: Seq<char>, requester: Seq<char>) -> Result<
        (),
        VotingError,
    > {
        if !self.has_poll(id) {
            Err(VotingError::PollNotFound)
        } else if requester != self.admin_address@ && requester != self.poll(
            id,
        ).poll_creator_address@ {
            Err(VotingError::NotAuthorized)
        } else {
            Ok(())
        }
    }

    /// `next` and `r` are the registry and result after closing poll `id` on behalf of
    /// `requester`: a refusal changes nothing, a success sets that poll's closed flag alone.
    pub open spec fn close_result(
        &self,
        next: VotingContract,
        id: Seq<char>,
        requester: Seq<char>,
        r: Result<(), VotingError>,
    ) -> bool {
        &&& r == self.close_outcome(id, requester)
        &&& r is Err ==> next == *self
        &&& r is Ok ==> {
            &&& next.admin_address == self.admin_address
            &&& next.next_poll_number == self.next_poll_number
            &&& next.active_polls@ == self.active_polls@.update(
                self.poll_index(id),
                self.poll(id).as_closed(),
            )
        }
    }

    /// `p` is a poll just created with these values: no votes yet, open, window from `now`.
    pub open spec fn new_poll_matches(
        p: Poll,
        id: String,
        creator: String,
        title: String,
        description: String,
        options: Seq<String>,
        duration: u64,
        now: u64,
    ) -> bool {
        &&& p.wf()
        &&& p.poll_id == id
        &&& p.poll_title == title
        &&& p.poll_description == description
        &&& p.voting_options@ == options
        &&& p.vote_counts@ == Map::new(|k: Seq<char>| texts(options).contains(k), |k: Seq<char>| 0nat)
        &&& p.participant_addresses@.len() == 0
        &&& p.poll_creator_address == creator
        &&& p.poll_start_timestamp == now
        &&& p.poll_end_timestamp == window_end(now, duration)
        &&& !p.poll_is_closed
    }

    /// `next` and `r` are the registry and result after creating a poll at time `now`: fewer than
    /// two options or a zero duration change nothing; otherwise a poll with a fresh identifier is
    /// added at the end.
    pub open spec fn create_result(
        &self,
        next: VotingContract,
        creator: String,
        title: String,
        description: String,
        options: Seq<String>,
        duration: u64,
        now: u64,
        r: Result<String, VotingError>,
    ) -> bool {
        if options.len() < 2 {
            r == Err::<String, VotingError>(VotingError::PollCreationFailed) && next == *self
        } else if duration == 0 {
            r == Err::<String, VotingError>(VotingError::InvalidTimeSettings) && next == *self
        } else {
            match r {
                Ok(id) => {
                    &&& id@ == numbered_poll_id(self.next_poll_number as nat)
                    &&& !self.has_poll(id@)
                    &&& next.admin_address == self.admin_address
                    &&& next.next_poll_number == self.next_poll_number + 1
                    &&& next.active_polls@.len() == self.active_polls@.len() + 1
                    &&& next.active_polls@.drop_last() == self.active_polls@
                    &&& Self::new_poll_matches(
                        next.active_polls@.last(),
                        id,
                        creator,
                        title,
                        description,
                        options,
                        duration,
                        now,
                    )
                },
                Err(_) => false,
            }
        }
    }

    /// A registry with no polls, administered by `admin_address`.
    pub fn new(admin_address: String) -> (r: VotingContract)
        ensures
            r.wf(),
            r.active_polls@.len() == 0,
            r.admin_address == admin_address,
            r.next_poll_number == 1,
    {
        VotingContract { active_polls: Vec::new(), admin_address, next_poll_number: 1 }
    }

    /// Where the poll with identifier `poll_id` stands, if there is one.
    fn find(&self, poll_id: &String) -> (r: Option<usize>)
        requires
            self.wf(),
        ensures
            match r {
                Some(i) => i == self.poll_index(poll_id@) && self.has_poll(poll_id@) && i
                    < self.active_polls@.len(),
                None => !self.has_poll(poll_id@),
            },
    {
        let ghost ids = ids_of(self.active_polls@);
        let mut i: usize = 0;
        while i < self.active_polls.len()
            invariant
                self.wf(),
                i <= self.active_polls@.len(),
                ids == ids_of(self.active_polls@),
                forall|j: int| 0 <= j < i ==> ids[j] != poll_id@,
            decreases self.active_polls@.len() - i,
        {
            if same_text(&self.active_polls[i].poll_id, poll_id) {
                proof {
                    assert(ids[i as int] == poll_id@);
                    assert(ids.contains(poll_id@));
                    assert(ids.index_of(poll_id@) == i) by {
                        let j = ids.index_of(poll_id@);
                        assert(ids[j] == ids[i as int]);
                    }
                }
                return Some(i);
            }
            i = i + 1;
        }
        None
    }

    /// `next` and `r` are the registry and the returned identifiers after the expiry sweep at time
    /// `now`: each open poll whose window has ended is closed, and its identifier returned.
    pub open spec fn sweep_result(&self, next: VotingContract, now: int, r: Seq<String>) -> bool {
        &&& next.admin_address == self.admin_address
        &&& next.next_poll_number == self.next_poll_number
        &&& next.active_polls@ == self.active_polls@.map_values(|p: Poll| after_sweep(p, now))
        &&& r == expired_ids(self.active_polls@, now)
    }

    /// Creates a poll whose window opens at `now` and returns its identifier.
    pub fn create_poll_at(
        &mut self,
        creator_address: String,
        poll_title: String,
        poll_description: String,
        poll_options: Vec<String>,
        poll_duration_seconds: u64,
        now: u64,
    ) -> (r: Result<String, VotingError>)
        requires
            old(self).wf(),
            old(self).next_poll_number < u64::MAX,
        ensures
            final(self).wf(),
            old(self).create_result(
                *final(self),
                creator_address,
                poll_title,
                poll_description,
                poll_options@,
                poll_duration_seconds,
                now,
                r,
            ),
    {
        if poll_options.len() < 2 {
            return Err(VotingError::PollCreationFailed);
        }
        if poll_duration_seconds == 0 {
            return Err(VotingError::InvalidTimeSettings);
        }
        let number = self.next_poll_number;
        let poll_id = poll_id_for(number);
        let end = if poll_duration_seconds <= u64::MAX - now {
            now + poll_duration_seconds
        } else {
            u64::MAX
        };
        let counts = VoteCounts::zeroed(&poll_options);
        let new_poll = Poll {
            poll_id: poll_id.clone(),
            poll_title,
            poll_description,
            voting_options: poll_options,
            vote_counts: counts,
            participant_addresses: Vec::new(),
            poll_creator_address: creator_address,
            poll_start_timestamp: now,
            poll_end_timestamp: end,
            poll_is_closed: false,
        };
        let ghost before = self.active_polls@;
        proof {
            assert(texts(new_poll.participant_addresses@) =~= Seq::<Seq<char>>::empty());
            assert forall|i: int| 0 <= i < before.len() implies ids_of(before)[i] != poll_id@ by {
                assert(issued_before(before[i].poll_id@, number as nat));
                let k = choose|k: nat| 1 <= k < number && before[i].poll_id@ == numbered_poll_id(k);
                if ids_of(before)[i] == poll_id@ {
                    lemma_numbered_poll_id_injective(k, number as nat);
                }
            }
        }
        self.active_polls.push(new_poll);
        self.next_poll_number = number + 1;
        proof {
            let polls = self.active_polls@;
            assert(ids_of(polls) =~= ids_of(before).push(poll_id@));
            assert(polls.drop_last() =~= before);
            assert forall|i: int| 0 <= i < polls.len() implies #[trigger] issued_before(
                polls[i].poll_id@,
                self.next_poll_number as nat,
            ) by {
                if i == before.len() {
                    assert(polls[i].poll_id@ == numbered_poll_id(number as nat));
                } else {
                    assert(polls[i] == before[i]);
                    assert(issued_before(before[i].poll_id@, number as nat));
                    let k = choose|k: nat|
                        1 <= k < number && before[i].poll_id@ == numbered_poll_id(k);
                    assert(1 <= k < self.next_poll_number);
                }
            }
            assert forall|i: int| 0 <= i < polls.len() implies #[trigger] polls[i].wf() by {
                if i < before.len() {
                    assert(polls[i] == before[i]);
                }
            }
            assert(!ids_of(before).contains(poll_id@));
        }
        Ok(poll_id)
    }

    /// Creates a poll whose window opens now, by the system clock, and returns its identifier.
    pub fn create_poll(
        &mut self,
        creator_address: String,
        poll_title: String,
        poll_description: String,
        poll_options: Vec<String>,
        poll_duration_seconds: u64,
    ) -> (r: Result<String, VotingError>)
        requires
            old(self).wf(),
            old(self).next_poll_number < u64::MAX,
        ensures
            final(self).wf(),
            exists|t: u64|
                old(self).create_result(
                    *final(self),
                    creator_address,
                    poll_title,
                    poll_description,
                    poll_options@,
                    poll_duration_seconds,
                    t,
                    r,
                ),
    {
        let now = now_seconds();
        self.create_poll_at(
            creator_address,
            poll_title,
            poll_description,
            poll_options,
            poll_duration_seconds,
            now,
        )
    }

    /// Casts the vote of `voter_address` for `selected_option` in poll `poll_id` at time `now`.
    pub fn vote_at(
        &mut self,
        poll_id: &str,
        voter_address: String,
        selected_option: &str,
        now: u64,
    ) -> (r: Result<(), VotingError>)
        requires
            old(self).wf(),
        ensures
            final(self).wf(),
            old(self).vote_result(
                *final(self),
                poll_id@,
                voter_address,
                selected_option@,
                now as int,
                r,
            ),
    {
        let id = owned(poll_id);
        let i = match self.find(&id) {
            Some(i) => i,
            None => {
                return Err(VotingError::PollNotFound);
            },
        };
        if !self.active_polls[i].is_active_at(now) {
            return Err(VotingError::PollClosed);
        }
        if self.active_polls[i].has_participant(&voter_address) {
            return Err(VotingError::AlreadyVoted);
        }
        let option = owned(selected_option);
        if !self.active_polls[i].has_option(&option) {
            return Err(VotingError::InvalidOption);
        }
        let ghost before = self.active_polls@;
        assert(before[i as int].wf());
        self.active_polls[i].record_vote(voter_address, &option);
        proof {
            let polls = self.active_polls@;
            assert(ids_of(polls) =~= ids_of(before));
            assert forall|j: int| 0 <= j < polls.len() implies #[trigger] polls[j].wf() by {
                if j != i {
                    assert(polls[j] == before[j]);
                }
            }
            assert forall|j: int| 0 <= j < polls.len() implies #[trigger] issued_before(
                polls[j].poll_id@,
                self.next_poll_number as nat,
            ) by {
                assert(polls[j].poll_id == before[j].poll_id);
            }
        }
        Ok(())
    }

    /// Casts the vote of `voter_address` for `selected_option` in poll `poll_id`, at the time the
    /// system clock shows.
    pub fn vote(&mut self, poll_id: &str, voter_address: String, selected_option: &str) -> (r:
        Result<(), VotingError>)
        requires
            old(self).wf(),
        ensures
            final(self).wf(),
            exists|t: u64|
                old(self).vote_result(
                    *final(self),
                    poll_id@,
                    voter_address,
                    selected_option@,
                    t as int,
                    r,
                ),
    {
        let now = now_seconds();
        self.vote_at(poll_id, voter_address, selected_option, now)
    }

    /// The poll with identifier `poll_id`.
    pub fn get_poll(&self, poll_id: &str) -> (r: Result<&Poll, VotingError>)
        requires
            self.wf(),
        ensures
            match r {
                Ok(p) => self.has_poll(poll_id@) && *p == self.poll(poll_id@),
                Err(e) => !self.has_poll(poll_id@) && e == VotingError::PollNotFound,
            },
    {
        let id = owned(poll_id);
        match self.find(&id) {
            Some(i) => Ok(&self.active_polls[i]),
            None => Err(VotingError::PollNotFound),
        }
    }

    /// A copy of the tally of poll `poll_id`.
    pub fn get_poll_results(&self, poll_id: &str) -> (r: Result<VoteCounts, VotingError>)
        requires
            self.wf(),
        ensures
            match r {
                Ok(c) => self.has_poll(poll_id@) && c.wf() && c@ == self.poll(poll_id@).vote_counts@,
                Err(e) => !self.has_poll(poll_id@) && e == VotingError::PollNotFound,
            },
    {
        let poll = self.get_poll(poll_id)?;
        proof {
            assert(self.active_polls@[self.poll_index(poll_id@)].wf());
        }
        Ok(poll.get_results())
    }

    /// Whether poll `poll_id` takes votes at time `now`.
    pub fn is_poll_active_at(&self, poll_id: &str, now: u64) -> (r: Result<bool, VotingError>)
        requires
            self.wf(),
        ensures
            match r {
                Ok(b) => self.has_poll(poll_id@) && b == self.poll(poll_id@).active_at(now as int),
                Err(e) => !self.has_poll(poll_id@) && e == VotingError::PollNotFound,
            },
    {
        let poll = self.get_poll(poll_id)?;
        Ok(poll.is_active_at(now))
    }

    /// Whether poll `poll_id` takes votes now, by the system clock.
    pub fn is_poll_active(&self, poll_id: &str) -> (r: Result<bool, VotingError>)
        requires
            self.wf(),
        ensures
            match r {
                Ok(b) => self.has_poll(poll_id@) && exists|t: u64|
                    b == self.poll(poll_id@).active_at(t as int),
                Err(e) => !self.has_poll(poll_id@) && e == VotingError::PollNotFound,
            },
    {
        let now = now_seconds();
        self.is_poll_active_at(poll_id, now)
    }

    /// Every poll, open or closed, in the order of creation.
    pub fn get_all_polls(&self) -> (r: Vec<&Poll>)
        ensures
            referenced(r@) == self.active_polls@,
    {
        let mut r: Vec<&Poll> = Vec::new();
        let mut i: usize = 0;
        while i < self.active_polls.len()
            invariant
                i <= self.active_polls@.len(),
                referenced(r@) == self.active_polls@.take(i as int),
            decreases self.active_polls@.len() - i,
        {
            let ghost shown = r@;
            let p = &self.active_polls[i];
            r.push(p);
            proof {
                assert(r@ == shown.push(p));
                assert(referenced(r@) =~= referenced(shown).push(*p));
                assert(self.active_polls@.take(i as int + 1) =~= self.active_polls@.take(
                    i as int,
                ).push(self.active_polls@[i as int]));
            }
            i = i + 1;
        }
        proof {
            assert(self.active_polls@.take(i as int) =~= self.active_polls@);
        }
        r
    }

    /// The polls that take votes at time `now`, in the order of creation.
    pub fn get_active_polls_at(&self, now: u64) -> (r: Vec<&Poll>)
        ensures
            referenced(r@) == active_among(self.active_polls@, now as int),
    {
        let mut r: Vec<&Poll> = Vec::new();
        let mut i: usize = 0;
        while i < self.active_polls.len()
            invariant
                i <= self.active_polls@.len(),
                referenced(r@) == active_among(self.active_polls@.take(i as int), now as int),
            decreases self.active_polls@.len() - i,
        {
            let ghost seen = self.active_polls@.take(i as int + 1);
            proof {
                assert(seen.drop_last() =~= self.active_polls@.take(i as int));
            }
            if self.active_polls[i].is_active_at(now) {
                r.push(&self.active_polls[i]);
                proof {
                    assert(referenced(r@) =~= active_among(seen, now as int));
                }
            }
            i = i + 1;
        }
        proof {
            assert(self.active_polls@.take(i as int) =~= self.active_polls@);
        }
        r
    }

    /// The polls that take votes now, by the system clock, in the order of creation.
    pub fn get_active_polls(&self) -> (r: Vec<&Poll>)
        ensures
            exists|t: u64| referenced(r@) == active_among(self.active_polls@, t as int),
    {
        let now = now_seconds();
        self.get_active_polls_at(now)
    }

    /// Closes poll `poll_id` on behalf of `wallet_address`, who must be the administrator or the
    /// poll's creator.
    pub fn close_poll(&mut self, poll_id: &str, wallet_address: &str) -> (r: Result<(), VotingError>)
        requires
            old(self).wf(),
        ensures
            final(self).wf(),
            old(self).close_result(*final(self), poll_id@, wallet_address@, r),
    {
        let id = owned(poll_id);
        let i = match self.find(&id) {
            Some(i) => i,
            None => {
                return Err(VotingError::PollNotFound);
            },
        };
        let requester = owned(wallet_address);
        if !same_text(&requester, &self.admin_address) && !same_text(
            &requester,
            &self.active_polls[i].poll_creator_address,
        ) {
            return Err(VotingError::NotAuthorized);
        }
        let ghost before = self.active_polls@;
        self.active_polls[i].close();
        proof {
            let polls = self.active_polls@;
            assert(ids_of(polls) =~= ids_of(before));
            assert forall|j: int| 0 <= j < polls.len() implies #[trigger] polls[j].wf() by {
                assert(before[j].wf());
            }
            assert forall|j: int| 0 <= j < polls.len() implies #[trigger] issued_before(
                polls[j].poll_id@,
                self.next_poll_number as nat,
            ) by {
                assert(polls[j].poll_id == before[j].poll_id);
            }
        }
        Ok(())
    }

    /// Closes every open poll whose window has ended by time `now` and returns their identifiers,
    /// in the order of creation.
    pub fn process_expired_polls_at(&mut self, now: u64) -> (r: Vec<String>)
        requires
            old(self).wf(),
        ensures
            final(self).wf(),
            old(self).sweep_result(*final(self), now as int, r@),
    {
        let ghost before = self.active_polls@;
        let ghost admin = self.admin_address;
        let ghost number = self.next_poll_number;
        let mut closed: Vec<String> = Vec::new();
        let mut i: usize = 0;
        while i < self.active_polls.len()
            invariant
                self.active_polls@.len() == before.len(),
                i <= before.len(),
                self.admin_address == admin,
                self.next_poll_number == number,
                forall|j: int|
                    0 <= j < i ==> self.active_polls@[j] == after_sweep(before[j], now as int),
                forall|j: int| i <= j < before.len() ==> self.active_polls@[j] == before[j],
                closed@ == expired_ids(before.take(i as int), now as int),
            decreases before.len() - i,
        {
            proof {
                assert(before.take(i as int + 1).drop_last() =~= before.take(i as int));
            }
            if !self.active_polls[i].poll_is_closed && now >= self.active_polls[i].poll_end_timestamp {
                self.active_polls[i].close();
                closed.push(self.active_polls[i].poll_id.clone());
            }
            i = i + 1;
        }
        proof {
            let polls = self.active_polls@;
            assert(before.take(before.len() as int) =~= before);
            assert(polls =~= before.map_values(|p: Poll| after_sweep(p, now as int)));
            assert(ids_of(polls) =~= ids_of(before));
            assert forall|j: int| 0 <= j < polls.len() implies #[trigger] polls[j].wf() by {
                assert(before[j].wf());
            }
            assert forall|j: int| 0 <= j < polls.len() implies #[trigger] issued_before(
                polls[j].poll_id@,
                self.next_poll_number as nat,
            ) by {
                assert(polls[j] == after_sweep(before[j], now as int));
                assert(issued_before(before[j].poll_id@, number as nat));
                let k = choose|k: nat| 1 <= k < number && before[j].poll_id@ == numbered_poll_id(k);
                assert(polls[j].poll_id@ == numbered_poll_id(k));
            }
        }
        closed
    }

    /// Closes every open poll whose window has ended by the time the system clock shows, and
    /// returns their identifiers, in the order of creation.
    pub fn process_expired_polls(&mut self) -> (r: Vec<String>)
        requires
            old(self).wf(),
        ensures
            final(self).wf(),
            exists|t: u64| old(self).sweep_result(*final(self), t as int, r@),
    {
        let now = now_seconds();
        self.process_expired_polls_at(now)
    }
}

/// The text of a string slice as an owned string.
fn owned(s: &str) -> (r: String)
    ensures
        r@ == s@,
{
    let r = s.to_string();
    proof {
        vstd::string::to_string_from_display_ensures_for_str(s, r);
    }
    r
}

} // verus!
