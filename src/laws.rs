use vstd::prelude::*;

use crate::error::VotingError;
use crate::poll::{window_end, Poll};
use crate::registry::{after_sweep, expired_ids, expires_at, ids_of, VotingContract};
use crate::tally::texts;

verus! {

/// After a successful vote the polls keep their identifiers, so each is found where it was.
proof fn lemma_vote_keeps_ids(
    before: VotingContract,
    after: VotingContract,
    id: Seq<char>,
    voter: String,
    option: Seq<char>,
    now: int,
)
    requires
        before.wf(),
        before.vote_result(after, id, voter, option, now, Ok(())),
    ensures
        ids_of(after.active_polls@) == ids_of(before.active_polls@),
        after.has_poll(id),
        after.poll_index(id) == before.poll_index(id),
{
    assert(ids_of(after.active_polls@) =~= ids_of(before.active_polls@));
}

/// In every poll of a well-formed registry the votes add up to the number of participants.
pub open spec fn tallies_balanced(s: VotingContract) -> bool {
    forall|i: int|
        0 <= i < s.active_polls@.len() ==> #[trigger] s.active_polls@[i].vote_counts.total()
            == s.active_polls@[i].participant_addresses@.len()
}

/// A successful vote keeps, in every poll, the votes adding up to the number of participants:
/// it holds before the vote and after it.
pub proof fn lemma_vote_keeps_tallies_balanced(
    before: VotingContract,
    after: VotingContract,
    id: Seq<char>,
    voter: String,
    option: Seq<char>,
    now: int,
)
    requires
        before.wf(),
        before.vote_result(after, id, voter, option, now, Ok(())),
    ensures
        tallies_balanced(before),
        tallies_balanced(after),
{
    assert forall|j: int| 0 <= j < before.active_polls@.len() implies #[trigger]
        before.active_polls@[j].vote_counts.total()
            == before.active_polls@[j].participant_addresses@.len() by {
        assert(before.active_polls@[j].wf());
    }
    assert forall|j: int| 0 <= j < after.active_polls@.len() implies #[trigger]
        after.active_polls@[j].vote_counts.total()
            == after.active_polls@[j].participant_addresses@.len() by {
        assert(before.active_polls@[j].wf());
    }
}

/// A participant who has voted in a poll is refused as a repeat voter on any further vote in it
/// while the poll takes votes, whatever the option, and the refusal changes nothing.
pub proof fn lemma_second_vote_refused(
    s0: VotingContract,
    s1: VotingContract,
    s2: VotingContract,
    id: Seq<char>,
    voter: String,
    again: String,
    first: Seq<char>,
    second: Seq<char>,
    t1: int,
    t2: int,
    r: Result<(), VotingError>,
)
    requires
        s0.wf(),
        s0.vote_result(s1, id, voter, first, t1, Ok(())),
        again@ == voter@,
        s1.poll(id).active_at(t2),
        s1.vote_result(s2, id, again, second, t2, r),
    ensures
        r == Err::<(), VotingError>(VotingError::AlreadyVoted),
        s2 == s1,
{
    lemma_vote_keeps_ids(s0, s1, id, voter, first, t1);
    let p = s1.poll(id);
    let n = p.participant_addresses@.len() - 1;
    assert(p.participant_addresses@[n] == voter);
    assert(texts(p.participant_addresses@)[n] == voter@);
}

/// A vote for an option that the poll does not declare, in a poll that takes votes and by a
/// participant who has not voted, is refused as an invalid option and changes nothing.
pub proof fn lemma_undeclared_option_refused(
    s0: VotingContract,
    s1: VotingContract,
    id: Seq<char>,
    voter: String,
    option: Seq<char>,
    now: int,
    r: Result<(), VotingError>,
)
    requires
        s0.wf(),
        s0.has_poll(id),
        s0.poll(id).active_at(now),
        !s0.poll(id).has_voted(voter@),
        !s0.poll(id).offers(option),
        s0.vote_result(s1, id, voter, option, now, r),
    ensures
        r == Err::<(), VotingError>(VotingError::InvalidOption),
        s1 == s0,
{
}

/// The sweep at time `now` returns the identifier of every poll that it closes.
proof fn lemma_expired_ids_contains(polls: Seq<Poll>, now: int, i: int)
    requires
        0 <= i < polls.len(),
        expires_at(polls[i], now),
    ensures
        expired_ids(polls, now).contains(polls[i].poll_id),
    decreases polls.len(),
{
    let last = polls.len() - 1;
    if i == last {
        let r = expired_ids(polls, now);
        assert(r[r.len() - 1] == polls[i].poll_id);
    } else {
        assert(polls.drop_last()[i] == polls[i]);
        lemma_expired_ids_contains(polls.drop_last(), now, i);
        let prior = expired_ids(polls.drop_last(), now);
        let k = choose|k: int| 0 <= k < prior.len() && prior[k] == polls[i].poll_id;
        if expires_at(polls.last(), now) {
            assert(expired_ids(polls, now)[k] == polls[i].poll_id);
        }
    }
}

/// A poll created at time `now` with duration `d` takes votes at `now` and takes none from
/// `now + d` on. Once the expiry sweep has run at such a time, it has returned the poll's
/// identifier, the poll is closed, and any vote in it is refused as closed. (A poll created at
/// the largest time never takes votes, so that time is left out.)
pub proof fn lemma_poll_expires(
    s0: VotingContract,
    s1: VotingContract,
    s2: VotingContract,
    s3: VotingContract,
    creator: String,
    title: String,
    description: String,
    options: Seq<String>,
    d: u64,
    now: u64,
    id: String,
    later: u64,
    swept: Seq<String>,
    voter: String,
    option: Seq<char>,
    t: int,
    r: Result<(), VotingError>,
)
    requires
        s0.wf(),
        s1.wf(),
        s0.create_result(s1, creator, title, description, options, d, now, Ok(id)),
        now < u64::MAX,
        later >= now + d,
        s1.sweep_result(s2, later as int, swept),
        s2.vote_result(s3, id@, voter, option, t, r),
    ensures
        s1.has_poll(id@),
        s1.poll(id@).active_at(now as int),
        !s1.poll(id@).active_at(later as int),
        swept.contains(id),
        s2.poll(id@).poll_is_closed,
        r == Err::<(), VotingError>(VotingError::PollClosed),
{
    let polls = s1.active_polls@;
    let i = polls.len() - 1;
    let ids = ids_of(polls);
    assert(ids[i] == id@);
    assert(ids.contains(id@));
    assert(s1.poll_index(id@) == i) by {
        let j = s1.poll_index(id@);
        assert(ids[j] == ids[i]);
    }
    let p = polls[i];
    assert(p.poll_end_timestamp == window_end(now, d));
    assert(expires_at(p, later as int));
    lemma_expired_ids_contains(polls, later as int, i);
    assert(s2.active_polls@[i] == after_sweep(p, later as int));
    assert(ids_of(s2.active_polls@) =~= ids);
}

/// Closing a poll on behalf of someone who is neither the administrator nor the poll's creator
/// is refused and changes nothing.
pub proof fn lemma_close_by_stranger_refused(
    s0: VotingContract,
    s1: VotingContract,
    id: Seq<char>,
    requester: Seq<char>,
    r: Result<(), VotingError>,
)
    requires
        s0.wf(),
        s0.has_poll(id),
        requester != s0.admin_address@,
        requester != s0.poll(id).poll_creator_address@,
        s0.close_result(s1, id, requester, r),
    ensures
        r == Err::<(), VotingError>(VotingError::NotAuthorized),
        s1 == s0,
{
}

/// Closing a poll on behalf of the administrator or of its creator succeeds and closes it; doing
/// it again succeeds too and changes nothing more.
pub proof fn lemma_close_idempotent(
    s0: VotingContract,
    s1: VotingContract,
    s2: VotingContract,
    id: Seq<char>,
    requester: Seq<char>,
    r1: Result<(), VotingError>,
    r2: Result<(), VotingError>,
)
    requires
        s0.wf(),
        s0.has_poll(id),
        requester == s0.admin_address@ || requester == s0.poll(id).poll_creator_address@,
        s0.close_result(s1, id, requester, r1),
        s1.close_result(s2, id, requester, r2),
    ensures
        r1 == Ok::<(), VotingError>(()),
        s1.poll(id).poll_is_closed,
        r2 == Ok::<(), VotingError>(()),
        s2.active_polls@ == s1.active_polls@,
        s2.admin_address == s1.admin_address,
        s2.next_poll_number == s1.next_poll_number,
{
    assert(ids_of(s1.active_polls@) =~= ids_of(s0.active_polls@));
    assert(s2.active_polls@ =~= s1.active_polls@);
}

} // verus!
