//! The guarantees the engine and the record store give together, each proved
//! once and for all over the operations' transition functions.

use vstd::prelude::*;

use crate::counting::{count_where, lemma_count_where_le_len};
use crate::engine::{MIN_BALANCE_TO_VOTE, vote_gate};
use crate::errors::{OpError, VotingError};
use crate::ledger::{
    LedgerView, MAX_DESCRIPTION_BYTES, MAX_NAME_BYTES, add_candidate_spec, candidate_at,
    candidate_index_of, candidates_of, cast_vote_spec, close_early_spec, create_poll_spec,
    has_candidate, has_poll, has_record, lemma_candidate_index_is, lemma_cast_vote_wf,
    lemma_close_early_wf, lemma_create_poll_wf, lemma_poll_index_is, poll_at, poll_index_of,
    votes_for,
};

verus! {

/// Adding a candidate to a stored poll, as its admin and under a free name,
/// succeeds and raises the poll's candidate count by exactly one.
pub proof fn lemma_add_candidate_increments(
    l: LedgerView,
    candidate_name: Seq<u8>,
    poll_id: u64,
    signer: Seq<u8>,
)
    requires
        l.wf(),
        l.candidates.len() < u64::MAX,
        has_poll(l.polls, poll_id),
        signer == poll_at(l.polls, poll_id).poll_admin,
        !has_candidate(l.candidates, poll_id, candidate_name),
    ensures
        add_candidate_spec(l, candidate_name, poll_id, signer).1 == Ok::<(), OpError>(()),
        poll_at(add_candidate_spec(l, candidate_name, poll_id, signer).0.polls, poll_id)
            .candidate_amount == poll_at(l.polls, poll_id).candidate_amount + 1,
{
    let l1 = add_candidate_spec(l, candidate_name, poll_id, signer).0;
    let pi = poll_index_of(l.polls, poll_id);
    assert(0 <= pi < l.polls.len() && l.polls[pi].poll_id == poll_id);
    lemma_count_where_le_len(l.candidates, candidates_of(poll_id));
    assert(poll_at(l.polls, poll_id).candidate_amount == count_where(
        l.candidates,
        candidates_of(poll_id),
    ));
    assert forall|i: int, j: int|
        #![trigger l1.polls[i].poll_id, l1.polls[j].poll_id]
        0 <= i < l1.polls.len() && 0 <= j < l1.polls.len() && i != j implies l1.polls[i].poll_id
        != l1.polls[j].poll_id by {
        assert(l1.polls[i].poll_id == l.polls[i].poll_id);
        assert(l1.polls[j].poll_id == l.polls[j].poll_id);
    }
    lemma_poll_index_is(l1.polls, poll_id, pi);
}

/// CreatePoll at a free id followed immediately by AddCandidate with the
/// poll's admin identity: both succeed, and the candidate count — zero at
/// creation — rises by exactly one.
pub proof fn lemma_create_then_add_candidate(
    l: LedgerView,
    poll_id: u64,
    description: Seq<u8>,
    poll_start: u64,
    poll_end: u64,
    admin: Seq<u8>,
    candidate_name: Seq<u8>,
)
    requires
        l.wf(),
        l.candidates.len() < u64::MAX,
        !has_poll(l.polls, poll_id),
        description.len() <= MAX_DESCRIPTION_BYTES,
        candidate_name.len() <= MAX_NAME_BYTES,
    ensures
        ({
            let (l1, r1) = create_poll_spec(l, poll_id, description, poll_start, poll_end, admin);
            let (l2, r2) = add_candidate_spec(l1, candidate_name, poll_id, admin);
            &&& r1 == Ok::<(), OpError>(())
            &&& r2 == Ok::<(), OpError>(())
            &&& poll_at(l1.polls, poll_id).candidate_amount == 0
            &&& poll_at(l2.polls, poll_id).candidate_amount == 1
        }),
{
    let (l1, r1) = create_poll_spec(l, poll_id, description, poll_start, poll_end, admin);
    let n = l.polls.len() as int;
    assert(l1.polls[n].poll_id == poll_id);
    lemma_create_poll_wf(l, poll_id, description, poll_start, poll_end, admin);
    lemma_poll_index_is(l1.polls, poll_id, n);
    assert(poll_at(l1.polls, poll_id).poll_admin == admin);
    // No candidate can name the freshly created poll.
    assert(!has_candidate(l1.candidates, poll_id, candidate_name)) by {
        if has_candidate(l.candidates, poll_id, candidate_name) {
            let w = choose|i: int|
                0 <= i < l.candidates.len() && crate::ledger::candidate_matches(
                    #[trigger] l.candidates[i],
                    poll_id,
                    candidate_name,
                );
            assert(has_poll(l.polls, l.candidates[w].poll_id));
        }
    }
    lemma_add_candidate_increments(l1, candidate_name, poll_id, admin);
}

/// AddCandidate by a non-admin identity fails with `Unauthorized` and
/// changes nothing, regardless of the poll's state.
pub proof fn lemma_add_candidate_unauthorized(
    l: LedgerView,
    candidate_name: Seq<u8>,
    poll_id: u64,
    signer: Seq<u8>,
)
    requires
        has_poll(l.polls, poll_id),
        signer != poll_at(l.polls, poll_id).poll_admin,
    ensures
        add_candidate_spec(l, candidate_name, poll_id, signer) == (
            l,
            Err::<(), OpError>(OpError::Engine(VotingError::Unauthorized)),
        ),
{
}

/// CastVote's outcome on a stored poll, by the clock and the balance: too
/// early is `PollNotStarted`, too late is `PollEnded` (both window bounds
/// inclusive), a balance below the threshold is `InsufficientBalance`, and
/// inside the window with a sufficient balance the vote goes through — or
/// collides with the voter's existing receipt.
pub proof fn lemma_cast_vote_outcomes(
    l: LedgerView,
    candidate_name: Seq<u8>,
    poll_id: u64,
    voter: Seq<u8>,
    now: i64,
    balance: u64,
)
    requires
        has_poll(l.polls, poll_id),
    ensures
        ({
            let p = poll_at(l.polls, poll_id);
            let (l1, r) = cast_vote_spec(l, candidate_name, poll_id, voter, now, balance);
            &&& now < p.poll_start as i64 ==> (l1, r) == (
                l,
                Err::<(), OpError>(OpError::Engine(VotingError::PollNotStarted)),
            )
            &&& now >= p.poll_start as i64 && now > p.poll_end as i64 ==> (l1, r) == (
                l,
                Err::<(), OpError>(OpError::Engine(VotingError::PollEnded)),
            )
            &&& p.poll_start as i64 <= now <= p.poll_end as i64 && balance < MIN_BALANCE_TO_VOTE
                ==> (l1, r) == (
                l,
                Err::<(), OpError>(OpError::Engine(VotingError::InsufficientBalance)),
            )
            &&& p.poll_start as i64 <= now <= p.poll_end as i64 && balance >= MIN_BALANCE_TO_VOTE
                && has_candidate(l.candidates, poll_id, candidate_name) && !has_record(
                l.voter_records,
                poll_id,
                voter,
            ) ==> r == Ok::<(), OpError>(())
            &&& p.poll_start as i64 <= now <= p.poll_end as i64 && balance >= MIN_BALANCE_TO_VOTE
                && has_candidate(l.candidates, poll_id, candidate_name) && has_record(
                l.voter_records,
                poll_id,
                voter,
            ) ==> (l1, r) == (l, Err::<(), OpError>(OpError::RecordInUse))
        }),
{
}

/// A voter votes once: after a successful CastVote, any further CastVote by
/// the same voter in the same poll is rejected and changes nothing, and the
/// candidate's vote count reflects exactly the one vote.
pub proof fn lemma_vote_once(
    l: LedgerView,
    candidate_name: Seq<u8>,
    poll_id: u64,
    voter: Seq<u8>,
    now: i64,
    balance: u64,
    second_name: Seq<u8>,
    second_now: i64,
    second_balance: u64,
)
    requires
        l.wf(),
        l.voter_records.len() < u64::MAX,
        cast_vote_spec(l, candidate_name, poll_id, voter, now, balance).1 is Ok,
    ensures
        ({
            let l1 = cast_vote_spec(l, candidate_name, poll_id, voter, now, balance).0;
            let (l2, r2) = cast_vote_spec(l1, second_name, poll_id, voter, second_now, second_balance);
            &&& r2 is Err
            &&& l2 == l1
            &&& candidate_at(l1.candidates, poll_id, candidate_name).candidate_votes
                == candidate_at(l.candidates, poll_id, candidate_name).candidate_votes + 1
        }),
{
    let l1 = cast_vote_spec(l, candidate_name, poll_id, voter, now, balance).0;
    let ci = candidate_index_of(l.candidates, poll_id, candidate_name);
    let c = l.candidates[ci];
    assert(0 <= ci < l.candidates.len() && crate::ledger::candidate_matches(
        c,
        poll_id,
        candidate_name,
    ));
    lemma_cast_vote_wf(l, candidate_name, poll_id, voter, now, balance);
    // The receipt is now on record.
    let rn = l.voter_records.len() as int;
    assert(crate::ledger::record_matches(l1.voter_records[rn], poll_id, voter));
    assert(has_record(l1.voter_records, poll_id, voter));
    // The second call fails whichever check it reaches first.
    assert(cast_vote_spec(l1, second_name, poll_id, voter, second_now, second_balance).0 == l1);
    // The one vote is counted, and counted once.
    lemma_count_where_le_len(l.voter_records, votes_for(poll_id, candidate_name));
    assert(c.candidate_votes == count_where(l.voter_records, votes_for(poll_id, candidate_name)));
    lemma_candidate_index_is(l.candidates, poll_id, candidate_name, ci);
    lemma_candidate_index_is(l1.candidates, poll_id, candidate_name, ci);
    assert(l1.candidates[ci].candidate_votes == c.candidate_votes + 1);
}

/// CloseEarly by the admin, while the poll has not yet ended, sets the
/// poll's end to the closing timestamp; every vote cast after that moment
/// (once the poll has started) fails with `PollEnded`, and closing again
/// later fails with `PollAlreadyEnded`.
pub proof fn lemma_close_early_shuts_the_poll(l: LedgerView, poll_id: u64, signer: Seq<u8>, now: i64)
    requires
        l.wf(),
        has_poll(l.polls, poll_id),
        signer == poll_at(l.polls, poll_id).poll_admin,
        now <= poll_at(l.polls, poll_id).poll_end as i64,
    ensures
        ({
            let (l1, r1) = close_early_spec(l, poll_id, signer, now);
            &&& r1 == Ok::<(), OpError>(())
            &&& poll_at(l1.polls, poll_id).poll_end == now as u64
            &&& forall|name: Seq<u8>, voter: Seq<u8>, now2: i64, balance: u64|
                #![trigger cast_vote_spec(l1, name, poll_id, voter, now2, balance)]
                now2 > now && now2 >= poll_at(l1.polls, poll_id).poll_start as i64
                    ==> cast_vote_spec(l1, name, poll_id, voter, now2, balance) == (
                    l1,
                    Err::<(), OpError>(OpError::Engine(VotingError::PollEnded)),
                )
            &&& forall|now3: i64|
                #![trigger close_early_spec(l1, poll_id, signer, now3)]
                now3 > now ==> close_early_spec(l1, poll_id, signer, now3) == (
                    l1,
                    Err::<(), OpError>(OpError::Engine(VotingError::PollAlreadyEnded)),
                )
        }),
{
    let (l1, r1) = close_early_spec(l, poll_id, signer, now);
    let pi = poll_index_of(l.polls, poll_id);
    assert(0 <= pi < l.polls.len() && l.polls[pi].poll_id == poll_id);
    lemma_close_early_wf(l, poll_id, signer, now);
    assert(l1.polls[pi].poll_id == poll_id);
    lemma_poll_index_is(l1.polls, poll_id, pi);
    assert(poll_at(l1.polls, poll_id).poll_end == now as u64);
    assert((now as u64) as i64 == now) by (bit_vector);
    assert forall|name: Seq<u8>, voter: Seq<u8>, now2: i64, balance: u64|
        #![trigger cast_vote_spec(l1, name, poll_id, voter, now2, balance)]
        now2 > now && now2 >= poll_at(l1.polls, poll_id).poll_start as i64
            implies cast_vote_spec(l1, name, poll_id, voter, now2, balance) == (
        l1,
        Err::<(), OpError>(OpError::Engine(VotingError::PollEnded)),
    ) by {
        assert(vote_gate(poll_at(l1.polls, poll_id), now2, balance) == Err::<(), VotingError>(
            VotingError::PollEnded,
        ));
    }
    assert forall|now3: i64|
        #![trigger close_early_spec(l1, poll_id, signer, now3)]
        now3 > now implies close_early_spec(l1, poll_id, signer, now3) == (
        l1,
        Err::<(), OpError>(OpError::Engine(VotingError::PollAlreadyEnded)),
    ) by {
        assert(poll_at(l1.polls, poll_id).poll_admin == signer);
    }
}

} // verus!
