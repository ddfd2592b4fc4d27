//! The state-transition logic itself.
//!
//! Each function here is one operation's engine step: it runs once the host
//! has resolved (or, for a creation, reserved) the records the operation
//! touches, validates the preconditions against the current state and the
//! host-supplied clock and balance, and on success performs the mutation.
//! On failure it mutates nothing. The `*_gate` spec functions state exactly
//! which error, if any, each operation aborts with.
//!
//! Record resolution, address collisions and the clock itself belong to the
//! host; [`crate::ledger`] models that layer.

use vstd::prelude::*;

use crate::errors::VotingError;
use crate::records::{Candidate, CandidateView, Identity, Poll, PollView, VoterRecord, VoterRecordView, identity_eq};

verus! {

/// Minimum eligibility balance required to vote, in minor units
/// (1 unit = 1,000,000,000 minor units).
pub const MIN_BALANCE_TO_VOTE: u64 = 1_000_000_000;

/// The exact outcome of the validation `initialize_candidate` performs:
/// only the poll admin may add candidates.
pub open spec fn add_candidate_gate(poll: PollView, signer: Seq<u8>) -> Result<(), VotingError> {
    if signer != poll.poll_admin {
        Err(VotingError::Unauthorized)
    } else {
        Ok(())
    }
}

/// The exact outcome of the validation `vote` performs: the clock must lie
/// in the poll's inclusive `[poll_start, poll_end]` window (both bounds read
/// as signed 64-bit), and the voter's balance must reach the threshold.
pub open spec fn vote_gate(poll: PollView, now: i64, balance: u64) -> Result<(), VotingError> {
    if now < poll.poll_start as i64 {
        Err(VotingError::PollNotStarted)
    } else if now > poll.poll_end as i64 {
        Err(VotingError::PollEnded)
    } else if balance < MIN_BALANCE_TO_VOTE {
        Err(VotingError::InsufficientBalance)
    } else {
        Ok(())
    }
}

/// The exact outcome of the validation `close_poll_early` performs: only the
/// poll admin may close, and only while the poll has not yet ended.
pub open spec fn close_gate(poll: PollView, signer: Seq<u8>, now: i64) -> Result<(), VotingError> {
    if signer != poll.poll_admin {
        Err(VotingError::Unauthorized)
    } else if now > poll.poll_end as i64 {
        Err(VotingError::PollAlreadyEnded)
    } else {
        Ok(())
    }
}

/// Initializes a poll record: the window is taken as given (no validation,
/// even of windows already in the past), the candidate count starts at zero,
/// and the signer becomes the poll's admin.
pub fn initialize_poll(
    poll_id: u64,
    description: Vec<u8>,
    poll_start: u64,
    poll_end: u64,
    signer: Identity,
) -> (poll: Poll)
    ensures
        poll@ == (PollView {
            poll_id,
            description: description@,
            poll_start,
            poll_end,
            candidate_amount: 0,
            poll_admin: signer@,
        }),
{
    Poll {
        poll_id,
        description,
        poll_start,
        poll_end,
        candidate_amount: 0,
        poll_admin: signer,
    }
}

/// Registers a candidate for `poll`: only the poll admin may do so; on
/// success the poll's candidate count rises by one and the new candidate
/// record starts with zero votes.
pub fn initialize_candidate(
    poll: &mut Poll,
    candidate_name: Vec<u8>,
    signer: &Identity,
) -> (r: Result<Candidate, VotingError>)
    requires
        old(poll).candidate_amount < u64::MAX,
    ensures
        match r {
            Ok(candidate) => {
                &&& add_candidate_gate(old(poll)@, signer@) == Ok::<(), VotingError>(())
                &&& final(poll)@ == (PollView {
                    candidate_amount: (old(poll).candidate_amount + 1) as u64,
                    ..old(poll)@
                })
                &&& candidate@ == (CandidateView { candidate_name: candidate_name@, candidate_votes: 0 })
            },
            Err(e) => {
                &&& add_candidate_gate(old(poll)@, signer@) == Err::<(), VotingError>(e)
                &&& final(poll)@ == old(poll)@
            },
        },
{
    if !identity_eq(signer, &poll.poll_admin) {
        return Err(VotingError::Unauthorized);
    }
    poll.candidate_amount = poll.candidate_amount + 1;
    Ok(Candidate { candidate_name, candidate_votes: 0 })
}

/// Casts a vote for `candidate` in `poll`: the clock must lie inside the
/// poll's window, the voter's balance must reach the threshold; on success
/// the candidate's vote count rises by one and the returned receipt records
/// the vote. Whether the voter already holds a receipt is the record
/// store's concern, not this function's.
pub fn vote(
    poll: &Poll,
    candidate: &mut Candidate,
    voter: Identity,
    now: i64,
    balance: u64,
) -> (r: Result<VoterRecord, VotingError>)
    requires
        old(candidate).candidate_votes < u64::MAX,
    ensures
        match r {
            Ok(record) => {
                &&& vote_gate(poll@, now, balance) == Ok::<(), VotingError>(())
                &&& final(candidate)@ == (CandidateView {
                    candidate_votes: (old(candidate).candidate_votes + 1) as u64,
                    ..old(candidate)@
                })
                &&& record@ == (VoterRecordView {
                    poll_id: poll.poll_id,
                    voter: voter@,
                    candidate_voted_for: old(candidate)@.candidate_name,
                    timestamp: now,
                })
            },
            Err(e) => {
                &&& vote_gate(poll@, now, balance) == Err::<(), VotingError>(e)
                &&& final(candidate)@ == old(candidate)@
            },
        },
{
    match check_vote(poll, now, balance) {
        Err(e) => {
            return Err(e);
        },
        Ok(()) => {},
    }
    let record = VoterRecord {
        poll_id: poll.poll_id,
        voter,
        candidate_voted_for: copy_bytes(&candidate.candidate_name),
        timestamp: now,
    };
    candidate.candidate_votes = candidate.candidate_votes + 1;
    Ok(record)
}

/// Closes `poll` early: only the poll admin may do so, and only while the
/// poll has not already ended; the poll's end then becomes the closing
/// timestamp (read back as unsigned), so later votes fail the window check.
pub fn close_poll_early(poll: &mut Poll, signer: &Identity, now: i64) -> (r: Result<
    (),
    VotingError,
>)
    ensures
        match r {
            Ok(()) => {
                &&& close_gate(old(poll)@, signer@, now) == Ok::<(), VotingError>(())
                &&& final(poll)@ == (PollView { poll_end: now as u64, ..old(poll)@ })
            },
            Err(e) => {
                &&& close_gate(old(poll)@, signer@, now) == Err::<(), VotingError>(e)
                &&& final(poll)@ == old(poll)@
            },
        },
{
    if !identity_eq(signer, &poll.poll_admin) {
        return Err(VotingError::Unauthorized);
    }
    if now > poll.poll_end as i64 {
        return Err(VotingError::PollAlreadyEnded);
    }
    poll.poll_end = now as u64;
    Ok(())
}

/// Runs the vote validation alone, without touching any record: the result
/// is exactly [`vote_gate`] on the poll's current state.
pub fn check_vote(poll: &Poll, now: i64, balance: u64) -> (r: Result<(), VotingError>)
    ensures
        r == vote_gate(poll@, now, balance),
{
    if now < poll.poll_start as i64 {
        return Err(VotingError::PollNotStarted);
    }
    if now > poll.poll_end as i64 {
        return Err(VotingError::PollEnded);
    }
    if balance < MIN_BALANCE_TO_VOTE {
        return Err(VotingError::InsufficientBalance);
    }
    Ok(())
}

/// Copies a byte string, so that a receipt can record a candidate's name
/// while the candidate record keeps it.
pub fn copy_bytes(a: &Vec<u8>) -> (r: Vec<u8>)
    ensures
        r@ == a@,
{
    let mut r: Vec<u8> = Vec::new();
    let mut i: usize = 0;
    while i < a.len()
        invariant
            i <= a@.len(),
            r@ == a@.subrange(0, i as int),
        decreases a@.len() - i,
    {
        r.push(a[i]);
        proof {
            assert(r@ =~= a@.subrange(0, i + 1 as int));
        }
        i = i + 1;
    }
    proof {
        assert(a@.subrange(0, a@.len() as int) =~= a@);
    }
    r
}

} // verus!
