//! The record types the engine works on, and their mathematical views.
//!
//! Text fields (a poll's description, a candidate's name) are held as UTF-8
//! bytes, since the data model bounds them in bytes: at most 280 for a
//! description, at most 64 for a candidate name.

use vstd::prelude::*;

verus! {

use vstd::std_specs::cmp::PartialEqSpec;

/// An authenticated caller reference, compared by equality for authorization.
/// The host is trusted to have verified that the caller controls it.
#[derive(Debug, PartialEq, Eq)]
pub struct Identity {
    pub bytes: Vec<u8>,
}

impl View for Identity {
    type V = Seq<u8>;

    open spec fn view(&self) -> Seq<u8> {
        self.bytes@
    }
}

/// One record per voting contest.
#[derive(Debug, PartialEq, Eq)]
pub struct Poll {
    /// Caller-chosen identifier; also the seed for the poll's address.
    pub poll_id: u64,
    /// Free text, at most 280 bytes.
    pub description: Vec<u8>,
    /// First second (inclusive) at which votes are accepted.
    pub poll_start: u64,
    /// Last second (inclusive) at which votes are accepted.
    pub poll_end: u64,
    /// Monotonically increasing count of registered candidates.
    pub candidate_amount: u64,
    /// The identity that created the poll; the only one authorized to add
    /// candidates or close the poll early.
    pub poll_admin: Identity,
}

/// The mathematical value of a [`Poll`].
#[verifier::ext_equal]
pub ghost struct PollView {
    pub poll_id: u64,
    pub description: Seq<u8>,
    pub poll_start: u64,
    pub poll_end: u64,
    pub candidate_amount: u64,
    pub poll_admin: Seq<u8>,
}

impl View for Poll {
    type V = PollView;

    open spec fn view(&self) -> PollView {
        PollView {
            poll_id: self.poll_id,
            description: self.description@,
            poll_start: self.poll_start,
            poll_end: self.poll_end,
            candidate_amount: self.candidate_amount,
            poll_admin: self.poll_admin@,
        }
    }
}

/// One record per `(poll, name)` pair.
#[derive(Debug, PartialEq, Eq)]
pub struct Candidate {
    /// At most 64 bytes; with the poll id it seeds the record's address,
    /// which makes `(poll, name)` a unique key.
    pub candidate_name: Vec<u8>,
    /// Votes received so far.
    pub candidate_votes: u64,
}

/// The mathematical value of a [`Candidate`].
#[verifier::ext_equal]
pub ghost struct CandidateView {
    pub candidate_name: Seq<u8>,
    pub candidate_votes: u64,
}

impl View for Candidate {
    type V = CandidateView;

    open spec fn view(&self) -> CandidateView {
        CandidateView { candidate_name: self.candidate_name@, candidate_votes: self.candidate_votes }
    }
}

/// One record per `(poll, voter)` pair: the receipt proving that the voter
/// voted once in that poll.
#[derive(Debug, PartialEq, Eq)]
pub struct VoterRecord {
    pub poll_id: u64,
    pub voter: Identity,
    /// The candidate's name at the time of voting, at most 64 bytes.
    pub candidate_voted_for: Vec<u8>,
    /// The host clock's reading when the vote was cast.
    pub timestamp: i64,
}

/// The mathematical value of a [`VoterRecord`].
#[verifier::ext_equal]
pub ghost struct VoterRecordView {
    pub poll_id: u64,
    pub voter: Seq<u8>,
    pub candidate_voted_for: Seq<u8>,
    pub timestamp: i64,
}

impl View for VoterRecord {
    type V = VoterRecordView;

    open spec fn view(&self) -> VoterRecordView {
        VoterRecordView {
            poll_id: self.poll_id,
            voter: self.voter@,
            candidate_voted_for: self.candidate_voted_for@,
            timestamp: self.timestamp,
        }
    }
}

/// Byte-string equality, settled at the level of views.
pub fn bytes_eq(a: &Vec<u8>, b: &Vec<u8>) -> (r: bool)
    ensures
        r == (a@ == b@),
{
    let r = a == b;
    proof {
        if r {
            assert(a@ =~= b@);
        } else {
            if a@ == b@ {
                assert(a.eq_spec(b));
            }
        }
    }
    r
}

/// Identity equality, settled at the level of views.
pub fn identity_eq(a: &Identity, b: &Identity) -> (r: bool)
    ensures
        r == (a@ == b@),
{
    bytes_eq(&a.bytes, &b.bytes)
}

} // verus!
