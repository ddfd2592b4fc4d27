//! A model of the host's record store, and the four operations run against
//! it.
//!
//! Every record's location in the store is a pure function of a seed tuple —
//! `poll_id` for a poll, `(poll_id, candidate_name)` for a candidate,
//! `(poll_id, voter)` for a voter record — so creating a record is an atomic
//! insert-if-absent: creation at an address already in use fails with
//! [`OpError::RecordInUse`], and resolving an absent record fails with
//! [`OpError::RecordNotFound`]. Double voting is prevented entirely by this
//! collision rule, not by a check in the engine.
//!
//! The `*_spec` functions state each operation as a transition on
//! [`LedgerView`]; the exec methods refine them exactly.

use vstd::prelude::*;

use crate::counting::{
    count_where, lemma_count_where_le_len, lemma_count_where_none, lemma_count_where_push,
    lemma_count_where_update,
};
use crate::engine;
use crate::engine::{add_candidate_gate, close_gate, vote_gate};
use crate::errors::{OpError, VotingError};
use crate::records::{
    Candidate, CandidateView, Identity, Poll, PollView, VoterRecord, VoterRecordView, bytes_eq,
    identity_eq,
};

verus! {

/// Upper bound, in bytes, on a poll's description.
pub const MAX_DESCRIPTION_BYTES: u64 = 280;

/// Upper bound, in bytes, on a candidate's name.
pub const MAX_NAME_BYTES: u64 = 64;

/// A candidate record together with the poll id that, with the candidate's
/// name, seeds its address in the store.
pub struct CandidateEntry {
    pub poll_id: u64,
    pub candidate: Candidate,
}

/// The mathematical value of a [`CandidateEntry`].
#[verifier::ext_equal]
pub ghost struct CandidateEntryView {
    pub poll_id: u64,
    pub candidate_name: Seq<u8>,
    pub candidate_votes: u64,
}

impl View for CandidateEntry {
    type V = CandidateEntryView;

    open spec fn view(&self) -> CandidateEntryView {
        CandidateEntryView {
            poll_id: self.poll_id,
            candidate_name: self.candidate.candidate_name@,
            candidate_votes: self.candidate.candidate_votes,
        }
    }
}

/// The mathematical value of the whole store.
#[verifier::ext_equal]
pub ghost struct LedgerView {
    pub polls: Seq<PollView>,
    pub candidates: Seq<CandidateEntryView>,
    pub voter_records: Seq<VoterRecordView>,
}

// ---------------------------------------------------------------------------
// Addressing: one record per seed tuple.
// ---------------------------------------------------------------------------

/// Some poll is stored under `poll_id`.
pub open spec fn has_poll(polls: Seq<PollView>, poll_id: u64) -> bool {
    exists|i: int| 0 <= i < polls.len() && #[trigger] polls[i].poll_id == poll_id
}

/// The index of the poll stored under `poll_id` (meaningful when
/// [`has_poll`] holds and the ids are unique).
pub open spec fn poll_index_of(polls: Seq<PollView>, poll_id: u64) -> int {
    choose|i: int| 0 <= i < polls.len() && #[trigger] polls[i].poll_id == poll_id
}

/// The poll stored under `poll_id`.
pub open spec fn poll_at(polls: Seq<PollView>, poll_id: u64) -> PollView {
    polls[poll_index_of(polls, poll_id)]
}

/// `c` is stored under the seed tuple `(poll_id, name)`.
pub open spec fn candidate_matches(c: CandidateEntryView, poll_id: u64, name: Seq<u8>) -> bool {
    c.poll_id == poll_id && c.candidate_name == name
}

/// Some candidate is stored under `(poll_id, name)`.
pub open spec fn has_candidate(cs: Seq<CandidateEntryView>, poll_id: u64, name: Seq<u8>) -> bool {
    exists|i: int| 0 <= i < cs.len() && candidate_matches(#[trigger] cs[i], poll_id, name)
}

/// The index of the candidate stored under `(poll_id, name)`.
pub open spec fn candidate_index_of(cs: Seq<CandidateEntryView>, poll_id: u64, name: Seq<u8>) -> int {
    choose|i: int| 0 <= i < cs.len() && candidate_matches(#[trigger] cs[i], poll_id, name)
}

/// The candidate stored under `(poll_id, name)`.
pub open spec fn candidate_at(cs: Seq<CandidateEntryView>, poll_id: u64, name: Seq<u8>) -> CandidateEntryView {
    cs[candidate_index_of(cs, poll_id, name)]
}

/// `r` is stored under the seed tuple `(poll_id, voter)`.
pub open spec fn record_matches(r: VoterRecordView, poll_id: u64, voter: Seq<u8>) -> bool {
    r.poll_id == poll_id && r.voter == voter
}

/// Some voter record is stored under `(poll_id, voter)`: the voter has
/// already voted in this poll.
pub open spec fn has_record(rs: Seq<VoterRecordView>, poll_id: u64, voter: Seq<u8>) -> bool {
    exists|i: int| 0 <= i < rs.len() && record_matches(#[trigger] rs[i], poll_id, voter)
}

/// The index of the voter record stored under `(poll_id, voter)`.
pub open spec fn record_index_of(rs: Seq<VoterRecordView>, poll_id: u64, voter: Seq<u8>) -> int {
    choose|i: int| 0 <= i < rs.len() && record_matches(#[trigger] rs[i], poll_id, voter)
}

/// The voter record stored under `(poll_id, voter)`.
pub open spec fn record_at(rs: Seq<VoterRecordView>, poll_id: u64, voter: Seq<u8>) -> VoterRecordView {
    rs[record_index_of(rs, poll_id, voter)]
}

/// The candidates registered for `poll_id`.
pub open spec fn candidates_of(poll_id: u64) -> spec_fn(CandidateEntryView) -> bool {
    |c: CandidateEntryView| c.poll_id == poll_id
}

/// The voter records naming candidate `(poll_id, name)`.
pub open spec fn votes_for(poll_id: u64, name: Seq<u8>) -> spec_fn(VoterRecordView) -> bool {
    |r: VoterRecordView| r.poll_id == poll_id && r.candidate_voted_for == name
}

// ---------------------------------------------------------------------------
// Well-formedness: what holds of every reachable store.
// ---------------------------------------------------------------------------

/// At most one poll per address.
pub open spec fn polls_unique(polls: Seq<PollView>) -> bool {
    forall|i: int, j: int|
        #![trigger polls[i].poll_id, polls[j].poll_id]
        0 <= i < polls.len() && 0 <= j < polls.len() && i != j ==> polls[i].poll_id
            != polls[j].poll_id
}

/// At most one candidate per address.
pub open spec fn candidates_unique(cs: Seq<CandidateEntryView>) -> bool {
    forall|i: int, j: int|
        #![trigger cs[i], cs[j]]
        0 <= i < cs.len() && 0 <= j < cs.len() && i != j ==> !(cs[i].poll_id == cs[j].poll_id
            && cs[i].candidate_name == cs[j].candidate_name)
}

/// At most one voter record per address.
pub open spec fn records_unique(rs: Seq<VoterRecordView>) -> bool {
    forall|i: int, j: int|
        #![trigger rs[i], rs[j]]
        0 <= i < rs.len() && 0 <= j < rs.len() && i != j ==> !(rs[i].poll_id == rs[j].poll_id
            && rs[i].voter == rs[j].voter)
}

impl LedgerView {
    /// Each poll's `candidate_amount` is the number of candidates registered
    /// for it.
    pub open spec fn candidate_counts_ok(self) -> bool {
        forall|i: int|
            0 <= i < self.polls.len() ==> (#[trigger] self.polls[i]).candidate_amount
                == count_where(self.candidates, candidates_of(self.polls[i].poll_id))
    }

    /// Each candidate's `candidate_votes` is the number of voter records
    /// naming it: every vote leaves a receipt, and each receipt counts once.
    pub open spec fn vote_counts_ok(self) -> bool {
        forall|j: int|
            0 <= j < self.candidates.len() ==> (#[trigger] self.candidates[j]).candidate_votes
                == count_where(
                self.voter_records,
                votes_for(self.candidates[j].poll_id, self.candidates[j].candidate_name),
            )
    }

    /// Every candidate belongs to a stored poll.
    pub open spec fn candidates_ref_polls(self) -> bool {
        forall|j: int|
            0 <= j < self.candidates.len() ==> has_poll(
                self.polls,
                (#[trigger] self.candidates[j]).poll_id,
            )
    }

    /// Every voter record names a stored candidate.
    pub open spec fn records_ref_candidates(self) -> bool {
        forall|k: int|
            0 <= k < self.voter_records.len() ==> has_candidate(
                self.candidates,
                (#[trigger] self.voter_records[k]).poll_id,
                self.voter_records[k].candidate_voted_for,
            )
    }

    /// The data model's byte bounds on text fields.
    pub open spec fn bounds_ok(self) -> bool {
        &&& forall|i: int|
            0 <= i < self.polls.len() ==> (#[trigger] self.polls[i]).description.len()
                <= MAX_DESCRIPTION_BYTES
        &&& forall|j: int|
            0 <= j < self.candidates.len() ==> (#[trigger] self.candidates[j]).candidate_name.len()
                <= MAX_NAME_BYTES
        &&& forall|k: int|
            0 <= k < self.voter_records.len() ==> (
            #[trigger] self.voter_records[k]).candidate_voted_for.len() <= MAX_NAME_BYTES
    }

    /// What holds of every reachable store.
    pub open spec fn wf(self) -> bool {
        &&& polls_unique(self.polls)
        &&& candidates_unique(self.candidates)
        &&& records_unique(self.voter_records)
        &&& self.candidate_counts_ok()
        &&& self.vote_counts_ok()
        &&& self.candidates_ref_polls()
        &&& self.records_ref_candidates()
        &&& self.bounds_ok()
    }
}

// ---------------------------------------------------------------------------
// The operations as transitions on the view.
// ---------------------------------------------------------------------------

/// CreatePoll: allocate a poll under `poll_id`, failing if the address is in
/// use; the window is stored unvalidated, the candidate count starts at
/// zero, and the caller becomes admin.
pub open spec fn create_poll_spec(
    l: LedgerView,
    poll_id: u64,
    description: Seq<u8>,
    poll_start: u64,
    poll_end: u64,
    admin: Seq<u8>,
) -> (LedgerView, Result<(), OpError>) {
    if has_poll(l.polls, poll_id) {
        (l, Err(OpError::RecordInUse))
    } else {
        (
            LedgerView {
                polls: l.polls.push(
                    PollView {
                        poll_id,
                        description,
                        poll_start,
                        poll_end,
                        candidate_amount: 0,
                        poll_admin: admin,
                    },
                ),
                ..l
            },
            Ok(()),
        )
    }
}

/// AddCandidate: with the poll resolved, the engine's authorization check
/// runs, then the candidate is allocated under `(poll_id, candidate_name)`,
/// failing if that address is in use; the poll's count rises by one.
pub open spec fn add_candidate_spec(
    l: LedgerView,
    candidate_name: Seq<u8>,
    poll_id: u64,
    signer: Seq<u8>,
) -> (LedgerView, Result<(), OpError>) {
    if !has_poll(l.polls, poll_id) {
        (l, Err(OpError::RecordNotFound))
    } else {
        let p = poll_at(l.polls, poll_id);
        match add_candidate_gate(p, signer) {
            Err(e) => (l, Err(OpError::Engine(e))),
            Ok(()) => if has_candidate(l.candidates, poll_id, candidate_name) {
                (l, Err(OpError::RecordInUse))
            } else {
                (
                    LedgerView {
                        polls: l.polls.update(
                            poll_index_of(l.polls, poll_id),
                            PollView { candidate_amount: (p.candidate_amount + 1) as u64, ..p },
                        ),
                        candidates: l.candidates.push(
                            CandidateEntryView { poll_id, candidate_name, candidate_votes: 0 },
                        ),
                        ..l
                    },
                    Ok(()),
                )
            },
        }
    }
}

/// CastVote: with the poll resolved, the engine's window and balance checks
/// run, then the candidate is resolved (failing if absent), then the voter
/// record is allocated under `(poll_id, voter)` — an address already in use
/// means the voter has voted, and rejects the call. On success the
/// candidate's votes rise by one and the receipt is stored.
pub open spec fn cast_vote_spec(
    l: LedgerView,
    candidate_name: Seq<u8>,
    poll_id: u64,
    voter: Seq<u8>,
    now: i64,
    balance: u64,
) -> (LedgerView, Result<(), OpError>) {
    if !has_poll(l.polls, poll_id) {
        (l, Err(OpError::RecordNotFound))
    } else {
        let p = poll_at(l.polls, poll_id);
        match vote_gate(p, now, balance) {
            Err(e) => (l, Err(OpError::Engine(e))),
            Ok(()) => if !has_candidate(l.candidates, poll_id, candidate_name) {
                (l, Err(OpError::RecordNotFound))
            } else if has_record(l.voter_records, poll_id, voter) {
                (l, Err(OpError::RecordInUse))
            } else {
                let j = candidate_index_of(l.candidates, poll_id, candidate_name);
                let c = l.candidates[j];
                (
                    LedgerView {
                        candidates: l.candidates.update(
                            j,
                            CandidateEntryView {
                                candidate_votes: (c.candidate_votes + 1) as u64,
                                ..c
                            },
                        ),
                        voter_records: l.voter_records.push(
                            VoterRecordView {
                                poll_id,
                                voter,
                                candidate_voted_for: c.candidate_name,
                                timestamp: now,
                            },
                        ),
                        ..l
                    },
                    Ok(()),
                )
            },
        }
    }
}

/// CloseEarly: with the poll resolved, the engine's authorization and
/// window checks run; on success the poll's end becomes the closing
/// timestamp.
pub open spec fn close_early_spec(l: LedgerView, poll_id: u64, signer: Seq<u8>, now: i64) -> (
    LedgerView,
    Result<(), OpError>,
) {
    if !has_poll(l.polls, poll_id) {
        (l, Err(OpError::RecordNotFound))
    } else {
        let p = poll_at(l.polls, poll_id);
        match close_gate(p, signer, now) {
            Err(e) => (l, Err(OpError::Engine(e))),
            Ok(()) => (
                LedgerView {
                    polls: l.polls.update(
                        poll_index_of(l.polls, poll_id),
                        PollView { poll_end: now as u64, ..p },
                    ),
                    ..l
                },
                Ok(()),
            ),
        }
    }
}

// ---------------------------------------------------------------------------
// Addressing lemmas.
// ---------------------------------------------------------------------------

/// With unique ids, the poll found at any matching index is the poll the
/// store holds under that id.
pub proof fn lemma_poll_index_is(polls: Seq<PollView>, poll_id: u64, i: int)
    requires
        polls_unique(polls),
        0 <= i < polls.len(),
        polls[i].poll_id == poll_id,
    ensures
        has_poll(polls, poll_id),
        poll_index_of(polls, poll_id) == i,
        poll_at(polls, poll_id) == polls[i],
{
    assert(has_poll(polls, poll_id));
    let j = poll_index_of(polls, poll_id);
    assert(0 <= j < polls.len() && polls[j].poll_id == poll_id);
    if j != i {
        assert(polls[i].poll_id != polls[j].poll_id);
    }
}

/// With unique keys, the candidate found at any matching index is the
/// candidate the store holds under that key.
pub proof fn lemma_candidate_index_is(cs: Seq<CandidateEntryView>, poll_id: u64, name: Seq<u8>, i: int)
    requires
        candidates_unique(cs),
        0 <= i < cs.len(),
        candidate_matches(cs[i], poll_id, name),
    ensures
        has_candidate(cs, poll_id, name),
        candidate_index_of(cs, poll_id, name) == i,
        candidate_at(cs, poll_id, name) == cs[i],
{
    assert(has_candidate(cs, poll_id, name));
    let j = candidate_index_of(cs, poll_id, name);
    assert(0 <= j < cs.len() && candidate_matches(cs[j], poll_id, name));
    if j != i {
        assert(!(cs[i].poll_id == cs[j].poll_id && cs[i].candidate_name == cs[j].candidate_name));
    }
}

/// With unique keys, the voter record found at any matching index is the
/// record the store holds under that key.
pub proof fn lemma_record_index_is(rs: Seq<VoterRecordView>, poll_id: u64, voter: Seq<u8>, i: int)
    requires
        records_unique(rs),
        0 <= i < rs.len(),
        record_matches(rs[i], poll_id, voter),
    ensures
        has_record(rs, poll_id, voter),
        record_index_of(rs, poll_id, voter) == i,
        record_at(rs, poll_id, voter) == rs[i],
{
    assert(has_record(rs, poll_id, voter));
    let j = record_index_of(rs, poll_id, voter);
    assert(0 <= j < rs.len() && record_matches(rs[j], poll_id, voter));
    if j != i {
        assert(!(rs[i].poll_id == rs[j].poll_id && rs[i].voter == rs[j].voter));
    }
}

/// Updating a poll without changing its id leaves every address lookup as it
/// was.
pub proof fn lemma_has_poll_update(polls: Seq<PollView>, k: int, x: PollView)
    requires
        0 <= k < polls.len(),
        x.poll_id == polls[k].poll_id,
    ensures
        forall|id: u64| #[trigger] has_poll(polls.update(k, x), id) == has_poll(polls, id),
{
    let t = polls.update(k, x);
    assert forall|id: u64| #[trigger] has_poll(t, id) == has_poll(polls, id) by {
        if has_poll(t, id) {
            let w = choose|i: int| 0 <= i < t.len() && #[trigger] t[i].poll_id == id;
            assert(polls[if w == k { k } else { w }].poll_id == id);
        }
        if has_poll(polls, id) {
            let w = choose|i: int| 0 <= i < polls.len() && #[trigger] polls[i].poll_id == id;
            assert(t[if w == k { k } else { w }].poll_id == id);
        }
    }
}

/// Updating a candidate without changing its key leaves every address lookup
/// as it was.
pub proof fn lemma_has_candidate_update(cs: Seq<CandidateEntryView>, k: int, x: CandidateEntryView)
    requires
        0 <= k < cs.len(),
        x.poll_id == cs[k].poll_id,
        x.candidate_name == cs[k].candidate_name,
    ensures
        forall|id: u64, name: Seq<u8>| #[trigger] has_candidate(cs.update(k, x), id, name)
            == has_candidate(cs, id, name),
{
    let t = cs.update(k, x);
    assert forall|id: u64, name: Seq<u8>| #[trigger] has_candidate(t, id, name) == has_candidate(
        cs,
        id,
        name,
    ) by {
        if has_candidate(t, id, name) {
            let w = choose|i: int| 0 <= i < t.len() && candidate_matches(#[trigger] t[i], id, name);
            assert(candidate_matches(cs[if w == k { k } else { w }], id, name));
        }
        if has_candidate(cs, id, name) {
            let w = choose|i: int| 0 <= i < cs.len() && candidate_matches(#[trigger] cs[i], id, name);
            assert(candidate_matches(t[if w == k { k } else { w }], id, name));
        }
    }
}

// ---------------------------------------------------------------------------
// Every operation preserves well-formedness.
// ---------------------------------------------------------------------------

/// CreatePoll preserves well-formedness: a fresh poll has a fresh id, and —
/// since every candidate belongs to a stored poll — no candidates yet, so a
/// count of zero is right.
pub proof fn lemma_create_poll_wf(
    l: LedgerView,
    poll_id: u64,
    description: Seq<u8>,
    poll_start: u64,
    poll_end: u64,
    admin: Seq<u8>,
)
    requires
        l.wf(),
        description.len() <= MAX_DESCRIPTION_BYTES,
    ensures
        create_poll_spec(l, poll_id, description, poll_start, poll_end, admin).0.wf(),
{
    if !has_poll(l.polls, poll_id) {
        let l1 = create_poll_spec(l, poll_id, description, poll_start, poll_end, admin).0;
        let n = l.polls.len() as int;
        assert forall|i: int| 0 <= i < n implies #[trigger] l1.polls[i] == l.polls[i] by {}
        assert forall|i: int| 0 <= i < n implies #[trigger] l.polls[i].poll_id != poll_id by {
            if l.polls[i].poll_id == poll_id {
                assert(has_poll(l.polls, poll_id));
            }
        }
        assert(polls_unique(l1.polls));
        // No candidate can already belong to the fresh poll.
        assert forall|j: int| 0 <= j < l.candidates.len() implies !(candidates_of(poll_id)(
            #[trigger] l.candidates[j],
        )) by {
            if l.candidates[j].poll_id == poll_id {
                assert(has_poll(l.polls, poll_id));
            }
        }
        lemma_count_where_none(l.candidates, candidates_of(poll_id));
        assert(l1.candidate_counts_ok());
        assert(l1.vote_counts_ok());
        assert forall|j: int| 0 <= j < l1.candidates.len() implies has_poll(
            l1.polls,
            (#[trigger] l1.candidates[j]).poll_id,
        ) by {
            assert(has_poll(l.polls, l.candidates[j].poll_id));
            let w = choose|i: int|
                0 <= i < l.polls.len() && #[trigger] l.polls[i].poll_id == l.candidates[j].poll_id;
            assert(l1.polls[w].poll_id == l.candidates[j].poll_id);
        }
        assert(l1.bounds_ok());
    }
}

/// AddCandidate preserves well-formedness: the candidate's address was
/// free, so its key is fresh; the poll's count rises together with the one
/// new matching candidate; and — since every voter record names a stored
/// candidate — the fresh candidate has no votes yet, so zero is right.
pub proof fn lemma_add_candidate_wf(
    l: LedgerView,
    candidate_name: Seq<u8>,
    poll_id: u64,
    signer: Seq<u8>,
)
    requires
        l.wf(),
        candidate_name.len() <= MAX_NAME_BYTES,
        l.candidates.len() < u64::MAX,
    ensures
        add_candidate_spec(l, candidate_name, poll_id, signer).0.wf(),
{
    if has_poll(l.polls, poll_id) && add_candidate_gate(poll_at(l.polls, poll_id), signer) is Ok
        && !has_candidate(l.candidates, poll_id, candidate_name) {
        let l1 = add_candidate_spec(l, candidate_name, poll_id, signer).0;
        let pi = poll_index_of(l.polls, poll_id);
        let p = poll_at(l.polls, poll_id);
        assert(0 <= pi < l.polls.len() && l.polls[pi].poll_id == poll_id);
        let newc = CandidateEntryView { poll_id, candidate_name, candidate_votes: 0 };
        let cn = l.candidates.len() as int;
        assert(l1.polls[pi].poll_id == poll_id);
        assert(polls_unique(l1.polls));
        // The new key is fresh, so keys stay unique.
        assert forall|j: int| 0 <= j < cn implies !(candidate_matches(
            #[trigger] l.candidates[j],
            poll_id,
            candidate_name,
        )) by {
            if candidate_matches(l.candidates[j], poll_id, candidate_name) {
                assert(has_candidate(l.candidates, poll_id, candidate_name));
            }
        }
        assert(candidates_unique(l1.candidates));
        // Counts: the touched poll gains exactly the one new candidate.
        lemma_count_where_le_len(l.candidates, candidates_of(poll_id));
        assert(p.candidate_amount == count_where(l.candidates, candidates_of(poll_id)));
        assert forall|i: int| 0 <= i < l1.polls.len() implies (
        #[trigger] l1.polls[i]).candidate_amount == count_where(
            l1.candidates,
            candidates_of(l1.polls[i].poll_id),
        ) by {
            lemma_count_where_push(l.candidates, candidates_of(l1.polls[i].poll_id), newc);
            if i == pi {
                assert(candidates_of(poll_id)(newc));
            } else {
                assert(l1.polls[i] == l.polls[i]);
                assert(l.polls[i].poll_id != poll_id);
                assert(!candidates_of(l.polls[i].poll_id)(newc));
            }
        }
        // The fresh candidate has no votes on record.
        assert forall|k: int| 0 <= k < l.voter_records.len() implies !(votes_for(
            poll_id,
            candidate_name,
        )(#[trigger] l.voter_records[k])) by {
            if votes_for(poll_id, candidate_name)(l.voter_records[k]) {
                assert(has_candidate(
                    l.candidates,
                    l.voter_records[k].poll_id,
                    l.voter_records[k].candidate_voted_for,
                ));
                let w = choose|i: int|
                    0 <= i < l.candidates.len() && candidate_matches(
                        #[trigger] l.candidates[i],
                        l.voter_records[k].poll_id,
                        l.voter_records[k].candidate_voted_for,
                    );
                assert(candidate_matches(l.candidates[w], poll_id, candidate_name));
                assert(has_candidate(l.candidates, poll_id, candidate_name));
            }
        }
        lemma_count_where_none(l.voter_records, votes_for(poll_id, candidate_name));
        assert forall|j: int| 0 <= j < l1.candidates.len() implies (
        #[trigger] l1.candidates[j]).candidate_votes == count_where(
            l1.voter_records,
            votes_for(l1.candidates[j].poll_id, l1.candidates[j].candidate_name),
        ) by {
            if j < cn {
                assert(l1.candidates[j] == l.candidates[j]);
            } else {
                assert(l1.candidates[j] == newc);
            }
        }
        // References.
        lemma_has_poll_update(l.polls, pi, l1.polls[pi]);
        assert forall|j: int| 0 <= j < l1.candidates.len() implies has_poll(
            l1.polls,
            (#[trigger] l1.candidates[j]).poll_id,
        ) by {
            if j < cn {
                assert(l1.candidates[j] == l.candidates[j]);
                assert(has_poll(l.polls, l.candidates[j].poll_id));
            } else {
                assert(l1.candidates[j] == newc);
                assert(has_poll(l.polls, poll_id));
            }
        }
        assert forall|k: int| 0 <= k < l1.voter_records.len() implies has_candidate(
            l1.candidates,
            (#[trigger] l1.voter_records[k]).poll_id,
            l1.voter_records[k].candidate_voted_for,
        ) by {
            let w = choose|i: int|
                0 <= i < l.candidates.len() && candidate_matches(
                    #[trigger] l.candidates[i],
                    l.voter_records[k].poll_id,
                    l.voter_records[k].candidate_voted_for,
                );
            assert(candidate_matches(
                l1.candidates[w],
                l1.voter_records[k].poll_id,
                l1.voter_records[k].candidate_voted_for,
            ));
        }
        // Bounds.
        assert forall|j: int| 0 <= j < l1.candidates.len() implies (
        #[trigger] l1.candidates[j]).candidate_name.len() <= MAX_NAME_BYTES by {
            if j < cn {
                assert(l1.candidates[j] == l.candidates[j]);
            }
        }
        assert(l1.bounds_ok());
        assert(l1.wf());
    }
}

/// CastVote preserves well-formedness: the vote's receipt is stored at a
/// fresh address, and the one candidate it names gains exactly one vote and
/// one matching receipt.
pub proof fn lemma_cast_vote_wf(
    l: LedgerView,
    candidate_name: Seq<u8>,
    poll_id: u64,
    voter: Seq<u8>,
    now: i64,
    balance: u64,
)
    requires
        l.wf(),
        l.voter_records.len() < u64::MAX,
    ensures
        cast_vote_spec(l, candidate_name, poll_id, voter, now, balance).0.wf(),
{
    if has_poll(l.polls, poll_id) && vote_gate(poll_at(l.polls, poll_id), now, balance) is Ok
        && has_candidate(l.candidates, poll_id, candidate_name) && !has_record(
        l.voter_records,
        poll_id,
        voter,
    ) {
        let l1 = cast_vote_spec(l, candidate_name, poll_id, voter, now, balance).0;
        let ci = candidate_index_of(l.candidates, poll_id, candidate_name);
        let c = l.candidates[ci];
        assert(0 <= ci < l.candidates.len() && candidate_matches(c, poll_id, candidate_name));
        let newr = VoterRecordView {
            poll_id,
            voter,
            candidate_voted_for: c.candidate_name,
            timestamp: now,
        };
        let rn = l.voter_records.len() as int;
        assert(l1.candidates[ci].poll_id == poll_id && l1.candidates[ci].candidate_name
            == candidate_name);
        assert(candidates_unique(l1.candidates));
        // The receipt's address is fresh, so keys stay unique.
        assert forall|k: int| 0 <= k < rn implies !(record_matches(
            #[trigger] l.voter_records[k],
            poll_id,
            voter,
        )) by {
            if record_matches(l.voter_records[k], poll_id, voter) {
                assert(has_record(l.voter_records, poll_id, voter));
            }
        }
        assert(records_unique(l1.voter_records));
        // Candidate counts per poll do not change: keys are untouched.
        assert forall|i: int| 0 <= i < l1.polls.len() implies (
        #[trigger] l1.polls[i]).candidate_amount == count_where(
            l1.candidates,
            candidates_of(l1.polls[i].poll_id),
        ) by {
            lemma_count_where_update(
                l.candidates,
                candidates_of(l.polls[i].poll_id),
                ci,
                l1.candidates[ci],
            );
        }
        // Vote counts: the named candidate gains exactly the one receipt.
        lemma_count_where_le_len(l.voter_records, votes_for(poll_id, candidate_name));
        assert(c.candidate_votes == count_where(l.voter_records, votes_for(poll_id, candidate_name)));
        assert forall|j: int| 0 <= j < l1.candidates.len() implies (
        #[trigger] l1.candidates[j]).candidate_votes == count_where(
            l1.voter_records,
            votes_for(l1.candidates[j].poll_id, l1.candidates[j].candidate_name),
        ) by {
            lemma_count_where_push(
                l.voter_records,
                votes_for(l1.candidates[j].poll_id, l1.candidates[j].candidate_name),
                newr,
            );
            if j == ci {
                assert(votes_for(poll_id, candidate_name)(newr));
            } else {
                assert(l1.candidates[j] == l.candidates[j]);
                assert(!(l.candidates[j].poll_id == c.poll_id && l.candidates[j].candidate_name
                    == c.candidate_name));
                assert(!votes_for(l.candidates[j].poll_id, l.candidates[j].candidate_name)(newr));
            }
        }
        // References.
        lemma_has_candidate_update(l.candidates, ci, l1.candidates[ci]);
        assert(l1.candidates_ref_polls());
        assert forall|k: int| 0 <= k < l1.voter_records.len() implies has_candidate(
            l1.candidates,
            (#[trigger] l1.voter_records[k]).poll_id,
            l1.voter_records[k].candidate_voted_for,
        ) by {
            if k < rn {
                assert(l1.voter_records[k] == l.voter_records[k]);
                assert(has_candidate(
                    l.candidates,
                    l.voter_records[k].poll_id,
                    l.voter_records[k].candidate_voted_for,
                ));
            } else {
                assert(l1.voter_records[k] == newr);
                assert(candidate_matches(l1.candidates[ci], poll_id, c.candidate_name));
            }
        }
        // Bounds: the receipt names a stored candidate, so its name is bounded.
        assert forall|k: int| 0 <= k < l1.voter_records.len() implies (
        #[trigger] l1.voter_records[k]).candidate_voted_for.len() <= MAX_NAME_BYTES by {
            if k < rn {
                assert(l1.voter_records[k] == l.voter_records[k]);
            } else {
                assert(l1.voter_records[k] == newr);
                assert(c.candidate_name.len() <= MAX_NAME_BYTES);
            }
        }
        assert forall|j: int| 0 <= j < l1.candidates.len() implies (
        #[trigger] l1.candidates[j]).candidate_name.len() <= MAX_NAME_BYTES by {
            if j != ci {
                assert(l1.candidates[j] == l.candidates[j]);
            }
        }
        assert(l1.bounds_ok());
        assert(l1.wf());
    }
}

/// CloseEarly preserves well-formedness: only the touched poll's end
/// changes; its id, count and description stay as they were.
pub proof fn lemma_close_early_wf(l: LedgerView, poll_id: u64, signer: Seq<u8>, now: i64)
    requires
        l.wf(),
    ensures
        close_early_spec(l, poll_id, signer, now).0.wf(),
{
    if has_poll(l.polls, poll_id) && close_gate(poll_at(l.polls, poll_id), signer, now) is Ok {
        let l1 = close_early_spec(l, poll_id, signer, now).0;
        let pi = poll_index_of(l.polls, poll_id);
        assert(0 <= pi < l.polls.len() && l.polls[pi].poll_id == poll_id);
        assert(polls_unique(l1.polls));
        assert(l1.candidate_counts_ok());
        assert(l1.vote_counts_ok());
        lemma_has_poll_update(l.polls, pi, l1.polls[pi]);
        assert(l1.candidates_ref_polls());
        assert(l1.records_ref_candidates());
        assert forall|i: int| 0 <= i < l1.polls.len() implies (
        #[trigger] l1.polls[i]).description.len() <= MAX_DESCRIPTION_BYTES by {
            if i != pi {
                assert(l1.polls[i] == l.polls[i]);
            }
        }
        assert(l1.bounds_ok());
        assert(l1.wf());
    }
}

// ---------------------------------------------------------------------------
// The store itself.
// ---------------------------------------------------------------------------

/// The record store: every poll, candidate and voter record, each reachable
/// by its seed tuple alone.
pub struct Ledger {
    polls: Vec<Poll>,
    candidates: Vec<CandidateEntry>,
    voter_records: Vec<VoterRecord>,
}

impl View for Ledger {
    type V = LedgerView;

    closed spec fn view(&self) -> LedgerView {
        LedgerView {
            polls: self.polls@.map_values(|p: Poll| p@),
            candidates: self.candidates@.map_values(|c: CandidateEntry| c@),
            voter_records: self.voter_records@.map_values(|r: VoterRecord| r@),
        }
    }
}

impl Ledger {
    /// The store's invariant; every operation requires and preserves it.
    pub open spec fn wf(self) -> bool {
        self@.wf()
    }

    /// An empty store.
    pub fn new() -> (l: Ledger)
        ensures
            l.wf(),
            l@ == (LedgerView {
                polls: Seq::<PollView>::empty(),
                candidates: Seq::<CandidateEntryView>::empty(),
                voter_records: Seq::<VoterRecordView>::empty(),
            }),
    {
        let l = Ledger { polls: Vec::new(), candidates: Vec::new(), voter_records: Vec::new() };
        proof {
            assert(l@.polls =~= Seq::<PollView>::empty());
            assert(l@.candidates =~= Seq::<CandidateEntryView>::empty());
            assert(l@.voter_records =~= Seq::<VoterRecordView>::empty());
            assert(l@ =~= (LedgerView {
                polls: Seq::<PollView>::empty(),
                candidates: Seq::<CandidateEntryView>::empty(),
                voter_records: Seq::<VoterRecordView>::empty(),
            }));
        }
        l
    }

    fn find_poll_index(&self, poll_id: u64) -> (r: Option<usize>)
        ensures
            match r {
                Some(i) => 0 <= i < self@.polls.len() && self@.polls[i as int].poll_id == poll_id,
                None => !has_poll(self@.polls, poll_id),
            },
    {
        let n = self.polls.len();
        let mut i: usize = 0;
        while i < n
            invariant
                n == self.polls@.len(),
                self@.polls.len() == self.polls@.len(),
                i <= n,
                forall|k: int| 0 <= k < i ==> #[trigger] self@.polls[k].poll_id != poll_id,
            decreases n - i,
        {
            proof {
                assert(self@.polls[i as int] == self.polls@[i as int]@);
            }
            if self.polls[i].poll_id == poll_id {
                return Some(i);
            }
            i = i + 1;
        }
        proof {
            if has_poll(self@.polls, poll_id) {
                let w = choose|k: int|
                    0 <= k < self@.polls.len() && #[trigger] self@.polls[k].poll_id == poll_id;
                assert(self@.polls[w].poll_id != poll_id);
            }
        }
        None
    }

    fn find_candidate_index(&self, poll_id: u64, name: &Vec<u8>) -> (r: Option<usize>)
        ensures
            match r {
                Some(i) => 0 <= i < self@.candidates.len() && candidate_matches(
                    self@.candidates[i as int],
                    poll_id,
                    name@,
                ),
                None => !has_candidate(self@.candidates, poll_id, name@),
            },
    {
        let n = self.candidates.len();
        let mut i: usize = 0;
        while i < n
            invariant
                n == self.candidates@.len(),
                self@.candidates.len() == self.candidates@.len(),
                i <= n,
                forall|k: int|
                    0 <= k < i ==> !candidate_matches(#[trigger] self@.candidates[k], poll_id, name@),
            decreases n - i,
        {
            proof {
                assert(self@.candidates[i as int] == self.candidates@[i as int]@);
            }
            let e = &self.candidates[i];
            if e.poll_id == poll_id {
                if bytes_eq(&e.candidate.candidate_name, name) {
                    return Some(i);
                }
            }
            i = i + 1;
        }
        proof {
            if has_candidate(self@.candidates, poll_id, name@) {
                let w = choose|k: int|
                    0 <= k < self@.candidates.len() && candidate_matches(
                        #[trigger] self@.candidates[k],
                        poll_id,
                        name@,
                    );
                assert(!candidate_matches(self@.candidates[w], poll_id, name@));
            }
        }
        None
    }

    fn find_record_index(&self, poll_id: u64, voter: &Identity) -> (r: Option<usize>)
        ensures
            match r {
                Some(i) => 0 <= i < self@.voter_records.len() && record_matches(
                    self@.voter_records[i as int],
                    poll_id,
                    voter@,
                ),
                None => !has_record(self@.voter_records, poll_id, voter@),
            },
    {
        let n = self.voter_records.len();
        let mut i: usize = 0;
        while i < n
            invariant
                n == self.voter_records@.len(),
                self@.voter_records.len() == self.voter_records@.len(),
                i <= n,
                forall|k: int|
                    0 <= k < i ==> !record_matches(#[trigger] self@.voter_records[k], poll_id, voter@),
            decreases n - i,
        {
            proof {
                assert(self@.voter_records[i as int] == self.voter_records@[i as int]@);
            }
            let e = &self.voter_records[i];
            if e.poll_id == poll_id {
                if identity_eq(&e.voter, voter) {
                    return Some(i);
                }
            }
            i = i + 1;
        }
        proof {
            if has_record(self@.voter_records, poll_id, voter@) {
                let w = choose|k: int|
                    0 <= k < self@.voter_records.len() && record_matches(
                        #[trigger] self@.voter_records[k],
                        poll_id,
                        voter@,
                    );
                assert(!record_matches(self@.voter_records[w], poll_id, voter@));
            }
        }
        None
    }

    /// CreatePoll: refines [`create_poll_spec`] exactly.
    pub fn create_poll(
        &mut self,
        poll_id: u64,
        description: Vec<u8>,
        poll_start: u64,
        poll_end: u64,
        admin: Identity,
    ) -> (r: Result<(), OpError>)
        requires
            old(self).wf(),
            description@.len() <= MAX_DESCRIPTION_BYTES,
        ensures
            final(self).wf(),
            final(self)@ == create_poll_spec(
                old(self)@,
                poll_id,
                description@,
                poll_start,
                poll_end,
                admin@,
            ).0,
            r == create_poll_spec(old(self)@, poll_id, description@, poll_start, poll_end, admin@).1,
    {
        match self.find_poll_index(poll_id) {
            Some(i) => {
                proof {
                    assert(has_poll(self@.polls, poll_id));
                }
                Err(OpError::RecordInUse)
            },
            None => {
                let poll = engine::initialize_poll(poll_id, description, poll_start, poll_end, admin);
                self.polls.push(poll);
                proof {
                    let l0 = old(self)@;
                    let l1 = create_poll_spec(l0, poll_id, description@, poll_start, poll_end, admin@).0;
                    assert(self@.polls =~= l1.polls);
                    assert(self@.candidates =~= l1.candidates);
                    assert(self@.voter_records =~= l1.voter_records);
                    assert(self@ =~= l1);
                    lemma_create_poll_wf(l0, poll_id, description@, poll_start, poll_end, admin@);
                }
                Ok(())
            },
        }
    }

    /// AddCandidate: refines [`add_candidate_spec`] exactly. The store
    /// cannot hold `u64::MAX` records, so the candidate count's increment
    /// cannot overflow.
    pub fn add_candidate(&mut self, candidate_name: Vec<u8>, poll_id: u64, signer: &Identity) -> (r:
        Result<(), OpError>)
        requires
            old(self).wf(),
            candidate_name@.len() <= MAX_NAME_BYTES,
            old(self)@.candidates.len() < u64::MAX,
        ensures
            final(self).wf(),
            final(self)@ == add_candidate_spec(old(self)@, candidate_name@, poll_id, signer@).0,
            r == add_candidate_spec(old(self)@, candidate_name@, poll_id, signer@).1,
    {
        let pi = match self.find_poll_index(poll_id) {
            None => {
                return Err(OpError::RecordNotFound);
            },
            Some(i) => i,
        };
        proof {
            lemma_poll_index_is(self@.polls, poll_id, pi as int);
            assert(self@.polls[pi as int] == self.polls@[pi as int]@);
        }
        if !identity_eq(signer, &self.polls[pi].poll_admin) {
            return Err(OpError::Engine(VotingError::Unauthorized));
        }
        match self.find_candidate_index(poll_id, &candidate_name) {
            Some(j) => {
                proof {
                    assert(has_candidate(self@.candidates, poll_id, candidate_name@));
                }
                return Err(OpError::RecordInUse);
            },
            None => {},
        }
        proof {
            lemma_count_where_le_len(self@.candidates, candidates_of(poll_id));
        }
        let candidate = match engine::initialize_candidate(&mut self.polls[pi], candidate_name, signer) {
            Ok(c) => c,
            Err(_) => {
                // The admin check above already passed, so the engine cannot
                // refuse; this arm is dead.
                proof {
                    assert(false);
                }
                return Err(OpError::RecordInUse);
            },
        };
        self.candidates.push(CandidateEntry { poll_id, candidate });
        proof {
            let l0 = old(self)@;
            let l1 = add_candidate_spec(l0, candidate_name@, poll_id, signer@).0;
            assert(poll_index_of(l0.polls, poll_id) == pi as int);
            assert(self@.polls =~= l1.polls);
            assert(self@.candidates =~= l1.candidates);
            assert(self@.voter_records =~= l1.voter_records);
            assert(self@ =~= l1);
            lemma_add_candidate_wf(l0, candidate_name@, poll_id, signer@);
        }
        Ok(())
    }

    /// CastVote: refines [`cast_vote_spec`] exactly. The store cannot hold
    /// `u64::MAX` records, so the vote count's increment cannot overflow.
    pub fn cast_vote(
        &mut self,
        candidate_name: Vec<u8>,
        poll_id: u64,
        voter: Identity,
        now: i64,
        balance: u64,
    ) -> (r: Result<(), OpError>)
        requires
            old(self).wf(),
            old(self)@.voter_records.len() < u64::MAX,
        ensures
            final(self).wf(),
            final(self)@ == cast_vote_spec(old(self)@, candidate_name@, poll_id, voter@, now, balance).0,
            r == cast_vote_spec(old(self)@, candidate_name@, poll_id, voter@, now, balance).1,
    {
        let pi = match self.find_poll_index(poll_id) {
            None => {
                return Err(OpError::RecordNotFound);
            },
            Some(i) => i,
        };
        proof {
            lemma_poll_index_is(self@.polls, poll_id, pi as int);
            assert(self@.polls[pi as int] == self.polls@[pi as int]@);
        }
        match engine::check_vote(&self.polls[pi], now, balance) {
            Err(e) => {
                return Err(OpError::Engine(e));
            },
            Ok(()) => {},
        }
        let ci = match self.find_candidate_index(poll_id, &candidate_name) {
            None => {
                return Err(OpError::RecordNotFound);
            },
            Some(j) => j,
        };
        proof {
            lemma_candidate_index_is(self@.candidates, poll_id, candidate_name@, ci as int);
            assert(self@.candidates[ci as int] == self.candidates@[ci as int]@);
        }
        match self.find_record_index(poll_id, &voter) {
            Some(k) => {
                proof {
                    assert(has_record(self@.voter_records, poll_id, voter@));
                }
                return Err(OpError::RecordInUse);
            },
            None => {},
        }
        proof {
            lemma_count_where_le_len(self@.voter_records, votes_for(poll_id, candidate_name@));
        }
        let record = match engine::vote(
            &self.polls[pi],
            &mut self.candidates[ci].candidate,
            voter,
            now,
            balance,
        ) {
            Ok(rec) => rec,
            Err(_) => {
                // The window and balance checks above already passed, so the
                // engine cannot refuse; this arm is dead.
                proof {
                    assert(false);
                }
                return Err(OpError::RecordInUse);
            },
        };
        self.voter_records.push(record);
        proof {
            let l0 = old(self)@;
            let l1 = cast_vote_spec(l0, candidate_name@, poll_id, voter@, now, balance).0;
            assert(candidate_index_of(l0.candidates, poll_id, candidate_name@) == ci as int);
            assert(self@.polls =~= l1.polls);
            assert(self@.candidates =~= l1.candidates);
            assert(self@.voter_records =~= l1.voter_records);
            assert(self@ =~= l1);
            lemma_cast_vote_wf(l0, candidate_name@, poll_id, voter@, now, balance);
        }
        Ok(())
    }

    /// CloseEarly: refines [`close_early_spec`] exactly.
    pub fn close_early(&mut self, poll_id: u64, signer: &Identity, now: i64) -> (r: Result<
        (),
        OpError,
    >)
        requires
            old(self).wf(),
        ensures
            final(self).wf(),
            final(self)@ == close_early_spec(old(self)@, poll_id, signer@, now).0,
            r == close_early_spec(old(self)@, poll_id, signer@, now).1,
    {
        let pi = match self.find_poll_index(poll_id) {
            None => {
                return Err(OpError::RecordNotFound);
            },
            Some(i) => i,
        };
        proof {
            lemma_poll_index_is(self@.polls, poll_id, pi as int);
            assert(self@.polls[pi as int] == self.polls@[pi as int]@);
        }
        match engine::close_poll_early(&mut self.polls[pi], signer, now) {
            Ok(()) => {
                proof {
                    let l0 = old(self)@;
                    let l1 = close_early_spec(l0, poll_id, signer@, now).0;
                    assert(poll_index_of(l0.polls, poll_id) == pi as int);
                    assert(self@.polls =~= l1.polls);
                    assert(self@.candidates =~= l1.candidates);
                    assert(self@.voter_records =~= l1.voter_records);
                    assert(self@ =~= l1);
                    lemma_close_early_wf(l0, poll_id, signer@, now);
                }
                Ok(())
            },
            Err(e) => {
                proof {
                    let l0 = old(self)@;
                    assert(self@.polls =~= l0.polls);
                    assert(self@ =~= l0);
                }
                Err(OpError::Engine(e))
            },
        }
    }

    /// The poll stored under `poll_id`, if any.
    pub fn get_poll(&self, poll_id: u64) -> (r: Option<&Poll>)
        requires
            self.wf(),
        ensures
            match r {
                Some(poll) => has_poll(self@.polls, poll_id) && poll@ == poll_at(
                    self@.polls,
                    poll_id,
                ),
                None => !has_poll(self@.polls, poll_id),
            },
    {
        match self.find_poll_index(poll_id) {
            None => None,
            Some(i) => {
                proof {
                    lemma_poll_index_is(self@.polls, poll_id, i as int);
                    assert(self@.polls[i as int] == self.polls@[i as int]@);
                }
                Some(&self.polls[i])
            },
        }
    }

    /// The candidate stored under `(poll_id, name)`, if any.
    pub fn get_candidate(&self, poll_id: u64, name: &Vec<u8>) -> (r: Option<&Candidate>)
        requires
            self.wf(),
        ensures
            match r {
                Some(candidate) => has_candidate(self@.candidates, poll_id, name@) && candidate@
                    == (CandidateView {
                    candidate_name: candidate_at(self@.candidates, poll_id, name@).candidate_name,
                    candidate_votes: candidate_at(self@.candidates, poll_id, name@).candidate_votes,
                }),
                None => !has_candidate(self@.candidates, poll_id, name@),
            },
    {
        match self.find_candidate_index(poll_id, name) {
            None => None,
            Some(i) => {
                proof {
                    lemma_candidate_index_is(self@.candidates, poll_id, name@, i as int);
                    assert(self@.candidates[i as int] == self.candidates@[i as int]@);
                }
                Some(&self.candidates[i].candidate)
            },
        }
    }

    /// The voter record stored under `(poll_id, voter)`, if any.
    pub fn get_voter_record(&self, poll_id: u64, voter: &Identity) -> (r: Option<&VoterRecord>)
        requires
            self.wf(),
        ensures
            match r {
                Some(record) => has_record(self@.voter_records, poll_id, voter@) && record@
                    == record_at(self@.voter_records, poll_id, voter@),
                None => !has_record(self@.voter_records, poll_id, voter@),
            },
    {
        match self.find_record_index(poll_id, voter) {
            None => None,
            Some(i) => {
                proof {
                    lemma_record_index_is(self@.voter_records, poll_id, voter@, i as int);
                    assert(self@.voter_records[i as int] == self.voter_records@[i as int]@);
                }
                Some(&self.voter_records[i])
            },
        }
    }
}

} // verus!
