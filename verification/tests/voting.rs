use votingapplication::engine;
use votingapplication::engine::MIN_BALANCE_TO_VOTE;
use votingapplication::errors::{OpError, VotingError};
use votingapplication::ledger::Ledger;
use votingapplication::records::Identity;

fn ident(tag: u8) -> Identity {
    Identity { bytes: vec![tag; 32] }
}

fn open_poll(admin_tag: u8) -> Ledger {
    let mut ledger = Ledger::new();
    ledger
        .create_poll(1, b"best snack".to_vec(), 100, 200, ident(admin_tag))
        .unwrap();
    ledger
}

#[test]
fn create_poll_starts_with_zero_candidates() {
    let ledger = open_poll(7);
    let poll = ledger.get_poll(1).unwrap();
    assert_eq!(poll.poll_id, 1);
    assert_eq!(poll.description, b"best snack".to_vec());
    assert_eq!(poll.poll_start, 100);
    assert_eq!(poll.poll_end, 200);
    assert_eq!(poll.candidate_amount, 0);
    assert_eq!(poll.poll_admin, ident(7));
}

#[test]
fn create_poll_at_taken_id_is_rejected() {
    let mut ledger = open_poll(7);
    let r = ledger.create_poll(1, b"again".to_vec(), 0, 10, ident(9));
    assert_eq!(r, Err(OpError::RecordInUse));
    // The original poll is untouched.
    assert_eq!(ledger.get_poll(1).unwrap().poll_end, 200);
}

#[test]
fn add_candidate_increments_count_per_call() {
    let mut ledger = open_poll(7);
    assert_eq!(ledger.add_candidate(b"Alice".to_vec(), 1, &ident(7)), Ok(()));
    assert_eq!(ledger.get_poll(1).unwrap().candidate_amount, 1);
    assert_eq!(ledger.add_candidate(b"Bob".to_vec(), 1, &ident(7)), Ok(()));
    assert_eq!(ledger.get_poll(1).unwrap().candidate_amount, 2);
    let alice = ledger.get_candidate(1, &b"Alice".to_vec()).unwrap();
    assert_eq!(alice.candidate_name, b"Alice".to_vec());
    assert_eq!(alice.candidate_votes, 0);
}

#[test]
fn add_candidate_by_non_admin_is_unauthorized() {
    let mut ledger = open_poll(7);
    let r = ledger.add_candidate(b"Alice".to_vec(), 1, &ident(8));
    assert_eq!(r, Err(OpError::Engine(VotingError::Unauthorized)));
    assert_eq!(ledger.get_poll(1).unwrap().candidate_amount, 0);
}

#[test]
fn add_candidate_by_non_admin_fails_whatever_the_poll_state() {
    // A poll whose window already lies in the past still refuses non-admins.
    let mut ledger = Ledger::new();
    ledger.create_poll(4, b"old poll".to_vec(), 10, 20, ident(1)).unwrap();
    let r = ledger.add_candidate(b"Alice".to_vec(), 4, &ident(2));
    assert_eq!(r, Err(OpError::Engine(VotingError::Unauthorized)));
}

#[test]
fn add_candidate_under_taken_name_is_rejected() {
    let mut ledger = open_poll(7);
    ledger.add_candidate(b"Alice".to_vec(), 1, &ident(7)).unwrap();
    let r = ledger.add_candidate(b"Alice".to_vec(), 1, &ident(7));
    assert_eq!(r, Err(OpError::RecordInUse));
    assert_eq!(ledger.get_poll(1).unwrap().candidate_amount, 1);
}

#[test]
fn add_candidate_to_absent_poll_is_not_found() {
    let mut ledger = Ledger::new();
    let r = ledger.add_candidate(b"Alice".to_vec(), 5, &ident(7));
    assert_eq!(r, Err(OpError::RecordNotFound));
}

#[test]
fn vote_window_boundaries_are_inclusive() {
    let mut ledger = open_poll(7);
    ledger.add_candidate(b"Alice".to_vec(), 1, &ident(7)).unwrap();
    let r = ledger.cast_vote(b"Alice".to_vec(), 1, ident(20), 99, MIN_BALANCE_TO_VOTE);
    assert_eq!(r, Err(OpError::Engine(VotingError::PollNotStarted)));
    let r = ledger.cast_vote(b"Alice".to_vec(), 1, ident(20), 100, MIN_BALANCE_TO_VOTE);
    assert_eq!(r, Ok(()));
    let r = ledger.cast_vote(b"Alice".to_vec(), 1, ident(21), 200, MIN_BALANCE_TO_VOTE);
    assert_eq!(r, Ok(()));
    let r = ledger.cast_vote(b"Alice".to_vec(), 1, ident(22), 201, MIN_BALANCE_TO_VOTE);
    assert_eq!(r, Err(OpError::Engine(VotingError::PollEnded)));
    assert_eq!(
        ledger.get_candidate(1, &b"Alice".to_vec()).unwrap().candidate_votes,
        2
    );
}

#[test]
fn vote_balance_threshold_is_inclusive() {
    let mut ledger = open_poll(7);
    ledger.add_candidate(b"Alice".to_vec(), 1, &ident(7)).unwrap();
    let r = ledger.cast_vote(b"Alice".to_vec(), 1, ident(20), 150, 999_999_999);
    assert_eq!(r, Err(OpError::Engine(VotingError::InsufficientBalance)));
    let r = ledger.cast_vote(b"Alice".to_vec(), 1, ident(20), 150, 1_000_000_000);
    assert_eq!(r, Ok(()));
}

#[test]
fn vote_for_absent_candidate_is_not_found() {
    let mut ledger = open_poll(7);
    let r = ledger.cast_vote(b"Alice".to_vec(), 1, ident(20), 150, MIN_BALANCE_TO_VOTE);
    assert_eq!(r, Err(OpError::RecordNotFound));
}

#[test]
fn vote_in_absent_poll_is_not_found() {
    let mut ledger = Ledger::new();
    let r = ledger.cast_vote(b"Alice".to_vec(), 9, ident(20), 150, MIN_BALANCE_TO_VOTE);
    assert_eq!(r, Err(OpError::RecordNotFound));
}

#[test]
fn second_vote_by_same_voter_is_rejected() {
    let mut ledger = open_poll(7);
    ledger.add_candidate(b"Alice".to_vec(), 1, &ident(7)).unwrap();
    ledger.add_candidate(b"Bob".to_vec(), 1, &ident(7)).unwrap();
    let r = ledger.cast_vote(b"Alice".to_vec(), 1, ident(20), 150, MIN_BALANCE_TO_VOTE);
    assert_eq!(r, Ok(()));
    // Even a vote for another candidate collides with the stored receipt.
    let r = ledger.cast_vote(b"Bob".to_vec(), 1, ident(20), 160, MIN_BALANCE_TO_VOTE);
    assert_eq!(r, Err(OpError::RecordInUse));
    assert_eq!(
        ledger.get_candidate(1, &b"Alice".to_vec()).unwrap().candidate_votes,
        1
    );
    assert_eq!(
        ledger.get_candidate(1, &b"Bob".to_vec()).unwrap().candidate_votes,
        0
    );
}

#[test]
fn vote_leaves_a_full_receipt() {
    let mut ledger = open_poll(7);
    ledger.add_candidate(b"Alice".to_vec(), 1, &ident(7)).unwrap();
    ledger
        .cast_vote(b"Alice".to_vec(), 1, ident(20), 150, MIN_BALANCE_TO_VOTE)
        .unwrap();
    let receipt = ledger.get_voter_record(1, &ident(20)).unwrap();
    assert_eq!(receipt.poll_id, 1);
    assert_eq!(receipt.voter, ident(20));
    assert_eq!(receipt.candidate_voted_for, b"Alice".to_vec());
    assert_eq!(receipt.timestamp, 150);
    assert!(ledger.get_voter_record(1, &ident(21)).is_none());
}

#[test]
fn close_early_sets_the_end_and_shuts_the_poll() {
    let mut ledger = open_poll(7);
    ledger.add_candidate(b"Alice".to_vec(), 1, &ident(7)).unwrap();
    assert_eq!(ledger.close_early(1, &ident(7), 150), Ok(()));
    assert_eq!(ledger.get_poll(1).unwrap().poll_end, 150);
    let r = ledger.cast_vote(b"Alice".to_vec(), 1, ident(20), 151, MIN_BALANCE_TO_VOTE);
    assert_eq!(r, Err(OpError::Engine(VotingError::PollEnded)));
    // A vote exactly at the closing timestamp still lands inside the window.
    let r = ledger.cast_vote(b"Alice".to_vec(), 1, ident(21), 150, MIN_BALANCE_TO_VOTE);
    assert_eq!(r, Ok(()));
    // Closing again after the poll has ended is rejected.
    let r = ledger.close_early(1, &ident(7), 151);
    assert_eq!(r, Err(OpError::Engine(VotingError::PollAlreadyEnded)));
}

#[test]
fn close_early_by_non_admin_is_unauthorized() {
    let mut ledger = open_poll(7);
    let r = ledger.close_early(1, &ident(8), 150);
    assert_eq!(r, Err(OpError::Engine(VotingError::Unauthorized)));
    assert_eq!(ledger.get_poll(1).unwrap().poll_end, 200);
}

#[test]
fn close_early_before_the_start_collapses_the_window() {
    // A poll that has not started can still be closed early; its window
    // collapses and no vote ever lands.
    let mut ledger = open_poll(7);
    ledger.add_candidate(b"Alice".to_vec(), 1, &ident(7)).unwrap();
    assert_eq!(ledger.close_early(1, &ident(7), 50), Ok(()));
    assert_eq!(ledger.get_poll(1).unwrap().poll_end, 50);
    let r = ledger.cast_vote(b"Alice".to_vec(), 1, ident(20), 99, MIN_BALANCE_TO_VOTE);
    assert_eq!(r, Err(OpError::Engine(VotingError::PollNotStarted)));
    let r = ledger.cast_vote(b"Alice".to_vec(), 1, ident(20), 100, MIN_BALANCE_TO_VOTE);
    assert_eq!(r, Err(OpError::Engine(VotingError::PollEnded)));
}

#[test]
fn end_to_end_scenario() {
    let mut ledger = Ledger::new();
    ledger
        .create_poll(1, b"favourite name".to_vec(), 100, 200, ident(7))
        .unwrap();
    ledger.add_candidate(b"Alice".to_vec(), 1, &ident(7)).unwrap();
    ledger.add_candidate(b"Bob".to_vec(), 1, &ident(7)).unwrap();
    let r = ledger.cast_vote(b"Alice".to_vec(), 1, ident(20), 150, MIN_BALANCE_TO_VOTE);
    assert_eq!(r, Ok(()));
    assert_eq!(
        ledger.get_candidate(1, &b"Alice".to_vec()).unwrap().candidate_votes,
        1
    );
    let r = ledger.cast_vote(b"Alice".to_vec(), 1, ident(20), 160, MIN_BALANCE_TO_VOTE);
    assert_eq!(r, Err(OpError::RecordInUse));
    let r = ledger.cast_vote(b"Bob".to_vec(), 1, ident(21), 250, MIN_BALANCE_TO_VOTE);
    assert_eq!(r, Err(OpError::Engine(VotingError::PollEnded)));
    assert_eq!(
        ledger.get_candidate(1, &b"Alice".to_vec()).unwrap().candidate_votes,
        1
    );
    assert_eq!(
        ledger.get_candidate(1, &b"Bob".to_vec()).unwrap().candidate_votes,
        0
    );
}

#[test]
fn two_polls_keep_their_candidates_apart() {
    let mut ledger = Ledger::new();
    ledger.create_poll(1, b"first".to_vec(), 0, 1000, ident(1)).unwrap();
    ledger.create_poll(2, b"second".to_vec(), 0, 1000, ident(2)).unwrap();
    ledger.add_candidate(b"Alice".to_vec(), 1, &ident(1)).unwrap();
    ledger.add_candidate(b"Alice".to_vec(), 2, &ident(2)).unwrap();
    // The same voter may vote once in each poll.
    ledger.cast_vote(b"Alice".to_vec(), 1, ident(20), 5, MIN_BALANCE_TO_VOTE).unwrap();
    ledger.cast_vote(b"Alice".to_vec(), 2, ident(20), 6, MIN_BALANCE_TO_VOTE).unwrap();
    assert_eq!(ledger.get_candidate(1, &b"Alice".to_vec()).unwrap().candidate_votes, 1);
    assert_eq!(ledger.get_candidate(2, &b"Alice".to_vec()).unwrap().candidate_votes, 1);
    assert_eq!(ledger.get_poll(1).unwrap().candidate_amount, 1);
    assert_eq!(ledger.get_poll(2).unwrap().candidate_amount, 1);
}

#[test]
fn engine_initialize_poll_sets_every_field() {
    let poll = engine::initialize_poll(9, b"".to_vec(), 3, 4, ident(5));
    assert_eq!(poll.poll_id, 9);
    assert_eq!(poll.description, Vec::<u8>::new());
    assert_eq!(poll.poll_start, 3);
    assert_eq!(poll.poll_end, 4);
    assert_eq!(poll.candidate_amount, 0);
    assert_eq!(poll.poll_admin, ident(5));
}

#[test]
fn engine_initialize_candidate_checks_the_admin() {
    let mut poll = engine::initialize_poll(9, b"p".to_vec(), 3, 4, ident(5));
    let r = engine::initialize_candidate(&mut poll, b"Alice".to_vec(), &ident(6));
    assert_eq!(r, Err(VotingError::Unauthorized));
    assert_eq!(poll.candidate_amount, 0);
    let r = engine::initialize_candidate(&mut poll, b"Alice".to_vec(), &ident(5)).unwrap();
    assert_eq!(r.candidate_name, b"Alice".to_vec());
    assert_eq!(r.candidate_votes, 0);
    assert_eq!(poll.candidate_amount, 1);
}

#[test]
fn engine_vote_builds_the_receipt_and_counts_it() {
    let mut poll = engine::initialize_poll(9, b"p".to_vec(), 100, 200, ident(5));
    let mut candidate =
        engine::initialize_candidate(&mut poll, b"Alice".to_vec(), &ident(5)).unwrap();
    let record =
        engine::vote(&poll, &mut candidate, ident(20), 150, MIN_BALANCE_TO_VOTE).unwrap();
    assert_eq!(candidate.candidate_votes, 1);
    assert_eq!(record.poll_id, 9);
    assert_eq!(record.voter, ident(20));
    assert_eq!(record.candidate_voted_for, b"Alice".to_vec());
    assert_eq!(record.timestamp, 150);
    let r = engine::vote(&poll, &mut candidate, ident(21), 99, MIN_BALANCE_TO_VOTE);
    assert_eq!(r, Err(VotingError::PollNotStarted));
    let r = engine::vote(&poll, &mut candidate, ident(21), 201, MIN_BALANCE_TO_VOTE);
    assert_eq!(r, Err(VotingError::PollEnded));
    let r = engine::vote(&poll, &mut candidate, ident(21), 150, 999_999_999);
    assert_eq!(r, Err(VotingError::InsufficientBalance));
    assert_eq!(candidate.candidate_votes, 1);
}

#[test]
fn engine_check_vote_matches_vote() {
    let poll = engine::initialize_poll(9, b"p".to_vec(), 100, 200, ident(5));
    assert_eq!(engine::check_vote(&poll, 99, MIN_BALANCE_TO_VOTE), Err(VotingError::PollNotStarted));
    assert_eq!(engine::check_vote(&poll, 100, MIN_BALANCE_TO_VOTE), Ok(()));
    assert_eq!(engine::check_vote(&poll, 200, MIN_BALANCE_TO_VOTE), Ok(()));
    assert_eq!(engine::check_vote(&poll, 201, MIN_BALANCE_TO_VOTE), Err(VotingError::PollEnded));
    assert_eq!(engine::check_vote(&poll, 150, 0), Err(VotingError::InsufficientBalance));
}

#[test]
fn engine_close_poll_early_rewrites_the_end() {
    let mut poll = engine::initialize_poll(9, b"p".to_vec(), 100, 200, ident(5));
    assert_eq!(
        engine::close_poll_early(&mut poll, &ident(6), 150),
        Err(VotingError::Unauthorized)
    );
    assert_eq!(poll.poll_end, 200);
    assert_eq!(engine::close_poll_early(&mut poll, &ident(5), 150), Ok(()));
    assert_eq!(poll.poll_end, 150);
    assert_eq!(
        engine::close_poll_early(&mut poll, &ident(5), 151),
        Err(VotingError::PollAlreadyEnded)
    );
}

#[test]
fn engine_close_poll_early_stores_the_timestamp_as_unsigned() {
    // The host clock is signed; the stored end is its unsigned reading.
    let mut poll = engine::initialize_poll(9, b"p".to_vec(), 100, 200, ident(5));
    assert_eq!(engine::close_poll_early(&mut poll, &ident(5), -5), Ok(()));
    assert_eq!(poll.poll_end, u64::MAX - 4);
}

#[test]
fn min_balance_is_one_unit() {
    assert_eq!(MIN_BALANCE_TO_VOTE, 1_000_000_000);
}
