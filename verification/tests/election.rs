use ballot::engine::failure_event;
use ballot::event::EventTypes;
use ballot::{Ballot, BallotError};

fn s(x: &str) -> String {
    String::from(x)
}

/// A ledger created at tick 0 with windows [0,5), [5,10), [10,20).
fn small_ballot() -> Ballot {
    Ballot::new(0, 5, 5, 10).unwrap()
}

#[test]
fn construction_chains_the_windows() {
    let b = small_ballot();
    let (cand, voter, vote) = b.get_election_timeline();
    assert_eq!(cand.start, 0);
    assert_eq!(cand.end, 5);
    assert_eq!(voter.start, 5);
    assert_eq!(voter.end, 10);
    assert_eq!(vote.start, 10);
    assert_eq!(vote.end, 20);
    assert_eq!(cand.end, voter.start);
    assert_eq!(voter.end, vote.start);
    assert_eq!(cand.name, "Candidates");
    assert_eq!(voter.name, "Voters");
    assert_eq!(vote.name, "Election");
}

#[test]
fn construction_rejects_degenerate_timelines() {
    assert!(Ballot::new(0, 0, 5, 10).is_none());
    assert!(Ballot::new(0, 5, 0, 10).is_none());
    assert!(Ballot::new(0, 5, 5, 0).is_none());
    assert!(Ballot::new(u64::MAX - 5, 3, 2, 2).is_none());
    assert!(Ballot::new(u64::MAX - 3, 1, 1, 1).is_some());
    assert!(Ballot::new(0, 1, 1, 1).is_some());
}

#[test]
fn full_election_round() {
    let mut b = small_ballot();
    let r1 = b.register_candidate(3, s("alice"));
    let ev1 = r1.unwrap();
    assert!(ev1.event_type == EventTypes::CandidateRegistered);
    assert_eq!(ev1.event_data, vec![(s("candidate"), s("alice"))]);

    let r2 = b.register_voter(7, s("bob"));
    let ev2 = r2.unwrap();
    assert!(ev2.event_type == EventTypes::VoterRegistered);
    assert_eq!(ev2.event_data, vec![(s("voter"), s("bob"))]);

    let r3 = b.cast_vote(12, s("bob"), s("alice"));
    let ev3 = r3.unwrap();
    assert!(ev3.event_type == EventTypes::CastVote);
    assert_eq!(ev3.event_data, vec![(s("voter"), s("bob")), (s("candidate"), s("alice"))]);

    let r4 = b.cast_vote(13, s("bob"), s("alice"));
    assert_eq!(r4.unwrap_err(), BallotError::AlreadyVoted);

    let results = b.get_election_results(25).unwrap();
    assert_eq!(results, vec![(s("alice"), 1)]);
}

#[test]
fn voter_registration_before_its_window() {
    // at tick 1 the candidate window is active but the voter window,
    // which starts at 5, is still in the future
    let mut b = small_ballot();
    let r = b.register_voter(1, s("bob"));
    assert_eq!(r.unwrap_err(), BallotError::PhaseNotYetOpen);
}

#[test]
fn registration_after_window_end() {
    let mut b = small_ballot();
    assert_eq!(b.register_candidate(5, s("alice")).unwrap_err(), BallotError::PhaseAlreadyClosed);
    assert_eq!(b.register_voter(10, s("bob")).unwrap_err(), BallotError::PhaseAlreadyClosed);
    assert_eq!(b.cast_vote(20, s("bob"), s("alice")).unwrap_err(), BallotError::PhaseAlreadyClosed);
    assert_eq!(b.cast_vote(9, s("bob"), s("alice")).unwrap_err(), BallotError::PhaseNotYetOpen);
}

#[test]
fn duplicate_registrations_are_refused() {
    let mut b = small_ballot();
    b.register_candidate(3, s("alice")).unwrap();
    assert_eq!(b.register_candidate(4, s("alice")).unwrap_err(), BallotError::AlreadyRegistered);
    b.register_voter(7, s("bob")).unwrap();
    assert_eq!(b.register_voter(8, s("bob")).unwrap_err(), BallotError::AlreadyRegistered);
    assert_eq!(b.get_candidates(), vec![s("alice")]);
    assert_eq!(b.get_voters(), vec![s("bob")]);
}

#[test]
fn voting_checks_candidate_then_voter() {
    let mut b = small_ballot();
    b.register_candidate(3, s("alice")).unwrap();
    b.register_voter(7, s("bob")).unwrap();
    assert_eq!(
        b.cast_vote(12, s("bob"), s("carol")).unwrap_err(),
        BallotError::UnknownCandidate
    );
    assert_eq!(
        b.cast_vote(12, s("mallory"), s("alice")).unwrap_err(),
        BallotError::NotRegistered
    );
    // the failed attempts changed nothing
    assert!(b.get_vote(&s("bob")).is_none());
    assert!(!b.voter_has_voted(&s("bob")));
}

#[test]
fn second_vote_refused_whatever_candidate_it_names() {
    let mut b = small_ballot();
    b.register_candidate(2, s("alice")).unwrap();
    b.register_candidate(3, s("carol")).unwrap();
    b.register_voter(7, s("bob")).unwrap();
    b.cast_vote(11, s("bob"), s("alice")).unwrap();
    // another registered candidate, the same candidate, and an unknown
    // one: all refused as a repeated ballot
    assert_eq!(b.cast_vote(12, s("bob"), s("carol")).unwrap_err(), BallotError::AlreadyVoted);
    assert_eq!(b.cast_vote(13, s("bob"), s("alice")).unwrap_err(), BallotError::AlreadyVoted);
    assert_eq!(b.cast_vote(14, s("bob"), s("nobody")).unwrap_err(), BallotError::AlreadyVoted);
    assert_eq!(b.get_vote(&s("bob")), Some(s("alice")));
}

/// Three voters, two candidates: bob and dan choose alice, erin chooses
/// carol.
fn voted_ballot() -> Ballot {
    let mut b = small_ballot();
    b.register_candidate(1, s("alice")).unwrap();
    b.register_candidate(2, s("carol")).unwrap();
    b.register_voter(5, s("bob")).unwrap();
    b.register_voter(6, s("dan")).unwrap();
    b.register_voter(7, s("erin")).unwrap();
    b.cast_vote(10, s("bob"), s("alice")).unwrap();
    b.cast_vote(11, s("dan"), s("alice")).unwrap();
    b.cast_vote(12, s("erin"), s("carol")).unwrap();
    b
}

#[test]
fn counts_match_the_enumeration() {
    let b = voted_ballot();
    let all = b.get_votes(0, 100);
    assert_eq!(
        all,
        vec![(s("bob"), s("alice")), (s("dan"), s("alice")), (s("erin"), s("carol"))]
    );
    let count_in_enum =
        |c: &str| all.iter().filter(|(_, chosen)| chosen == c).count() as u64;
    assert_eq!(b.get_candidate_votes_count(&s("alice")), count_in_enum("alice"));
    assert_eq!(b.get_candidate_votes_count(&s("alice")), 2);
    assert_eq!(b.get_candidate_votes_count(&s("carol")), 1);
    // an identity nobody voted for counts zero
    assert_eq!(b.get_candidate_votes_count(&s("bob")), 0);
    assert_eq!(b.get_candidate_votes_count(&s("nobody")), 0);
}

#[test]
fn pagination_splits_cleanly() {
    let b = voted_ballot();
    let full = b.get_votes(0, 10);
    assert_eq!(full.len(), 3);
    for k in 0..=3u64 {
        let head = b.get_votes(0, k);
        let tail = b.get_votes(k, 10 - k);
        let mut joined = head.clone();
        joined.extend(tail);
        assert_eq!(joined, full);
    }
    // clipped, never padded; empty past the end
    assert_eq!(b.get_votes(2, 10).len(), 1);
    assert_eq!(b.get_votes(3, 10), vec![]);
    assert_eq!(b.get_votes(100, 10), vec![]);
    assert_eq!(b.get_votes(1, 0), vec![]);
}

#[test]
fn results_gated_on_all_windows_expired() {
    let b = voted_ballot();
    for now in [0u64, 3, 5, 7, 10, 12, 19] {
        assert_eq!(b.get_election_results(now).unwrap_err(), BallotError::ResultsNotYetAvailable);
    }
    let results = b.get_election_results(20).unwrap();
    assert_eq!(results, vec![(s("alice"), 2), (s("carol"), 1)]);
}

#[test]
fn results_succeed_with_zero_tallies() {
    let mut b = small_ballot();
    b.register_candidate(3, s("alice")).unwrap();
    let results = b.get_election_results(20).unwrap();
    assert_eq!(results, vec![(s("alice"), 0)]);
    // and an election with no candidates at all yields an empty tally
    let empty = small_ballot();
    assert_eq!(empty.get_election_results(25).unwrap(), vec![]);
}

#[test]
fn membership_queries() {
    let b = voted_ballot();
    assert!(b.candidate_has_registered(&s("alice")));
    assert!(!b.candidate_has_registered(&s("bob")));
    assert!(b.voter_has_registered(&s("bob")));
    assert!(!b.voter_has_registered(&s("alice")));
    assert!(b.voter_has_voted(&s("erin")));
    assert_eq!(b.get_vote(&s("erin")), Some(s("carol")));
    assert_eq!(b.get_vote(&s("alice")), None);
}

#[test]
fn failure_notification_carries_the_reason() {
    let mut b = small_ballot();
    let err = b.register_voter(1, s("bob")).unwrap_err();
    let ev = failure_event(EventTypes::VotersRegistrationFailed, s("voter"), s("bob"), &err);
    assert!(ev.event_type == EventTypes::VotersRegistrationFailed);
    assert_eq!(
        ev.event_data,
        vec![(s("voter"), s("bob")), (s("error"), s("phase has not started"))]
    );
    assert_eq!(err.message(), "phase has not started");
    assert_eq!(BallotError::AlreadyVoted.message(), "already voted");
    assert_eq!(BallotError::ResultsNotYetAvailable.message(), "results not yet available");
}
