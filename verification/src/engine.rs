//! The election ledger itself: two append-only identity registries, a
//! single-write ballot box, and the three-window schedule that gates every
//! operation. Phase state is derived from `(schedule, now)` on each call,
//! never stored. The host passes in the clock reading and the caller's
//! identity; every operation is a pure function of those plain values and
//! the ledger state.

use vstd::prelude::*;

verus! {

use crate::duration::BallotDuration;
use crate::event::Event;
use crate::event::EventTypes;
use vstd::math::min;

/// Why an operation was refused. Every kind is terminal for the
/// triggering call; no state is changed when one is returned.
#[derive(Clone, Copy, PartialEq, Eq, Structural, Debug)]
pub enum BallotError {
    /// Registration or voting attempted before its window starts.
    PhaseNotYetOpen,
    /// Registration or voting attempted at or after its window's end.
    PhaseAlreadyClosed,
    /// Duplicate candidate or voter registration.
    AlreadyRegistered,
    /// A voter attempting a second vote.
    AlreadyVoted,
    /// A vote cast for an identity not in the candidate registry.
    UnknownCandidate,
    /// A vote cast by an identity not in the voter registry.
    NotRegistered,
    /// Results requested while some window is still open.
    ResultsNotYetAvailable,
}

impl BallotError {
    /// The reason text carried by failure notifications.
    pub open spec fn message_spec(self) -> Seq<char> {
        match self {
            BallotError::PhaseNotYetOpen => "phase has not started"@,
            BallotError::PhaseAlreadyClosed => "phase has ended"@,
            BallotError::AlreadyRegistered => "already registered"@,
            BallotError::AlreadyVoted => "already voted"@,
            BallotError::UnknownCandidate => "unrecognised candidate"@,
            BallotError::NotRegistered => "not registered"@,
            BallotError::ResultsNotYetAvailable => "results not yet available"@,
        }
    }

    pub fn message(&self) -> (r: String)
        ensures
            r@ == self.message_spec(),
    {
        match self {
            BallotError::PhaseNotYetOpen => String::from_str("phase has not started"),
            BallotError::PhaseAlreadyClosed => String::from_str("phase has ended"),
            BallotError::AlreadyRegistered => String::from_str("already registered"),
            BallotError::AlreadyVoted => String::from_str("already voted"),
            BallotError::UnknownCandidate => String::from_str("unrecognised candidate"),
            BallotError::NotRegistered => String::from_str("not registered"),
            BallotError::ResultsNotYetAvailable => String::from_str("results not yet available"),
        }
    }
}

/// The identities of a registry, as character sequences.
pub open spec fn ids_view(v: Seq<String>) -> Seq<Seq<char>> {
    v.map_values(|s: String| s@)
}

/// The ballot-box entries, as pairs of character sequences
/// `(voter, candidate)` in insertion order.
pub open spec fn pairs_view(v: Seq<(String, String)>) -> Seq<(Seq<char>, Seq<char>)> {
    v.map_values(|p: (String, String)| (p.0@, p.1@))
}

/// The voter of each ballot-box entry, in the same order as the entries.
pub open spec fn vote_keys(s: Seq<(Seq<char>, Seq<char>)>) -> Seq<Seq<char>> {
    s.map_values(|p: (Seq<char>, Seq<char>)| p.0)
}

/// No identity occurs twice.
pub open spec fn distinct_seq(s: Seq<Seq<char>>) -> bool {
    forall|i: int, j: int| 0 <= i < j < s.len() ==> s[i] != s[j]
}

/// How many entries name `c` as the chosen candidate.
pub open spec fn count_for(s: Seq<(Seq<char>, Seq<char>)>, c: Seq<char>) -> nat
    decreases s.len(),
{
    if s.len() == 0 {
        0
    } else {
        count_for(s.drop_last(), c) + if s.last().1 == c {
            1nat
        } else {
            0nat
        }
    }
}

/// The page of up to `limit` entries starting at index `from`: over-length
/// requests are clipped to what is there, never padded and never refused.
pub open spec fn page(s: Seq<(Seq<char>, Seq<char>)>, from: int, limit: int) -> Seq<
    (Seq<char>, Seq<char>),
>
    recommends
        0 <= from,
        0 <= limit,
{
    s.subrange(min(from, s.len() as int), min(from + limit, s.len() as int))
}

proof fn lemma_ids_view_push(v: Seq<String>, s: String)
    ensures
        ids_view(v.push(s)) == ids_view(v).push(s@),
{
    assert(ids_view(v.push(s)) =~= ids_view(v).push(s@));
}

proof fn lemma_pairs_view_push(v: Seq<(String, String)>, p: (String, String))
    ensures
        pairs_view(v.push(p)) == pairs_view(v).push((p.0@, p.1@)),
{
    assert(pairs_view(v.push(p)) =~= pairs_view(v).push((p.0@, p.1@)));
}

proof fn lemma_vote_keys_push(s: Seq<(Seq<char>, Seq<char>)>, p: (Seq<char>, Seq<char>))
    ensures
        vote_keys(s.push(p)) == vote_keys(s).push(p.0),
{
    assert(vote_keys(s.push(p)) =~= vote_keys(s).push(p.0));
}

proof fn lemma_distinct_push(s: Seq<Seq<char>>, x: Seq<char>)
    requires
        distinct_seq(s),
        !s.contains(x),
    ensures
        distinct_seq(s.push(x)),
{
    assert forall|i: int, j: int| 0 <= i < j < s.push(x).len() implies s.push(x)[i] != s.push(
        x,
    )[j] by {
        if j == s.len() {
            assert(s.push(x)[i] == s[i]);
            assert(s[i] != x);
        }
    }
}

proof fn lemma_contains_push(s: Seq<Seq<char>>, x: Seq<char>, y: Seq<char>)
    requires
        s.contains(y),
    ensures
        s.push(x).contains(y),
{
    let k = choose|k: int| 0 <= k < s.len() && s[k] == y;
    assert(s.push(x)[k] == y);
}

proof fn lemma_count_for_take_step(s: Seq<(Seq<char>, Seq<char>)>, c: Seq<char>, i: int)
    requires
        0 <= i < s.len(),
    ensures
        count_for(s.take(i + 1), c) == count_for(s.take(i), c) + if s[i].1 == c {
            1int
        } else {
            0int
        },
{
    assert(s.take(i + 1).drop_last() =~= s.take(i));
    assert(s.take(i + 1).last() == s[i]);
}

/// Copy out a registry as owned strings, in its stored order.
fn clone_ids(ids: &Vec<String>) -> (r: Vec<String>)
    ensures
        r@ == ids@,
{
    let mut r: Vec<String> = Vec::new();
    let mut i: usize = 0;
    proof {
        assert(r@ =~= ids@.take(0));
    }
    while i < ids.len()
        invariant
            0 <= i <= ids.len(),
            r@ == ids@.take(i as int),
        decreases ids.len() - i,
    {
        r.push(ids[i].clone());
        i += 1;
        proof {
            assert(r@ =~= ids@.take(i as int));
        }
    }
    proof {
        assert(ids@.take(ids@.len() as int) =~= ids@);
    }
    r
}

/// True iff some identity of `ids` reads as `id`.
fn contains_id(ids: &Vec<String>, id: &String) -> (r: bool)
    ensures
        r == ids_view(ids@).contains(id@),
{
    let mut i: usize = 0;
    while i < ids.len()
        invariant
            0 <= i <= ids.len(),
            forall|j: int| 0 <= j < i ==> ids_view(ids@)[j] != id@,
        decreases ids.len() - i,
    {
        if ids[i] == *id {
            proof {
                assert(ids_view(ids@)[i as int] == id@);
            }
            return true;
        }
        i += 1;
    }
    false
}

/// The index of the ballot-box entry whose voter reads as `voter`, if any.
fn vote_index(votes: &Vec<(String, String)>, voter: &String) -> (r: Option<usize>)
    ensures
        (match r {
            Some(i) => i < votes.len() && pairs_view(votes@)[i as int].0 == voter@,
            None => !vote_keys(pairs_view(votes@)).contains(voter@),
        }),
{
    let mut i: usize = 0;
    while i < votes.len()
        invariant
            0 <= i <= votes.len(),
            forall|j: int| 0 <= j < i ==> pairs_view(votes@)[j].0 != voter@,
        decreases votes.len() - i,
    {
        if votes[i].0 == *voter {
            proof {
                assert(pairs_view(votes@)[i as int].0 == voter@);
            }
            return Some(i);
        }
        i += 1;
    }
    proof {
        assert forall|j: int| 0 <= j < vote_keys(pairs_view(votes@)).len() implies vote_keys(
            pairs_view(votes@),
        )[j] != voter@ by {
            assert(pairs_view(votes@)[j].0 != voter@);
        }
    }
    None
}

/// The election ledger: the three-window schedule, the two identity
/// registries, and the ballot box in insertion order.
pub struct Ballot {
    pub voters: Vec<String>,
    pub votes: Vec<(String, String)>,
    pub candidates: Vec<String>,
    pub election_duration: BallotDuration,
    pub candidate_registration_duration: BallotDuration,
    pub voter_registration_duration: BallotDuration,
}

impl Ballot {
    pub open spec fn candidates_view(self) -> Seq<Seq<char>> {
        ids_view(self.candidates@)
    }

    pub open spec fn voters_view(self) -> Seq<Seq<char>> {
        ids_view(self.voters@)
    }

    pub open spec fn vote_pairs(self) -> Seq<(Seq<char>, Seq<char>)> {
        pairs_view(self.votes@)
    }

    pub open spec fn is_candidate(self, id: Seq<char>) -> bool {
        self.candidates_view().contains(id)
    }

    pub open spec fn is_voter(self, id: Seq<char>) -> bool {
        self.voters_view().contains(id)
    }

    pub open spec fn has_voted(self, id: Seq<char>) -> bool {
        vote_keys(self.vote_pairs()).contains(id)
    }

    /// The ledger's invariant: the three windows are well formed and chain
    /// with no gap; no identity occurs twice in a registry; each voter has
    /// at most one ballot-box entry; and every entry's voter and candidate
    /// were registered when it was written.
    pub open spec fn wf(self) -> bool {
        &&& self.candidate_registration_duration.wf()
        &&& self.voter_registration_duration.wf()
        &&& self.election_duration.wf()
        &&& self.candidate_registration_duration.end == self.voter_registration_duration.start
        &&& self.voter_registration_duration.end == self.election_duration.start
        &&& distinct_seq(self.candidates_view())
        &&& distinct_seq(self.voters_view())
        &&& distinct_seq(vote_keys(self.vote_pairs()))
        &&& forall|i: int|
            0 <= i < self.vote_pairs().len() ==> self.is_voter(#[trigger] self.vote_pairs()[i].0)
                && self.is_candidate(self.vote_pairs()[i].1)
    }

    /// Admission rule for `register_candidate`: the reason it is refused
    /// at `now` for identity `id`, or `None` when it must succeed.
    pub open spec fn register_candidate_error(self, now: u64, id: Seq<char>) -> Option<
        BallotError,
    > {
        if self.candidate_registration_duration.in_future_at(now) {
            Some(BallotError::PhaseNotYetOpen)
        } else if self.candidate_registration_duration.expired_at(now) {
            Some(BallotError::PhaseAlreadyClosed)
        } else if self.is_candidate(id) {
            Some(BallotError::AlreadyRegistered)
        } else {
            None
        }
    }

    /// Admission rule for `register_voter`: the reason it is refused at
    /// `now` for identity `id`, or `None` when it must succeed.
    pub open spec fn register_voter_error(self, now: u64, id: Seq<char>) -> Option<BallotError> {
        if self.voter_registration_duration.in_future_at(now) {
            Some(BallotError::PhaseNotYetOpen)
        } else if self.voter_registration_duration.expired_at(now) {
            Some(BallotError::PhaseAlreadyClosed)
        } else if self.is_voter(id) {
            Some(BallotError::AlreadyRegistered)
        } else {
            None
        }
    }

    /// Admission rule for `cast_vote`: the reason a ballot by `voter`
    /// naming `candidate` is refused at `now`, or `None` when it must
    /// succeed.
    /// A repeated ballot is reported as `AlreadyVoted` whatever candidate
    /// it names, so that gate comes before the candidate lookup.
    pub open spec fn cast_vote_error(self, now: u64, voter: Seq<char>, candidate: Seq<char>)
        -> Option<BallotError> {
        if self.election_duration.in_future_at(now) {
            Some(BallotError::PhaseNotYetOpen)
        } else if self.election_duration.expired_at(now) {
            Some(BallotError::PhaseAlreadyClosed)
        } else if self.has_voted(voter) {
            Some(BallotError::AlreadyVoted)
        } else if !self.is_candidate(candidate) {
            Some(BallotError::UnknownCandidate)
        } else if !self.is_voter(voter) {
            Some(BallotError::NotRegistered)
        } else {
            None
        }
    }

    /// Build a fresh ledger at creation time `created_at`, chaining the
    /// three windows: candidate registration starts at `created_at` and
    /// runs for `candidate_registration` ticks, voter registration starts
    /// where it ends, and voting starts where voter registration ends.
    /// A zero duration or a timeline that would not fit in the clock's
    /// range is refused.
    pub fn new(
        created_at: u64,
        candidate_registration: u64,
        voter_registration: u64,
        voting: u64,
    ) -> (r: Option<Ballot>)
        ensures
            (r is Some <==> 1 <= candidate_registration && 1 <= voter_registration && 1 <= voting
                && created_at + candidate_registration + voter_registration + voting
                <= u64::MAX),
            (match r {
                Some(b) => {
                    &&& b.wf()
                    &&& b.candidates@.len() == 0
                    &&& b.voters@.len() == 0
                    &&& b.votes@.len() == 0
                    &&& b.candidate_registration_duration.start == created_at
                    &&& b.candidate_registration_duration.end == created_at
                        + candidate_registration
                    &&& b.voter_registration_duration.start == created_at
                        + candidate_registration
                    &&& b.voter_registration_duration.end == created_at + candidate_registration
                        + voter_registration
                    &&& b.election_duration.start == created_at + candidate_registration
                        + voter_registration
                    &&& b.election_duration.end == created_at + candidate_registration
                        + voter_registration + voting
                    &&& b.candidate_registration_duration.name@ == "Candidates"@
                    &&& b.voter_registration_duration.name@ == "Voters"@
                    &&& b.election_duration.name@ == "Election"@
                },
                None => true,
            }),
    {
        if candidate_registration == 0 || voter_registration == 0 || voting == 0 {
            return None;
        }
        if candidate_registration > u64::MAX - created_at {
            return None;
        }
        let candidates_end: u64 = created_at + candidate_registration;
        if voter_registration > u64::MAX - candidates_end {
            return None;
        }
        let voters_end: u64 = candidates_end + voter_registration;
        if voting > u64::MAX - voters_end {
            return None;
        }
        let voting_end: u64 = voters_end + voting;
        let candidate_registration_duration = BallotDuration::new(
            created_at,
            candidates_end,
            Some(String::from_str("Candidates")),
        );
        let voter_registration_duration = BallotDuration::new(
            candidates_end,
            voters_end,
            Some(String::from_str("Voters")),
        );
        let election_duration = BallotDuration::new(
            voters_end,
            voting_end,
            Some(String::from_str("Election")),
        );
        Some(
            Ballot {
                voters: Vec::new(),
                votes: Vec::new(),
                candidates: Vec::new(),
                election_duration,
                candidate_registration_duration,
                voter_registration_duration,
            },
        )
    }

    /// The three windows: candidate registration, voter registration,
    /// voting, in that order.
    pub fn get_election_timeline(self) -> (r: (BallotDuration, BallotDuration, BallotDuration))
        ensures
            r.0 == self.candidate_registration_duration,
            r.1 == self.voter_registration_duration,
            r.2 == self.election_duration,
    {
        (
            self.candidate_registration_duration,
            self.voter_registration_duration,
            self.election_duration,
        )
    }

    pub fn get_candidates(&self) -> (r: Vec<String>)
        ensures
            r@ == self.candidates@,
    {
        clone_ids(&self.candidates)
    }

    pub fn get_voters(&self) -> (r: Vec<String>)
        ensures
            r@ == self.voters@,
    {
        clone_ids(&self.voters)
    }

    /// Up to `limit` ballot-box entries starting at the `from_index`-th,
    /// in the box's stable insertion order; clipped, never padded.
    pub fn get_votes(&self, from_index: u64, limit: u64) -> (r: Vec<(String, String)>)
        ensures
            pairs_view(r@) == page(self.vote_pairs(), from_index as int, limit as int),
    {
        let len: usize = self.votes.len();
        let start: usize = if from_index >= len as u64 {
            len
        } else {
            from_index as usize
        };
        let avail: usize = len - start;
        let take_n: usize = if limit >= avail as u64 {
            avail
        } else {
            limit as usize
        };
        let end: usize = start + take_n;
        let mut r: Vec<(String, String)> = Vec::new();
        let mut i: usize = start;
        proof {
            assert(pairs_view(r@) =~= self.vote_pairs().subrange(start as int, start as int));
        }
        while i < end
            invariant
                start <= i <= end,
                end <= self.votes@.len(),
                pairs_view(r@) == self.vote_pairs().subrange(start as int, i as int),
            decreases end - i,
        {
            let pair = (self.votes[i].0.clone(), self.votes[i].1.clone());
            let ghost r0 = r@;
            r.push(pair);
            i += 1;
            proof {
                lemma_pairs_view_push(r0, pair);
                assert(self.vote_pairs()[i - 1] == (pair.0@, pair.1@));
                assert(pairs_view(r@) =~= self.vote_pairs().subrange(start as int, i as int));
            }
        }
        proof {
            assert(self.vote_pairs().subrange(start as int, end as int) =~= page(
                self.vote_pairs(),
                from_index as int,
                limit as int,
            ));
        }
        r
    }

    /// The candidate `voter` voted for, if the ballot box holds an entry
    /// for `voter`.
    pub fn get_vote(&self, voter: &String) -> (r: Option<String>)
        ensures
            r is Some <==> self.has_voted(voter@),
            (match r {
                Some(c) => self.vote_pairs().contains((voter@, c@)),
                None => true,
            }),
    {
        match vote_index(&self.votes, voter) {
            Some(i) => {
                let c = self.votes[i].1.clone();
                proof {
                    assert(self.vote_pairs()[i as int] == (voter@, c@));
                    assert(vote_keys(self.vote_pairs())[i as int] == voter@);
                }
                Some(c)
            },
            None => None,
        }
    }

    /// How many ballot-box entries chose `candidate`; zero for an identity
    /// nobody voted for.
    pub fn get_candidate_votes_count(&self, candidate: &String) -> (r: u64)
        ensures
            r == count_for(self.vote_pairs(), candidate@),
    {
        let mut count: u64 = 0;
        let mut i: usize = 0;
        proof {
            assert(self.vote_pairs().take(0) =~= Seq::<(Seq<char>, Seq<char>)>::empty());
        }
        while i < self.votes.len()
            invariant
                0 <= i <= self.votes@.len(),
                count == count_for(self.vote_pairs().take(i as int), candidate@),
                count <= i,
            decreases self.votes@.len() - i,
        {
            proof {
                lemma_count_for_take_step(self.vote_pairs(), candidate@, i as int);
                assert(self.vote_pairs()[i as int].1 == self.votes@[i as int].1@);
            }
            if self.votes[i].1 == *candidate {
                count += 1;
            }
            i += 1;
        }
        proof {
            assert(self.vote_pairs().take(self.votes@.len() as int) =~= self.vote_pairs());
        }
        count
    }

    pub fn voter_has_registered(&self, voter: &String) -> (r: bool)
        ensures
            r == self.is_voter(voter@),
    {
        contains_id(&self.voters, voter)
    }

    pub fn candidate_has_registered(&self, candidate: &String) -> (r: bool)
        ensures
            r == self.is_candidate(candidate@),
    {
        contains_id(&self.candidates, candidate)
    }

    pub fn voter_has_voted(&self, voter: &String) -> (r: bool)
        ensures
            r == self.has_voted(voter@),
    {
        let found = vote_index(&self.votes, voter);
        proof {
            if found is Some {
                let i = found->0 as int;
                assert(vote_keys(self.vote_pairs())[i] == self.vote_pairs()[i].0);
            }
        }
        found.is_some()
    }

    /// Register the caller as a candidate. Succeeds exactly when the
    /// candidate-registration window is active at `now` and the caller is
    /// not yet registered; on success the caller is appended to the
    /// candidate registry and the returned notification names them. On
    /// failure the ledger is unchanged.
    pub fn register_candidate(&mut self, now: u64, caller: String) -> (r: Result<
        Event,
        BallotError,
    >)
        requires
            old(self).wf(),
        ensures
            final(self).wf(),
            final(self).voters == old(self).voters,
            final(self).votes == old(self).votes,
            final(self).candidate_registration_duration == old(
                self,
            ).candidate_registration_duration,
            final(self).voter_registration_duration == old(self).voter_registration_duration,
            final(self).election_duration == old(self).election_duration,
            (match old(self).register_candidate_error(now, caller@) {
                Some(e) => r == Err::<Event, BallotError>(e) && *final(self) == *old(self),
                None => r is Ok && final(self).candidates_view() == old(
                    self,
                ).candidates_view().push(caller@),
            }),
            (match r {
                Ok(ev) => ev.event_type == EventTypes::CandidateRegistered
                    && ev.event_data@.len() == 1 && ev.event_data@[0].0@ == "candidate"@
                    && ev.event_data@[0].1@ == caller@,
                Err(e) => Some(e) == old(self).register_candidate_error(now, caller@),
            }),
    {
        if self.candidate_registration_duration.is_in_future(now) {
            return Err(BallotError::PhaseNotYetOpen);
        }
        if self.candidate_registration_duration.is_expired(now) {
            return Err(BallotError::PhaseAlreadyClosed);
        }
        if contains_id(&self.candidates, &caller) {
            return Err(BallotError::AlreadyRegistered);
        }
        let mut data: Vec<(String, String)> = Vec::new();
        data.push((String::from_str("candidate"), caller.clone()));
        let ghost c0 = self.candidates@;
        let ghost callg = caller;
        self.candidates.push(caller);
        proof {
            lemma_ids_view_push(c0, callg);
            lemma_distinct_push(ids_view(c0), callg@);
            assert forall|i: int| 0 <= i < self.vote_pairs().len() implies self.is_voter(
                #[trigger] self.vote_pairs()[i].0,
            ) && self.is_candidate(self.vote_pairs()[i].1) by {
                assert(old(self).is_voter(old(self).vote_pairs()[i].0));
                assert(old(self).is_candidate(old(self).vote_pairs()[i].1));
                lemma_contains_push(ids_view(c0), callg@, old(self).vote_pairs()[i].1);
            }
        }
        Ok(Event::new(EventTypes::CandidateRegistered, data))
    }

    /// Register the caller as a voter. Succeeds exactly when the
    /// voter-registration window is active at `now` and the caller is not
    /// yet registered; on success the caller is appended to the voter
    /// registry and the returned notification names them. On failure the
    /// ledger is unchanged.
    pub fn register_voter(&mut self, now: u64, caller: String) -> (r: Result<Event, BallotError>)
        requires
            old(self).wf(),
        ensures
            final(self).wf(),
            final(self).candidates == old(self).candidates,
            final(self).votes == old(self).votes,
            final(self).candidate_registration_duration == old(
                self,
            ).candidate_registration_duration,
            final(self).voter_registration_duration == old(self).voter_registration_duration,
            final(self).election_duration == old(self).election_duration,
            (match old(self).register_voter_error(now, caller@) {
                Some(e) => r == Err::<Event, BallotError>(e) && *final(self) == *old(self),
                None => r is Ok && final(self).voters_view() == old(self).voters_view().push(
                    caller@,
                ),
            }),
            (match r {
                Ok(ev) => ev.event_type == EventTypes::VoterRegistered && ev.event_data@.len()
                    == 1 && ev.event_data@[0].0@ == "voter"@ && ev.event_data@[0].1@ == caller@,
                Err(e) => Some(e) == old(self).register_voter_error(now, caller@),
            }),
    {
        if self.voter_registration_duration.is_in_future(now) {
            return Err(BallotError::PhaseNotYetOpen);
        }
        if self.voter_registration_duration.is_expired(now) {
            return Err(BallotError::PhaseAlreadyClosed);
        }
        if contains_id(&self.voters, &caller) {
            return Err(BallotError::AlreadyRegistered);
        }
        let mut data: Vec<(String, String)> = Vec::new();
        data.push((String::from_str("voter"), caller.clone()));
        let ghost v0 = self.voters@;
        let ghost callg = caller;
        self.voters.push(caller);
        proof {
            lemma_ids_view_push(v0, callg);
            lemma_distinct_push(ids_view(v0), callg@);
            assert forall|i: int| 0 <= i < self.vote_pairs().len() implies self.is_voter(
                #[trigger] self.vote_pairs()[i].0,
            ) && self.is_candidate(self.vote_pairs()[i].1) by {
                assert(old(self).is_voter(old(self).vote_pairs()[i].0));
                assert(old(self).is_candidate(old(self).vote_pairs()[i].1));
                lemma_contains_push(ids_view(v0), callg@, old(self).vote_pairs()[i].0);
            }
        }
        Ok(Event::new(EventTypes::VoterRegistered, data))
    }

    /// Cast the caller's ballot for `candidate`. Succeeds exactly when the
    /// voting window is active at `now`, the caller has not voted yet, the
    /// named candidate is registered and the caller is a registered voter;
    /// the entry `(caller, candidate)` is then appended to the ballot box.
    /// A repeated ballot is refused as `AlreadyVoted` whatever candidate
    /// it names. On failure the ledger is unchanged.
    pub fn cast_vote(&mut self, now: u64, caller: String, candidate: String) -> (r: Result<
        Event,
        BallotError,
    >)
        requires
            old(self).wf(),
        ensures
            final(self).wf(),
            final(self).voters == old(self).voters,
            final(self).candidates == old(self).candidates,
            final(self).candidate_registration_duration == old(
                self,
            ).candidate_registration_duration,
            final(self).voter_registration_duration == old(self).voter_registration_duration,
            final(self).election_duration == old(self).election_duration,
            (match old(self).cast_vote_error(now, caller@, candidate@) {
                Some(e) => r == Err::<Event, BallotError>(e) && *final(self) == *old(self),
                None => r is Ok && final(self).vote_pairs() == old(self).vote_pairs().push(
                    (caller@, candidate@),
                ),
            }),
            (match r {
                Ok(ev) => ev.event_type == EventTypes::CastVote && ev.event_data@.len() == 2
                    && ev.event_data@[0].0@ == "voter"@ && ev.event_data@[0].1@ == caller@
                    && ev.event_data@[1].0@ == "candidate"@ && ev.event_data@[1].1@ == candidate@,
                Err(e) => Some(e) == old(self).cast_vote_error(now, caller@, candidate@),
            }),
    {
        if self.election_duration.is_in_future(now) {
            return Err(BallotError::PhaseNotYetOpen);
        }
        if self.election_duration.is_expired(now) {
            return Err(BallotError::PhaseAlreadyClosed);
        }
        if self.voter_has_voted(&caller) {
            return Err(BallotError::AlreadyVoted);
        }
        if !self.candidate_has_registered(&candidate) {
            return Err(BallotError::UnknownCandidate);
        }
        if !self.voter_has_registered(&caller) {
            return Err(BallotError::NotRegistered);
        }
        let mut data: Vec<(String, String)> = Vec::new();
        data.push((String::from_str("voter"), caller.clone()));
        data.push((String::from_str("candidate"), candidate.clone()));
        let ghost v0 = self.votes@;
        let ghost callg = caller;
        let ghost candg = candidate;
        self.votes.push((caller, candidate));
        proof {
            lemma_pairs_view_push(v0, (callg, candg));
            lemma_vote_keys_push(pairs_view(v0), (callg@, candg@));
            lemma_distinct_push(vote_keys(pairs_view(v0)), callg@);
            assert forall|i: int| 0 <= i < self.vote_pairs().len() implies self.is_voter(
                #[trigger] self.vote_pairs()[i].0,
            ) && self.is_candidate(self.vote_pairs()[i].1) by {
                if i < v0.len() {
                    assert(old(self).is_voter(old(self).vote_pairs()[i].0));
                    assert(old(self).is_candidate(old(self).vote_pairs()[i].1));
                } else {
                    assert(self.vote_pairs()[i] == (callg@, candg@));
                }
            }
        }
        Ok(Event::new(EventTypes::CastVote, data))
    }

    /// The tally: one `(candidate, votes)` pair per registered candidate,
    /// in registry order, including zero counts. Available exactly once
    /// all three windows have expired; before that the request is refused
    /// with `ResultsNotYetAvailable` (never a partial tally).
    pub fn get_election_results(&self, now: u64) -> (r: Result<Vec<(String, u64)>, BallotError>)
        requires
            self.wf(),
        ensures
            (r is Ok <==> self.candidate_registration_duration.expired_at(now)
                && self.voter_registration_duration.expired_at(now)
                && self.election_duration.expired_at(now)),
            (match r {
                Ok(t) => t@.len() == self.candidates@.len() && forall|i: int|
                    0 <= i < t@.len() ==> (#[trigger] t@[i]).0@ == self.candidates_view()[i]
                        && t@[i].1 == count_for(self.vote_pairs(), self.candidates_view()[i]),
                Err(e) => e == BallotError::ResultsNotYetAvailable,
            }),
    {
        if !self.election_duration.is_expired(now) {
            return Err(BallotError::ResultsNotYetAvailable);
        }
        proof {
            assert(self.candidate_registration_duration.expired_at(now));
            assert(self.voter_registration_duration.expired_at(now));
        }
        let mut t: Vec<(String, u64)> = Vec::new();
        let mut i: usize = 0;
        while i < self.candidates.len()
            invariant
                0 <= i <= self.candidates@.len(),
                t@.len() == i,
                forall|j: int|
                    0 <= j < i ==> (#[trigger] t@[j]).0@ == self.candidates_view()[j] && t@[j].1
                        == count_for(self.vote_pairs(), self.candidates_view()[j]),
            decreases self.candidates@.len() - i,
        {
            let name = self.candidates[i].clone();
            let n = self.get_candidate_votes_count(&name);
            t.push((name, n));
            i += 1;
        }
        Ok(t)
    }
}

/// The notification for a refused operation: the identity field the
/// operation would have reported on success, then an `error` field
/// carrying the reason text.
pub fn failure_event(kind: EventTypes, field: String, id: String, err: &BallotError) -> (e: Event)
    ensures
        e.event_type == kind,
        e.event_data@.len() == 2,
        e.event_data@[0].0 == field,
        e.event_data@[0].1 == id,
        e.event_data@[1].0@ == "error"@,
        e.event_data@[1].1@ == err.message_spec(),
{
    let mut data: Vec<(String, String)> = Vec::new();
    data.push((field, id));
    data.push((String::from_str("error"), err.message()));
    Event::new(kind, data)
}

/// Law: in every well-formed ledger the three windows chain with no gap
/// and no overlap: candidate registration ends exactly where voter
/// registration starts, and voter registration ends exactly where voting
/// starts. Every constructor and operation of the ledger establishes or
/// preserves `wf`, so this holds of every reachable state.
pub proof fn lemma_schedule_chained(b: Ballot)
    requires
        b.wf(),
    ensures
        b.candidate_registration_duration.end == b.voter_registration_duration.start,
        b.voter_registration_duration.end == b.election_duration.start,
{
}

/// Law: in every well-formed ledger a voter appears in the ballot box at
/// most once: two distinct entries never share their voter.
pub proof fn lemma_one_entry_per_voter(b: Ballot, i: int, j: int)
    requires
        b.wf(),
        0 <= i < j < b.vote_pairs().len(),
    ensures
        b.vote_pairs()[i].0 != b.vote_pairs()[j].0,
{
    assert(vote_keys(b.vote_pairs())[i] == b.vote_pairs()[i].0);
    assert(vote_keys(b.vote_pairs())[j] == b.vote_pairs()[j].0);
}

/// Law: while voting is open, a voter who already has a ballot-box entry
/// is refused with `AlreadyVoted`, whatever candidate the repeated ballot
/// names. (Outside the voting window the phase error is reported
/// instead.)
pub proof fn lemma_second_vote_rejected(b: Ballot, now: u64, voter: Seq<char>, candidate: Seq<char>)
    requires
        b.election_duration.active_at(now),
        b.has_voted(voter),
    ensures
        b.cast_vote_error(now, voter, candidate) == Some(BallotError::AlreadyVoted),
{
}

/// Law: a page that starts at the beginning and covers the whole ballot
/// box is the full enumeration itself, in order; a count over the ballot
/// box is therefore a count over that full enumeration.
pub proof fn lemma_full_page(s: Seq<(Seq<char>, Seq<char>)>, n: int)
    requires
        n >= s.len(),
    ensures
        page(s, 0, n) == s,
{
    assert(page(s, 0, n) =~= s);
}

/// Law: paging is exact: the single full page of a ballot box equals any
/// split of it into a prefix page of `k` entries and the page of the rest,
/// whenever `n` covers the whole box.
pub proof fn lemma_pagination_split(s: Seq<(Seq<char>, Seq<char>)>, k: int, n: int)
    requires
        0 <= k <= s.len(),
        n >= s.len(),
    ensures
        page(s, 0, n) == page(s, 0, k) + page(s, k, n - k),
{
    assert(page(s, 0, n) =~= page(s, 0, k) + page(s, k, n - k));
}

} // verus!

