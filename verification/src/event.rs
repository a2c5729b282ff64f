//! Structured domain notifications: each accepted or rejected state
//! transition of the ledger is described by an event kind and a list of
//! named string fields. Formatting and transmission are the host's job;
//! only the semantic content is built here.

use vstd::prelude::*;

verus! {

/// The kinds of notification the ledger can describe.
#[derive(Clone, Copy, PartialEq, Eq, Structural, Debug)]
pub enum EventTypes {
    CandidateRegistered,
    CandidatesRegistrationStarted,
    CandidateRegistrationFailed,
    VoterRegistered,
    VotersRegistrationStarted,
    VotersRegistrationFailed,
    ElectionStarted,
    ElectionEnded,
    ElectionCancelled,
    CastVote,
}

impl EventTypes {
    /// The wire label of each event kind.
    pub open spec fn label(self) -> Seq<char> {
        match self {
            EventTypes::CandidateRegistered => "candidate_registered"@,
            EventTypes::CandidatesRegistrationStarted => "candidates_registration_started"@,
            EventTypes::CandidateRegistrationFailed => "candidates_registration_failed"@,
            EventTypes::VoterRegistered => "voter_registered"@,
            EventTypes::VotersRegistrationStarted => "voters_registration_started"@,
            EventTypes::VotersRegistrationFailed => "voter_registration_failed"@,
            EventTypes::ElectionStarted => "election_started"@,
            EventTypes::ElectionEnded => "election_ended"@,
            EventTypes::ElectionCancelled => "election_cancelled"@,
            EventTypes::CastVote => "cast_vote"@,
        }
    }

    pub fn to_string(&self) -> (r: String)
        ensures
            r@ == self.label(),
    {
        match self {
            EventTypes::CandidateRegistered => String::from_str("candidate_registered"),
            EventTypes::CandidatesRegistrationStarted => {
                String::from_str("candidates_registration_started")
            },
            EventTypes::CandidateRegistrationFailed => {
                String::from_str("candidates_registration_failed")
            },
            EventTypes::VoterRegistered => String::from_str("voter_registered"),
            EventTypes::VotersRegistrationStarted => {
                String::from_str("voters_registration_started")
            },
            EventTypes::VotersRegistrationFailed => String::from_str("voter_registration_failed"),
            EventTypes::ElectionStarted => String::from_str("election_started"),
            EventTypes::ElectionEnded => String::from_str("election_ended"),
            EventTypes::ElectionCancelled => String::from_str("election_cancelled"),
            EventTypes::CastVote => String::from_str("cast_vote"),
        }
    }
}

/// A notification: an event kind and its named string fields, in order.
#[derive(Debug)]
pub struct Event {
    pub event_type: EventTypes,
    pub event_data: Vec<(String, String)>,
}

impl Event {
    pub fn new(event_type: EventTypes, event_data: Vec<(String, String)>) -> (r: Event)
        ensures
            r.event_type == event_type,
            r.event_data == event_data,
    {
        Event { event_type, event_data }
    }
}

} // verus!
