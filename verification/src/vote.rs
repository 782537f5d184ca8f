//! Votes, the payload that casts or changes one, and the errors of the store.

use crate::text::{decimal, decimal_digits, is_blank, lemma_trimmed_blank, trim};
use vstd::prelude::*;
use vstd::string::*;

verus! {

/// One vote, as stored.
#[derive(Debug, PartialEq, Eq)]
pub struct Vote {
    /// Given by the store when the vote is added; never changed after.
    pub id: u64,
    /// The voter, as the caller names them. Compared as text, never read.
    pub voter_id: String,
    pub candidate: String,
    /// When the vote was added or last changed, as the store was told.
    pub timestamp: u64,
    /// A token for the vote's validity, compared character by character.
    pub proof: String,
}

/// What a vote says.
pub struct VoteView {
    pub id: u64,
    pub voter_id: Seq<char>,
    pub candidate: Seq<char>,
    pub timestamp: u64,
    pub proof: Seq<char>,
}

impl View for Vote {
    type V = VoteView;

    open spec fn view(&self) -> VoteView {
        VoteView {
            id: self.id,
            voter_id: self.voter_id@,
            candidate: self.candidate@,
            timestamp: self.timestamp,
            proof: self.proof@,
        }
    }
}

/// What each of `votes` says, in the same order.
pub open spec fn views(votes: Seq<Vote>) -> Seq<VoteView> {
    Seq::new(votes.len(), |i: int| votes[i]@)
}

impl Clone for Vote {
    fn clone(&self) -> (copy: Self)
        ensures
            copy@ == self@,
    {
        Vote {
            id: self.id,
            voter_id: self.voter_id.clone(),
            candidate: self.candidate.clone(),
            timestamp: self.timestamp,
            proof: self.proof.clone(),
        }
    }
}

impl Default for Vote {
    fn default() -> (vote: Self)
        ensures
            vote@ == (VoteView {
                id: 0,
                voter_id: Seq::empty(),
                candidate: Seq::empty(),
                timestamp: 0,
                proof: Seq::empty(),
            }),
    {
        Vote {
            id: 0,
            voter_id: String::new(),
            candidate: String::new(),
            timestamp: 0,
            proof: String::new(),
        }
    }
}

/// What a caller hands in to cast a vote or to change one.
#[derive(Debug, PartialEq, Eq)]
pub struct VotePayload {
    pub candidate: String,
    pub proof: String,
}

/// What a payload says.
pub struct VotePayloadView {
    pub candidate: Seq<char>,
    pub proof: Seq<char>,
}

impl View for VotePayload {
    type V = VotePayloadView;

    open spec fn view(&self) -> VotePayloadView {
        VotePayloadView { candidate: self.candidate@, proof: self.proof@ }
    }
}

impl Default for VotePayload {
    fn default() -> (payload: Self)
        ensures
            payload@ == (VotePayloadView { candidate: Seq::empty(), proof: Seq::empty() }),
    {
        VotePayload { candidate: String::new(), proof: String::new() }
    }
}

/// Why an operation of the store did not go through. `AlreadyExists` and
/// `Unauthorized` are kept for callers that match on the whole set; the store
/// raises neither.
#[derive(Debug, PartialEq, Eq)]
pub enum Error {
    NotFound { msg: String },
    InvalidInput { msg: String },
    AlreadyExists { msg: String },
    Unauthorized { msg: String },
}

/// What an error says.
pub enum ErrorView {
    NotFound { msg: Seq<char> },
    InvalidInput { msg: Seq<char> },
    AlreadyExists { msg: Seq<char> },
    Unauthorized { msg: Seq<char> },
}

impl View for Error {
    type V = ErrorView;

    open spec fn view(&self) -> ErrorView {
        match self {
            Error::NotFound { msg } => ErrorView::NotFound { msg: msg@ },
            Error::InvalidInput { msg } => ErrorView::InvalidInput { msg: msg@ },
            Error::AlreadyExists { msg } => ErrorView::AlreadyExists { msg: msg@ },
            Error::Unauthorized { msg } => ErrorView::Unauthorized { msg: msg@ },
        }
    }
}

impl Error {
    /// The message that the error carries.
    pub fn message(&self) -> (msg: String)
        ensures
            msg@ == match self@ {
                ErrorView::NotFound { msg } => msg,
                ErrorView::InvalidInput { msg } => msg,
                ErrorView::AlreadyExists { msg } => msg,
                ErrorView::Unauthorized { msg } => msg,
            },
    {
        match self {
            Error::NotFound { msg } => msg.clone(),
            Error::InvalidInput { msg } => msg.clone(),
            Error::AlreadyExists { msg } => msg.clone(),
            Error::Unauthorized { msg } => msg.clone(),
        }
    }
}

/// The error for a missing vote: `before`, the id in base ten, `after`.
pub open spec fn missing_vote(before: Seq<char>, id: u64, after: Seq<char>) -> ErrorView {
    ErrorView::NotFound { msg: before + decimal_digits(id as nat) + after }
}

/// The error for an input that is refused, with its reason.
pub open spec fn refused_input(reason: Seq<char>) -> ErrorView {
    ErrorView::InvalidInput { msg: reason }
}

/// The error for a voter of whom no vote is stored.
pub open spec fn unknown_voter(voter_id: Seq<char>) -> ErrorView {
    ErrorView::NotFound { msg: "No vote found for voter ID "@ + voter_id }
}

/// Builds the error for a voter of whom no vote is stored.
pub(crate) fn voter_unknown(voter_id: &str) -> (error: Error)
    ensures
        error@ == unknown_voter(voter_id@),
{
    let mut msg = "No vote found for voter ID ".to_owned();
    msg.append(voter_id);
    Error::NotFound { msg }
}

/// Builds the error for a missing vote.
pub(crate) fn vote_missing(before: &str, id: u64, after: &str) -> (error: Error)
    ensures
        error@ == missing_vote(before@, id, after@),
{
    let mut msg = before.to_owned();
    let digits = decimal(id);
    msg.append(digits.as_str());
    msg.append(after);
    Error::NotFound { msg }
}

/// Builds the error for an input that is refused.
pub(crate) fn input_refused(reason: &str) -> (error: Error)
    ensures
        error@ == refused_input(reason@),
{
    Error::InvalidInput { msg: reason.to_owned() }
}

/// Refuses a candidate name that is empty or all white space.
pub fn validate_candidate(candidate: &str) -> (checked: Result<(), Error>)
    ensures
        checked is Err <==> is_blank(candidate@),
        checked matches Err(error) ==> error@ == refused_input(
            "Candidate name cannot be empty or whitespace"@,
        ),
{
    proof {
        lemma_trimmed_blank(candidate@);
    }
    if trim(candidate).is_empty() {
        return Err(input_refused("Candidate name cannot be empty or whitespace"));
    }
    Ok(())
}

} // verus!
