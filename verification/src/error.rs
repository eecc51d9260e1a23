//! What can end a cycle before its record reaches the pool.
//!
//! Each stage has its own kind of failure. Whoever started the cycle learns
//! only a short reason; the transport's coarse code is kept for callers that
//! speak in its terms.

use vstd::prelude::*;

verus! {

/// The three codes in which the transport speaks of a failed request.
#[derive(Clone, Copy, Debug, PartialEq, Eq, Structural)]
pub enum HttpError {
    /// No response arrived before the deadline.
    DeadlineReached,
    /// The request could not be dispatched, or the connection broke.
    IoError,
    /// Anything else.
    Unknown,
}

/// Why a fetch yielded no text.
#[derive(Clone, Copy, Debug, PartialEq, Eq, Structural)]
pub enum NetworkError {
    /// The request could not be dispatched, or the connection broke.
    IoError,
    /// No response arrived before the deadline.
    DeadlineReached,
    /// The request did not finish with status 200.
    BadStatus,
    /// The body is not text in UTF-8.
    Undecodable,
}

/// Why nothing was signed.
#[derive(Clone, Copy, Debug, PartialEq, Eq, Structural)]
pub enum SigningError {
    /// No local identity was there to sign, or the one chosen gave no signature.
    NoLocalAccount,
}

/// Why the pool has no new call.
#[derive(Clone, Copy, Debug, PartialEq, Eq, Structural)]
pub enum SubmissionError {
    /// The pool turned the call down.
    Rejected,
}

/// Why a cycle ended without a submission that the pool took.
#[derive(Clone, Copy, Debug, PartialEq, Eq, Structural)]
pub enum Failure {
    /// The fetch yielded no text.
    Network(NetworkError),
    /// The text is not a record: a field is missing or is not a number of 32 bits.
    Parse,
    /// Nothing was signed.
    Signing(SigningError),
    /// The pool turned the call down.
    Submission(SubmissionError),
}

/// The transport's code for a failed fetch: a bad status and an undecodable
/// body both count as unknown.
pub open spec fn network_code(e: NetworkError) -> HttpError {
    match e {
        NetworkError::IoError => HttpError::IoError,
        NetworkError::DeadlineReached => HttpError::DeadlineReached,
        NetworkError::BadStatus => HttpError::Unknown,
        NetworkError::Undecodable => HttpError::Unknown,
    }
}

/// The short reason that is reported for a failure.
pub open spec fn reason_text(f: Failure) -> Seq<char> {
    match f {
        Failure::Network(_) => "Failed to fetch info"@,
        Failure::Parse => "Failed to fetch info"@,
        Failure::Signing(_) => "No local accounts accounts available."@,
        Failure::Submission(_) => "Unable to submit transaction"@,
    }
}

impl NetworkError {
    /// The transport's code for this failure.
    pub fn code(&self) -> (c: HttpError)
        ensures
            c == network_code(*self),
    {
        match self {
            NetworkError::IoError => HttpError::IoError,
            NetworkError::DeadlineReached => HttpError::DeadlineReached,
            NetworkError::BadStatus => HttpError::Unknown,
            NetworkError::Undecodable => HttpError::Unknown,
        }
    }
}

impl Failure {
    /// The short reason that is reported for this failure. A failed fetch and an
    /// unreadable body share one reason.
    pub fn reason(&self) -> (r: &'static str)
        ensures
            r@ == reason_text(*self),
    {
        match self {
            Failure::Network(_) => "Failed to fetch info",
            Failure::Parse => "Failed to fetch info",
            Failure::Signing(_) => "No local accounts accounts available.",
            Failure::Submission(_) => "Unable to submit transaction",
        }
    }
}

} // verus!
