//! The fetch: one request to the oracle, bounded by a deadline.
//!
//! The request itself is the caller's work. Here is what surrounds it: the
//! deadline that the request is given, and what the fetch yields for each
//! thing that the transport can report.

use crate::error::{network_code, HttpError, NetworkError};
use crate::record::{as_tuple, parse_athlete_info, parse_record, ClassId, InstanceId};
use vstd::prelude::*;
use vstd::string::*;
use vstd::utf8::*;

verus! {

/// The address that the oracle is asked at.
pub const ORACLE_URL: &'static str = "http://www.foo.com";

/// How long a fetch may take, in milliseconds.
pub const FETCH_TIMEOUT_MS: u64 = 2_000;

/// The one status with which a request has succeeded.
pub const STATUS_OK: u16 = 200;

/// Where to fetch from, and how long a fetch may take.
#[derive(Debug, PartialEq, Eq)]
pub struct Fetcher {
    /// The address of the oracle.
    pub url: String,
    /// The time allowed for one fetch, in milliseconds.
    pub timeout_ms: u64,
}

/// What the transport reports of the one request of a fetch.
#[derive(Clone, Copy, Debug, PartialEq, Eq, Structural)]
pub enum RequestStatus {
    /// The request could not be dispatched.
    NotSent,
    /// No response arrived before the deadline.
    DeadlineReached,
    /// The connection broke, or the request timed out.
    IoError,
    /// The transport does not know the request.
    Invalid,
    /// A response arrived, with this status code.
    Finished(u16),
}

/// The moment `timeout_ms` after `now_ms`, both in milliseconds since the epoch;
/// the last moment that can be told, where the sum lies beyond it.
pub open spec fn deadline_of(now_ms: u64, timeout_ms: u64) -> u64 {
    if now_ms + timeout_ms > u64::MAX {
        u64::MAX
    } else {
        (now_ms + timeout_ms) as u64
    }
}

/// Whether a request that ended with this status may have its body read.
pub open spec fn status_verdict(status: RequestStatus) -> Result<(), NetworkError> {
    match status {
        RequestStatus::NotSent => Err(NetworkError::IoError),
        RequestStatus::DeadlineReached => Err(NetworkError::DeadlineReached),
        RequestStatus::IoError => Err(NetworkError::IoError),
        RequestStatus::Invalid => Err(NetworkError::BadStatus),
        RequestStatus::Finished(code) => if code == 200 {
            Ok(())
        } else {
            Err(NetworkError::BadStatus)
        },
    }
}

/// The text of a body, where its bytes are text in UTF-8.
pub open spec fn body_text(body: Seq<u8>) -> Result<Seq<char>, NetworkError> {
    if valid_utf8(body) {
        Ok(decode_utf8(body))
    } else {
        Err(NetworkError::Undecodable)
    }
}

/// What a fetch yields: the text of the body where the request finished with
/// status 200 and the body is text, and else the failure, in which the body
/// has no say.
pub open spec fn fetch_result(status: RequestStatus, body: Seq<u8>) -> Result<
    Seq<char>,
    NetworkError,
> {
    match status_verdict(status) {
        Ok(_) => body_text(body),
        Err(e) => Err(e),
    }
}

/// `Timestamp::add` of sp_runtime's `offchain` module, on a timestamp of
/// `now_ms` and a duration of `timeout_ms`, both made from milliseconds, and
/// the result taken in milliseconds again. The contract claims that the result
/// is the sum, and `u64::MAX` where the sum does not fit.
#[verifier::external_body]
fn timestamp_add(now_ms: u64, timeout_ms: u64) -> (r: u64)
    ensures
        r == deadline_of(now_ms, timeout_ms),
{
    let now = sp_runtime::offchain::Timestamp::from_unix_millis(now_ms);
    now.add(sp_runtime::offchain::Duration::from_millis(timeout_ms)).unix_millis()
}

/// `String::from_utf8` of std, with its error dropped. The contract claims
/// that a string is returned exactly when the bytes are valid UTF-8, and that
/// the string then consists of these bytes.
#[verifier::external_body]
fn string_from_utf8(bytes: Vec<u8>) -> (r: Option<String>)
    ensures
        r is Some <==> valid_utf8(bytes@),
        r matches Some(text) ==> encode_utf8(text@) == bytes@,
{
    String::from_utf8(bytes).ok()
}

impl Fetcher {
    /// A fetcher for the given address that allows each fetch the given time.
    pub fn new(url: String, timeout_ms: u64) -> (f: Fetcher)
        ensures
            f.url == url,
            f.timeout_ms == timeout_ms,
    {
        Fetcher { url, timeout_ms }
    }

    /// The moment at which a fetch that starts at `now_ms` gives up.
    pub fn deadline(&self, now_ms: u64) -> (deadline: u64)
        ensures
            deadline == deadline_of(now_ms, self.timeout_ms),
    {
        timestamp_add(now_ms, self.timeout_ms)
    }
}

/// Decides from the status of a request whether its body is to be read.
///
/// Only a response with status 200 is read. A request that was not sent or
/// whose connection broke is an i/o failure; one that has no response by the
/// deadline failed by the deadline; everything else is a bad status.
pub fn check_status(status: RequestStatus) -> (r: Result<(), NetworkError>)
    ensures
        r == status_verdict(status),
{
    match status {
        RequestStatus::NotSent => Err(NetworkError::IoError),
        RequestStatus::DeadlineReached => Err(NetworkError::DeadlineReached),
        RequestStatus::IoError => Err(NetworkError::IoError),
        RequestStatus::Invalid => Err(NetworkError::BadStatus),
        RequestStatus::Finished(code) => if code == STATUS_OK {
            Ok(())
        } else {
            Err(NetworkError::BadStatus)
        },
    }
}

/// Takes the whole body of a response as text.
///
/// Succeeds exactly when the bytes are valid UTF-8; the text is then what the
/// bytes encode.
pub fn decode_body(body: Vec<u8>) -> (r: Result<String, NetworkError>)
    ensures
        match r {
            Ok(text) => body_text(body@) == Ok::<Seq<char>, NetworkError>(text@),
            Err(e) => body_text(body@) == Err::<Seq<char>, NetworkError>(e),
        },
        r matches Ok(text) ==> encode_utf8(text@) == body@,
{
    let ghost bytes = body@;
    match string_from_utf8(body) {
        Some(text) => {
            proof {
                encode_utf8_decode_utf8(text@);
            }
            Ok(text)
        },
        None => Err(NetworkError::Undecodable),
    }
}

/// What a fetch yields, given the status that the transport reported and the
/// bytes of the body as far as any were read.
///
/// The text is returned exactly when the status is that of a response with
/// code 200 and the body is valid UTF-8. With any other status the fetch
/// fails whatever the body holds: by the deadline where no response arrived in
/// time, and with a bad status where the code is not 200.
pub fn request_response(status: RequestStatus, body: Vec<u8>) -> (r: Result<String, NetworkError>)
    ensures
        match r {
            Ok(text) => fetch_result(status, body@) == Ok::<Seq<char>, NetworkError>(text@),
            Err(e) => fetch_result(status, body@) == Err::<Seq<char>, NetworkError>(e),
        },
        r matches Ok(text) ==> encode_utf8(text@) == body@,
        status == RequestStatus::DeadlineReached ==> r == Err::<String, NetworkError>(
            NetworkError::DeadlineReached,
        ),
        status matches RequestStatus::Finished(code) && code != 200 ==> r == Err::<
            String,
            NetworkError,
        >(NetworkError::BadStatus),
{
    match check_status(status) {
        Ok(_) => decode_body(body),
        Err(e) => Err(e),
    }
}

/// The four numbers that a fetch brings, or the transport's code for why it
/// brings none; a body that states no record counts as unknown.
pub open spec fn fetched_info(status: RequestStatus, body: Seq<u8>) -> Result<
    (ClassId, InstanceId, u32, u32),
    HttpError,
> {
    match fetch_result(status, body) {
        Err(e) => Err(network_code(e)),
        Ok(_) => match as_tuple(parse_record(body)) {
            Some(info) => Ok(info),
            None => Err(HttpError::Unknown),
        },
    }
}

/// What fetching and reading come to, given the status that the transport
/// reported and the bytes of the body as far as any were read.
///
/// The four numbers are returned exactly when the request finished with status
/// 200, the body is valid UTF-8 and it states a record. A failed fetch is
/// reported by the transport's code for it, whatever the body holds; a body
/// that is text but states no record is reported as unknown.
pub fn fetch_and_parse_athlete_info(status: RequestStatus, body: Vec<u8>) -> (r: Result<
    (ClassId, InstanceId, u32, u32),
    HttpError,
>)
    ensures
        r == fetched_info(status, body@),
{
    match request_response(status, body) {
        Ok(text) => match parse_athlete_info(text.as_str()) {
            Some(info) => Ok(info),
            None => Err(HttpError::Unknown),
        },
        Err(e) => Err(e.code()),
    }
}

} // verus!
