//! gRPC status codes and the table that derives them from HTTP statuses.

use vstd::prelude::*;

verus! {

/// `http::StatusCode`, an HTTP status. Of a value nothing is known but what
/// [`status_number`] says.
#[verifier::external_type_specification]
#[verifier::external_body]
pub struct ExStatusCode(http::StatusCode);

/// `http::status::InvalidStatusCode`, the error for a number that is no HTTP
/// status. It is only handed on.
#[verifier::external_type_specification]
#[verifier::external_body]
pub struct ExInvalidStatusCode(http::status::InvalidStatusCode);

/// The three-digit number that an [`http::StatusCode`] stands for.
pub uninterp spec fn status_number(status: http::StatusCode) -> u16;

/// `<StatusCode as Clone>::clone`, which `derive` wrote: the same status.
pub assume_specification[ <http::StatusCode as Clone>::clone ](status: &http::StatusCode) -> (copy:
    http::StatusCode)
    ensures
        copy == *status,
;

/// `http::StatusCode::as_u16`: reads the number held by the status code.
#[verifier::external_body]
fn status_as_u16(status: &http::StatusCode) -> (n: u16)
    ensures
        n == status_number(*status),
{
    status.as_u16()
}

/// `http::StatusCode::from_u16`: accepts exactly the numbers from 100 to 999
/// and yields the status code holding that number.
#[verifier::external_body]
fn status_from_u16(n: u16) -> (r: Result<http::StatusCode, http::status::InvalidStatusCode>)
    ensures
        r is Ok <==> 100 <= n <= 999,
        r matches Ok(status) ==> status_number(status) == n,
{
    http::StatusCode::from_u16(n)
}

/// `StatusCode::OK`: the status code 200.
#[verifier::external_body]
pub(crate) fn status_ok() -> (status: http::StatusCode)
    ensures
        status_number(status) == 200,
{
    http::StatusCode::OK
}

/// A gRPC status code.
#[derive(Clone, Copy, Debug, PartialEq, Eq, Structural, Hash)]
pub enum Code {
    OK,
    Cancelled,
    Unknown,
    InvalidArgument,
    DeadlineExceeded,
    NotFound,
    AlreadyExists,
    PermissionDenied,
    ResourceExhausted,
    FailedPrecondition,
    Aborted,
    OutOfRange,
    Unimplemented,
    Internal,
    Unavailable,
    DataLoss,
    Unauthenticated,
}

/// The gRPC status code that answers for an HTTP status number.
pub open spec fn http_to_grpc(status: u16) -> Code {
    if status == 200 {
        Code::OK
    } else if status == 400 || status == 422 {
        Code::Internal
    } else if status == 401 {
        Code::Unauthenticated
    } else if status == 403 {
        Code::PermissionDenied
    } else if status == 404 {
        Code::NotFound
    } else if status == 501 {
        Code::Unimplemented
    } else if status == 429 || status == 502 || status == 503 || status == 504 {
        Code::Unavailable
    } else {
        Code::Unknown
    }
}

impl Code {
    /// The number that stands for this code on the wire.
    pub open spec fn spec_number(self) -> int {
        match self {
            Code::OK => 0,
            Code::Cancelled => 1,
            Code::Unknown => 2,
            Code::InvalidArgument => 3,
            Code::DeadlineExceeded => 4,
            Code::NotFound => 5,
            Code::AlreadyExists => 6,
            Code::PermissionDenied => 7,
            Code::ResourceExhausted => 8,
            Code::FailedPrecondition => 9,
            Code::Aborted => 10,
            Code::OutOfRange => 11,
            Code::Unimplemented => 12,
            Code::Internal => 13,
            Code::Unavailable => 14,
            Code::DataLoss => 15,
            Code::Unauthenticated => 16,
        }
    }

    /// The number that stands for this code on the wire.
    pub fn number(self) -> (n: i32)
        ensures
            n == self.spec_number(),
    {
        match self {
            Code::OK => 0,
            Code::Cancelled => 1,
            Code::Unknown => 2,
            Code::InvalidArgument => 3,
            Code::DeadlineExceeded => 4,
            Code::NotFound => 5,
            Code::AlreadyExists => 6,
            Code::PermissionDenied => 7,
            Code::ResourceExhausted => 8,
            Code::FailedPrecondition => 9,
            Code::Aborted => 10,
            Code::OutOfRange => 11,
            Code::Unimplemented => 12,
            Code::Internal => 13,
            Code::Unavailable => 14,
            Code::DataLoss => 15,
            Code::Unauthenticated => 16,
        }
    }

    /// Maps an HTTP status number to its gRPC status code.
    pub fn from_status_number(status: u16) -> (code: Code)
        ensures
            code == http_to_grpc(status),
    {
        if status == 200 {
            Code::OK
        } else if status == 400 || status == 422 {
            Code::Internal
        } else if status == 401 {
            Code::Unauthenticated
        } else if status == 403 {
            Code::PermissionDenied
        } else if status == 404 {
            Code::NotFound
        } else if status == 501 {
            Code::Unimplemented
        } else if status == 429 || status == 502 || status == 503 || status == 504 {
            Code::Unavailable
        } else {
            Code::Unknown
        }
    }

    /// Creates a gRPC status code from an equivalent [`http::StatusCode`].
    pub fn from_http(status_code: http::StatusCode) -> (code: Code)
        ensures
            code == http_to_grpc(status_number(status_code)),
    {
        Code::from_status_number(status_as_u16(&status_code))
    }

    /// Creates a gRPC status code from an equivalent HTTP status number,
    /// which must be a valid one: between 100 and 999.
    pub fn from_u16(code: u16) -> (r: Result<Code, http::status::InvalidStatusCode>)
        ensures
            r is Ok <==> 100 <= code <= 999,
            r matches Ok(c) ==> c == http_to_grpc(code),
    {
        match status_from_u16(code) {
            Ok(status_code) => Ok(Code::from_http(status_code)),
            Err(e) => Err(e),
        }
    }
}

} // verus!
