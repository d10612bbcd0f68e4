//! The response envelope: every endpoint answers with a numeric status
//! code, a message, and flattened payload fields. The HTTP status stays
//! 200 for everything except a panic.

use vstd::prelude::*;

verus! {

/// The wire status codes of the envelope.
#[derive(Clone, Copy, Debug, PartialEq, Eq, Structural)]
pub enum Status {
    Success,
    Panic,
    ValidationError,
    NotFound,
    Unauthorized,
    Forbidden,
    InvalidRequest,
    InternalError,
    Conflict,
    OperationError,
}

impl Status {
    /// The numeric code a status serializes to.
    pub open spec fn code_spec(self) -> u16 {
        match self {
            Status::Success => 0,
            Status::Panic => 500,
            Status::ValidationError => 1400,
            Status::NotFound => 1404,
            Status::Unauthorized => 1401,
            Status::Forbidden => 1403,
            Status::InvalidRequest => 1422,
            Status::InternalError => 1500,
            Status::Conflict => 1409,
            Status::OperationError => 1600,
        }
    }

    pub fn code(self) -> (c: u16)
        ensures
            c == self.code_spec(),
    {
        match self {
            Status::Success => 0,
            Status::Panic => 500,
            Status::ValidationError => 1400,
            Status::NotFound => 1404,
            Status::Unauthorized => 1401,
            Status::Forbidden => 1403,
            Status::InvalidRequest => 1422,
            Status::InternalError => 1500,
            Status::Conflict => 1409,
            Status::OperationError => 1600,
        }
    }

    /// The HTTP status for a response: 200 for everything except a panic.
    pub fn http_status(self) -> (s: u16)
        ensures
            s == (if self is Panic {
                500u16
            } else {
                200u16
            }),
    {
        match self {
            Status::Panic => 500,
            _ => 200,
        }
    }
}

/// The envelope itself: payload fields are flattened beside `status` and
/// `message` on the wire.
pub struct ApiResponse<T> {
    pub status: Status,
    pub message: String,
    pub data: T,
}

impl<T> ApiResponse<T> {
    pub fn success(data: T) -> (r: ApiResponse<T>)
        ensures
            r.status == Status::Success,
            r.message@ == "success"@,
            r.data == data,
    {
        ApiResponse { status: Status::Success, message: String::from_str("success"), data }
    }

    pub fn error(status: Status, message: String, data: T) -> (r: ApiResponse<T>)
        ensures
            r.status == status,
            r.message == message,
            r.data == data,
    {
        ApiResponse { status, message, data }
    }
}

} // verus!
