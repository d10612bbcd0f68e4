//! The error taxonomy. Handlers convert domain failures to these tags at
//! the boundary; each tag maps one-to-one to an envelope status code.

use vstd::prelude::*;
use crate::api::SyncExecutionResponse;
use crate::response::Status;

verus! {

/// Extra payload an operation error carries in its `data` object.
#[derive(Debug)]
pub enum OperationData {
    Empty,
    SyncExec(SyncExecutionResponse),
}

#[derive(Debug)]
pub enum AppError {
    InternalServerError(String),
    BadRequest(String),
    NotFound(String),
    Unauthorized(String),
    Forbidden(String),
    Conflict(String),
    Validation(String),
    OperationError(String, OperationData),
}

impl AppError {
    /// The envelope status an error answers with.
    pub open spec fn status_spec(&self) -> Status {
        match self {
            AppError::InternalServerError(_) => Status::InternalError,
            AppError::BadRequest(_) => Status::InvalidRequest,
            AppError::NotFound(_) => Status::NotFound,
            AppError::Unauthorized(_) => Status::Unauthorized,
            AppError::Forbidden(_) => Status::Forbidden,
            AppError::Conflict(_) => Status::Conflict,
            AppError::Validation(_) => Status::ValidationError,
            AppError::OperationError(_, _) => Status::OperationError,
        }
    }

    pub fn status(&self) -> (s: Status)
        ensures
            s == self.status_spec(),
    {
        match self {
            AppError::InternalServerError(_) => Status::InternalError,
            AppError::BadRequest(_) => Status::InvalidRequest,
            AppError::NotFound(_) => Status::NotFound,
            AppError::Unauthorized(_) => Status::Unauthorized,
            AppError::Forbidden(_) => Status::Forbidden,
            AppError::Conflict(_) => Status::Conflict,
            AppError::Validation(_) => Status::ValidationError,
            AppError::OperationError(_, _) => Status::OperationError,
        }
    }

    /// The message carried by the error.
    pub open spec fn message_spec(&self) -> Seq<char> {
        match self {
            AppError::InternalServerError(m) => m@,
            AppError::BadRequest(m) => m@,
            AppError::NotFound(m) => m@,
            AppError::Unauthorized(m) => m@,
            AppError::Forbidden(m) => m@,
            AppError::Conflict(m) => m@,
            AppError::Validation(m) => m@,
            AppError::OperationError(m, _) => m@,
        }
    }

    pub fn message(&self) -> (m: &String)
        ensures
            m@ == self.message_spec(),
    {
        match self {
            AppError::InternalServerError(m) => m,
            AppError::BadRequest(m) => m,
            AppError::NotFound(m) => m,
            AppError::Unauthorized(m) => m,
            AppError::Forbidden(m) => m,
            AppError::Conflict(m) => m,
            AppError::Validation(m) => m,
            AppError::OperationError(m, _) => m,
        }
    }

    /// A human-readable description, as the error would display itself.
    pub fn describe(&self) -> (d: String)
        ensures
            d@ == self.describe_prefix() + self.message_spec(),
    {
        proof {
            reveal_strlit("Internal Server Error: ");
            reveal_strlit("Bad Request: ");
            reveal_strlit("Not Found: ");
            reveal_strlit("Unauthorized: ");
            reveal_strlit("Forbidden: ");
            reveal_strlit("Conflict: ");
            reveal_strlit("Validation Error: ");
            reveal_strlit("Operation Error: ");
        }
        let mut d = match self {
            AppError::InternalServerError(_) => String::from_str("Internal Server Error: "),
            AppError::BadRequest(_) => String::from_str("Bad Request: "),
            AppError::NotFound(_) => String::from_str("Not Found: "),
            AppError::Unauthorized(_) => String::from_str("Unauthorized: "),
            AppError::Forbidden(_) => String::from_str("Forbidden: "),
            AppError::Conflict(_) => String::from_str("Conflict: "),
            AppError::Validation(_) => String::from_str("Validation Error: "),
            AppError::OperationError(_, _) => String::from_str("Operation Error: "),
        };
        d.append(self.message().as_str());
        d
    }

    pub open spec fn describe_prefix(&self) -> Seq<char> {
        match self {
            AppError::InternalServerError(_) => "Internal Server Error: "@,
            AppError::BadRequest(_) => "Bad Request: "@,
            AppError::NotFound(_) => "Not Found: "@,
            AppError::Unauthorized(_) => "Unauthorized: "@,
            AppError::Forbidden(_) => "Forbidden: "@,
            AppError::Conflict(_) => "Conflict: "@,
            AppError::Validation(_) => "Validation Error: "@,
            AppError::OperationError(_, _) => "Operation Error: "@,
        }
    }
}

/// The error for a failed filesystem call, keyed by the kind the call
/// reported: missing targets and permission problems keep their own tags,
/// anything else is internal.
pub enum IoErrorKind {
    NotFound,
    PermissionDenied,
    Other,
}

pub fn io_error(kind: IoErrorKind, message: String) -> (e: AppError)
    ensures
        e == (match kind {
            IoErrorKind::NotFound => AppError::NotFound(message),
            IoErrorKind::PermissionDenied => AppError::Forbidden(message),
            IoErrorKind::Other => AppError::InternalServerError(message),
        }),
{
    match kind {
        IoErrorKind::NotFound => AppError::NotFound(message),
        IoErrorKind::PermissionDenied => AppError::Forbidden(message),
        IoErrorKind::Other => AppError::InternalServerError(message),
    }
}

} // verus!
