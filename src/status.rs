//! Engine status codes and the library's error kinds.

use vstd::prelude::*;

verus! {

/// The engine's status code for success.
pub const OK: i32 = 0;

/// The engine's status code for a bank file it could not read.
pub const ERR_FILE_BAD: i32 = 13;

/// The engine's status code for a missing file.
pub const ERR_FILE_NOTFOUND: i32 = 18;

/// The engine's status code for data in an unsupported format.
pub const ERR_FORMAT: i32 = 19;

/// The engine's status code for a handle that is released or was never valid.
pub const ERR_INVALID_HANDLE: i32 = 30;

/// The engine's status code for the low-level system not yet initialized.
pub const ERR_UNINITIALIZED: i32 = 67;

/// The engine's status code for an event path or name it does not know.
pub const ERR_EVENT_NOTFOUND: i32 = 74;

/// The engine's status code for the studio system not yet initialized.
pub const ERR_STUDIO_UNINITIALIZED: i32 = 75;

/// The engine's status code for a string it could not read.
pub const ERR_INVALID_STRING: i32 = 77;

/// The outcome of an engine operation, by kind.
#[derive(PartialEq, Eq, Structural, Clone, Copy, Debug)]
pub enum Status {
    /// The operation succeeded.
    Success,
    /// The engine is not initialized or already released.
    EngineUnavailable,
    /// A bank file is missing or malformed.
    BankIO,
    /// A name, short or full, does not resolve to a known event.
    EventNotFound,
    /// An operation was attempted on a released or never-created object.
    InvalidHandle,
    /// A parameter name the engine cannot take.
    InvalidParameterName,
    /// A string the engine returned is not valid text.
    StringEncoding,
    /// Any other engine status code, passed through.
    Native(i32),
}

/// The kind of the engine's status `code`.
pub open spec fn status_of(code: i32) -> Status {
    if code == OK {
        Status::Success
    } else if code == ERR_FILE_BAD || code == ERR_FILE_NOTFOUND || code == ERR_FORMAT {
        Status::BankIO
    } else if code == ERR_EVENT_NOTFOUND {
        Status::EventNotFound
    } else if code == ERR_INVALID_HANDLE {
        Status::InvalidHandle
    } else if code == ERR_UNINITIALIZED || code == ERR_STUDIO_UNINITIALIZED {
        Status::EngineUnavailable
    } else if code == ERR_INVALID_STRING {
        Status::StringEncoding
    } else {
        Status::Native(code)
    }
}

impl Status {
    /// `Ok(())` for success, else the status itself as the error.
    pub open spec fn as_result(self) -> Result<(), Status> {
        match self {
            Status::Success => Ok(()),
            _ => Err(self),
        }
    }

    /// The kind of the engine's status `code`.
    pub fn from_code(code: i32) -> (r: Status)
        ensures
            r == status_of(code),
    {
        if code == OK {
            Status::Success
        } else if code == ERR_FILE_BAD || code == ERR_FILE_NOTFOUND || code == ERR_FORMAT {
            Status::BankIO
        } else if code == ERR_EVENT_NOTFOUND {
            Status::EventNotFound
        } else if code == ERR_INVALID_HANDLE {
            Status::InvalidHandle
        } else if code == ERR_UNINITIALIZED || code == ERR_STUDIO_UNINITIALIZED {
            Status::EngineUnavailable
        } else if code == ERR_INVALID_STRING {
            Status::StringEncoding
        } else {
            Status::Native(code)
        }
    }

    /// `Ok(())` when this status is success, else `Err(self)`.
    pub fn to_result(self) -> (r: Result<(), Status>)
        ensures
            r == self.as_result(),
    {
        match self {
            Status::Success => Ok(()),
            err => Err(err),
        }
    }

    /// The engine's status `code` as a result: `Ok(())` for success, else
    /// the error of its kind.
    pub fn result(code: i32) -> (r: Result<(), Status>)
        ensures
            r == status_of(code).as_result(),
            r is Ok <==> code == OK,
    {
        Status::from_code(code).to_result()
    }
}

} // verus!
