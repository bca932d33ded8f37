//! The error codes that the machine library's entry points return.
use vstd::prelude::*;

verus! {

/// The outcome of an entry point of the machine library.
#[derive(Clone, Copy, PartialEq, Eq, Structural, Debug)]
pub enum ErrorCode {
    /// Success.
    NoError,
    /// A null or wrong handle was passed.
    InvalidHandle,
    /// The operation needs a connected handle.
    NotConnected,
    /// The operation needs a handle that is not connected yet.
    AlreadyConnected,
    /// A required parameter was null.
    NullParameter,
    /// A string was not UTF-8.
    NonUtf8String,
    /// A parameter was invalid.
    InvalidParameter,
    /// Reading a message failed.
    MessageReadError,
    /// The server sent an invalid message.
    InvalidMessageReceived,
    /// Writing a message failed.
    MessageWriteError,
    /// A function, sensor, axis or stream of that name is already registered.
    DuplicateName,
    /// The server disconnected.
    ServerDisconnected,
    /// The operation is not supported on this platform.
    Unsupported,
    /// The server rejected the connection.
    ConnectionRejected,
    /// A required value (such as the name) was not set before connecting.
    MissingRequiredValue,
    /// Connecting to the server failed.
    ConnectionError,
    /// A non-fatal anomaly, such as a message a machine should never get.
    OtherError,
}

/// The number that stands for each code across the library's boundary.
pub open spec fn code_value(e: ErrorCode) -> u32 {
    match e {
        ErrorCode::NoError => 0,
        ErrorCode::InvalidHandle => 1,
        ErrorCode::NotConnected => 2,
        ErrorCode::AlreadyConnected => 3,
        ErrorCode::NullParameter => 4,
        ErrorCode::NonUtf8String => 5,
        ErrorCode::InvalidParameter => 6,
        ErrorCode::MessageReadError => 7,
        ErrorCode::InvalidMessageReceived => 8,
        ErrorCode::MessageWriteError => 9,
        ErrorCode::DuplicateName => 10,
        ErrorCode::ServerDisconnected => 11,
        ErrorCode::Unsupported => 12,
        ErrorCode::ConnectionRejected => 13,
        ErrorCode::MissingRequiredValue => 14,
        ErrorCode::ConnectionError => 15,
        ErrorCode::OtherError => 16,
    }
}

impl ErrorCode {
    /// The number that stands for the code across the library's boundary.
    pub fn code(self) -> (r: u32)
        ensures
            r == code_value(self),
    {
        match self {
            ErrorCode::NoError => 0,
            ErrorCode::InvalidHandle => 1,
            ErrorCode::NotConnected => 2,
            ErrorCode::AlreadyConnected => 3,
            ErrorCode::NullParameter => 4,
            ErrorCode::NonUtf8String => 5,
            ErrorCode::InvalidParameter => 6,
            ErrorCode::MessageReadError => 7,
            ErrorCode::InvalidMessageReceived => 8,
            ErrorCode::MessageWriteError => 9,
            ErrorCode::DuplicateName => 10,
            ErrorCode::ServerDisconnected => 11,
            ErrorCode::Unsupported => 12,
            ErrorCode::ConnectionRejected => 13,
            ErrorCode::MissingRequiredValue => 14,
            ErrorCode::ConnectionError => 15,
            ErrorCode::OtherError => 16,
        }
    }
}

} // verus!
