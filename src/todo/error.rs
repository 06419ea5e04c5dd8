//! The to-do list's errors.

use vstd::prelude::*;
use vstd::string::*;

verus! {

/// How reading or writing the to-do file failed.
#[derive(Debug)]
pub enum IoFailure {
    NotFound,
    PermissionDenied,
    /// Any other failure, with the system's description of it.
    Other(String),
}

/// An error of the to-do list.
#[derive(Debug)]
pub enum Error {
    Io(IoFailure),
    /// The sequence number is not a number.
    ParseSequence,
    /// No task has that sequence number.
    InvalidSequence,
    MissingDescription,
    /// A line of the file is not a task.
    ParseTask(String),
}

/// The message that describes an error.
pub open spec fn message_spec(e: Error) -> Seq<char> {
    match e {
        Error::ParseSequence => "Input sequence is not a number"@,
        Error::InvalidSequence => "Input sequence number does not exist"@,
        Error::MissingDescription => "Missing task description"@,
        Error::ParseTask(_) => "Error parsing to-do(s)"@,
        Error::Io(IoFailure::NotFound) => "Error opening file: file not found"@,
        Error::Io(IoFailure::PermissionDenied) => "Error opening file: permission denied"@,
        Error::Io(IoFailure::Other(description)) => description@,
    }
}

impl Error {
    /// The error's description.
    pub fn message(&self) -> (r: String)
        ensures
            r@ == message_spec(*self),
    {
        match self {
            Error::ParseSequence => String::from_str("Input sequence is not a number"),
            Error::InvalidSequence => String::from_str("Input sequence number does not exist"),
            Error::MissingDescription => String::from_str("Missing task description"),
            Error::ParseTask(_) => String::from_str("Error parsing to-do(s)"),
            Error::Io(IoFailure::NotFound) => String::from_str("Error opening file: file not found"),
            Error::Io(IoFailure::PermissionDenied) => String::from_str(
                "Error opening file: permission denied",
            ),
            Error::Io(IoFailure::Other(description)) => description.clone(),
        }
    }
}

} // verus!
