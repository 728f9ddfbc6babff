//! The failures that the viewer distinguishes.

use vstd::prelude::*;
use vstd::std_specs::convert::FromSpecImpl;

verus! {

/// An I/O failure of the operating system, carried through unchanged.
#[verifier::external_type_specification]
#[verifier::external_body]
pub struct ExIoError(std::io::Error);

/// Why an operation of the viewer failed.
///
/// The two conditions are kept apart so that a caller can tell a device that
/// refused a write from a coordinate that the device cannot represent.
#[derive(Debug)]
pub enum Error {
    /// Reading from or writing to the device failed.
    Io(std::io::Error),
    /// A coordinate does not fit the device's coordinate range.
    TryFromInt(std::num::TryFromIntError),
}

impl From<std::io::Error> for Error {
    /// An I/O failure as a failure of the viewer.
    fn from(failure: std::io::Error) -> (error: Error) {
        Error::Io(failure)
    }
}

impl FromSpecImpl<std::io::Error> for Error {
    open spec fn obeys_from_spec() -> bool {
        true
    }

    open spec fn from_spec(failure: std::io::Error) -> Error {
        Error::Io(failure)
    }
}

impl From<std::num::TryFromIntError> for Error {
    /// A failed integer conversion as a failure of the viewer.
    fn from(failure: std::num::TryFromIntError) -> (error: Error) {
        Error::TryFromInt(failure)
    }
}

impl FromSpecImpl<std::num::TryFromIntError> for Error {
    open spec fn obeys_from_spec() -> bool {
        true
    }

    open spec fn from_spec(failure: std::num::TryFromIntError) -> Error {
        Error::TryFromInt(failure)
    }
}

impl Error {
    /// Whether `text` is what the `Display` impl of the failure that this
    /// value carries writes for it.
    pub open spec fn shows(&self, text: String) -> bool {
        match self {
            Error::Io(failure) => vstd::string::to_string_from_display_ensures::<std::io::Error>(
                failure,
                text,
            ),
            Error::TryFromInt(failure) => vstd::string::to_string_from_display_ensures::<
                std::num::TryFromIntError,
            >(failure, text),
        }
    }

    /// The message of the failure, for display: the text that the failure
    /// carried inside writes for itself, with nothing added.
    pub fn to_string(&self) -> (text: String)
        ensures
            self.shows(text),
    {
        match self {
            Error::Io(failure) => failure.to_string(),
            Error::TryFromInt(failure) => failure.to_string(),
        }
    }
}

} // verus!
