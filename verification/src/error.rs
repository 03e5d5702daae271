//! The library's error type.
use vstd::prelude::*;

verus! {

/// What went wrong, with a message.
#[derive(Debug, PartialEq)]
pub enum RelatableError {
    /// Invalid configuration
    ConfigError(String),
    /// Invalid data
    DataError(String),
    /// Invalid input
    InputError(String),
    /// Unknown output format
    FormatError(String),
    /// Something that is missing
    MissingError(String),
    /// An invalid change
    ChangeError(String),
    /// An external process that failed
    ExternalProcessError(String),
    /// A text that does not read as a number
    ParseError(String),
}

/// The kinds of error.
#[derive(Clone, Copy, Debug, PartialEq, Eq, Structural)]
pub enum ErrorKind {
    Config,
    Data,
    Input,
    Format,
    Missing,
    Change,
    ExternalProcess,
    Parse,
}

impl RelatableError {
    /// The kind of the error.
    pub open spec fn kind(&self) -> ErrorKind {
        match self {
            RelatableError::ConfigError(_) => ErrorKind::Config,
            RelatableError::DataError(_) => ErrorKind::Data,
            RelatableError::InputError(_) => ErrorKind::Input,
            RelatableError::FormatError(_) => ErrorKind::Format,
            RelatableError::MissingError(_) => ErrorKind::Missing,
            RelatableError::ChangeError(_) => ErrorKind::Change,
            RelatableError::ExternalProcessError(_) => ErrorKind::ExternalProcess,
            RelatableError::ParseError(_) => ErrorKind::Parse,
        }
    }

    /// The message carried by the error.
    pub open spec fn message_view(&self) -> Seq<char> {
        match self {
            RelatableError::ConfigError(m) => m@,
            RelatableError::DataError(m) => m@,
            RelatableError::InputError(m) => m@,
            RelatableError::FormatError(m) => m@,
            RelatableError::MissingError(m) => m@,
            RelatableError::ChangeError(m) => m@,
            RelatableError::ExternalProcessError(m) => m@,
            RelatableError::ParseError(m) => m@,
        }
    }

    /// The message carried by the error.
    pub fn message(&self) -> (r: String)
        ensures
            r@ == self.message_view(),
    {
        match self {
            RelatableError::ConfigError(m) => m.clone(),
            RelatableError::DataError(m) => m.clone(),
            RelatableError::InputError(m) => m.clone(),
            RelatableError::FormatError(m) => m.clone(),
            RelatableError::MissingError(m) => m.clone(),
            RelatableError::ChangeError(m) => m.clone(),
            RelatableError::ExternalProcessError(m) => m.clone(),
            RelatableError::ParseError(m) => m.clone(),
        }
    }
}

} // verus!
