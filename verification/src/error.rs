//! The errors that building a schedule can end in.
use vstd::prelude::*;
use vstd::string::*;

verus! {

/// Everything that can go wrong between the stored configuration and a
/// running schedule.
#[derive(Debug)]
pub enum Error {
    /// The entity store could not be read; the text is the store's own.
    Storage(String),
    /// A stored record could not be decoded; the text is the decoder's own.
    Serialization(String),
    /// No podcast is stored under the requested name.
    PodcastNotFound,
    /// No server configuration is stored.
    ConfigNotFound,
    /// A schedule caps its executions at zero, so that it could never fire.
    ZeroCount,
    /// A schedule holds an interval that reaches further than the calendar
    /// of the scheduler is good for, or repeats on an interval of no length.
    IntervalOutOfRange,
}

/// The two families that callers tell apart when a rebuild fails.
#[derive(Debug, Clone, Copy, PartialEq, Eq, Structural)]
pub enum ErrorKind {
    /// Persisted data is malformed, missing or fails validation.
    Configuration,
    /// The entity store is unreachable or a read of it failed.
    Store,
}

impl Error {
    /// The family of this error.
    pub open spec fn spec_kind(&self) -> ErrorKind {
        match *self {
            Error::Storage(_) => ErrorKind::Store,
            _ => ErrorKind::Configuration,
        }
    }

    /// The family of this error.
    #[verifier::when_used_as_spec(spec_kind)]
    pub fn kind(&self) -> (k: ErrorKind)
        ensures
            k == self.spec_kind(),
    {
        match self {
            Error::Storage(_) => ErrorKind::Store,
            _ => ErrorKind::Configuration,
        }
    }

    /// The fixed text of each variant.
    pub open spec fn spec_message(&self) -> Seq<char> {
        match *self {
            Error::Storage(_) => "data store failed"@,
            Error::Serialization(_) => "serialization failed"@,
            Error::PodcastNotFound => "requested podcast does not exist"@,
            Error::ConfigNotFound => "server config is missing"@,
            Error::ZeroCount => "schedule count must be at least one"@,
            Error::IntervalOutOfRange => "schedule interval is out of range"@,
        }
    }

    /// A short description, the same for every error of one variant.
    pub fn message(&self) -> (text: String)
        ensures
            text@ == self.spec_message(),
    {
        match self {
            Error::Storage(_) => "data store failed".to_owned(),
            Error::Serialization(_) => "serialization failed".to_owned(),
            Error::PodcastNotFound => "requested podcast does not exist".to_owned(),
            Error::ConfigNotFound => "server config is missing".to_owned(),
            Error::ZeroCount => "schedule count must be at least one".to_owned(),
            Error::IntervalOutOfRange => "schedule interval is out of range".to_owned(),
        }
    }
}

} // verus!
