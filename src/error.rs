use regex::Error as RegexError;
use std::io::Error as IoError;
use vstd::prelude::*;
use vstd::std_specs::convert::FromSpecImpl;
use vstd::string::to_string_from_display_ensures;

verus! {

/// Result returning Error.
pub type Result<T> = std::result::Result<T, Error>;

/// The errors of the database: one tag from a fixed taxonomy, most with a message.
/// All except Internal are considered user-facing.
#[derive(Clone, Debug, PartialEq)]
pub enum Error {
    /// The statement was cancelled explicitly.
    Abort,
    /// An internal invariant of the planner or optimizer was violated.
    Assert(String),
    /// Invalid process configuration.
    Config(String),
    /// Invalid data, typically decoding errors.
    InvalidData(String),
    /// A foreign failure: I/O, a channel, a lock.
    Internal(String),
    /// A lexical or grammatical violation in statement text.
    Parse(String),
    /// A mutation was attempted in a read-only transaction.
    ReadOnly,
    /// A write conflict: the caller should retry the whole transaction.
    Serialization,
    /// A semantic or evaluation fault: non-boolean predicate, division by zero, bad cast.
    Value(String),
}

/// The text shown to a caller for an error.
pub open spec fn message_of(e: Error) -> Seq<char> {
    match e {
        Error::Config(s) => s@,
        Error::InvalidData(s) => s@,
        Error::Internal(s) => s@,
        Error::Parse(s) => s@,
        Error::Value(s) => s@,
        Error::Assert(s) => "assertion failed: "@ + s@,
        Error::Abort => "Operation aborted"@,
        Error::Serialization => "Serialization failure, retry transaction"@,
        Error::ReadOnly => "Read-only transaction"@,
    }
}

impl Error {
    /// Renders the error as the text shown to a caller.
    pub fn to_string(&self) -> (r: String)
        ensures
            r@ == message_of(*self),
    {
        match self {
            Error::Config(s) => s.clone(),
            Error::InvalidData(s) => s.clone(),
            Error::Internal(s) => s.clone(),
            Error::Parse(s) => s.clone(),
            Error::Value(s) => s.clone(),
            Error::Assert(s) => String::from_str("assertion failed: ").concat(s.as_str()),
            Error::Abort => String::from_str("Operation aborted"),
            Error::Serialization => String::from_str("Serialization failure, retry transaction"),
            Error::ReadOnly => String::from_str("Read-only transaction"),
        }
    }
}

impl<T> From<Error> for Result<T> {
    /// An error converts into the failed result that carries it.
    fn from(error: Error) -> (r: Result<T>)
        ensures
            r == Err::<T, Error>(error),
    {
        Err(error)
    }
}

impl<T> FromSpecImpl<Error> for Result<T> {
    open spec fn obeys_from_spec() -> bool {
        true
    }

    open spec fn from_spec(v: Error) -> Result<T> {
        Err(v)
    }
}

impl From<Box<bincode::ErrorKind>> for Error {
    /// Wraps the foreign error as `InvalidData`, keeping its display text as the message.
    fn from(err: Box<bincode::ErrorKind>) -> (r: Error)
        ensures
            r is InvalidData,
            to_string_from_display_ensures::<Box<bincode::ErrorKind>>(&err, r->InvalidData_0),
    {
        Error::InvalidData(err.to_string())
    }
}

// The conversions below keep the foreign error's display text, of which nothing is
// specified; so `from_spec` is not claimed, and each `from` states its kind and message.
impl FromSpecImpl<Box<bincode::ErrorKind>> for Error {
    open spec fn obeys_from_spec() -> bool {
        false
    }

    open spec fn from_spec(v: Box<bincode::ErrorKind>) -> Error {
        Error::Abort
    }
}

impl From<config::ConfigError> for Error {
    /// Wraps the foreign error as `Config`, keeping its display text as the message.
    fn from(err: config::ConfigError) -> (r: Error)
        ensures
            r is Config,
            to_string_from_display_ensures::<config::ConfigError>(&err, r->Config_0),
    {
        Error::Config(err.to_string())
    }
}

impl FromSpecImpl<config::ConfigError> for Error {
    open spec fn obeys_from_spec() -> bool {
        false
    }

    open spec fn from_spec(v: config::ConfigError) -> Error {
        Error::Abort
    }
}

impl From<crossbeam::channel::RecvError> for Error {
    /// Wraps the foreign error as `Internal`, keeping its display text as the message.
    fn from(err: crossbeam::channel::RecvError) -> (r: Error)
        ensures
            r is Internal,
            to_string_from_display_ensures::<crossbeam::channel::RecvError>(&err, r->Internal_0),
    {
        Error::Internal(err.to_string())
    }
}

impl FromSpecImpl<crossbeam::channel::RecvError> for Error {
    open spec fn obeys_from_spec() -> bool {
        false
    }

    open spec fn from_spec(v: crossbeam::channel::RecvError) -> Error {
        Error::Abort
    }
}

impl<T> From<crossbeam::channel::SendError<T>> for Error {
    /// Wraps the foreign error as `Internal`, keeping its display text as the message.
    fn from(err: crossbeam::channel::SendError<T>) -> (r: Error)
        ensures
            r is Internal,
            to_string_from_display_ensures::<crossbeam::channel::SendError<T>>(&err, r->Internal_0),
    {
        Error::Internal(err.to_string())
    }
}

impl<T> FromSpecImpl<crossbeam::channel::SendError<T>> for Error {
    open spec fn obeys_from_spec() -> bool {
        false
    }

    open spec fn from_spec(v: crossbeam::channel::SendError<T>) -> Error {
        Error::Abort
    }
}

impl From<crossbeam::channel::TryRecvError> for Error {
    /// Wraps the foreign error as `Internal`, keeping its display text as the message.
    fn from(err: crossbeam::channel::TryRecvError) -> (r: Error)
        ensures
            r is Internal,
            to_string_from_display_ensures::<crossbeam::channel::TryRecvError>(&err, r->Internal_0),
    {
        Error::Internal(err.to_string())
    }
}

impl FromSpecImpl<crossbeam::channel::TryRecvError> for Error {
    open spec fn obeys_from_spec() -> bool {
        false
    }

    open spec fn from_spec(v: crossbeam::channel::TryRecvError) -> Error {
        Error::Abort
    }
}

impl<T> From<crossbeam::channel::TrySendError<T>> for Error {
    /// Wraps the foreign error as `Internal`, keeping its display text as the message.
    fn from(err: crossbeam::channel::TrySendError<T>) -> (r: Error)
        ensures
            r is Internal,
            to_string_from_display_ensures::<crossbeam::channel::TrySendError<T>>(&err, r->Internal_0),
    {
        Error::Internal(err.to_string())
    }
}

impl<T> FromSpecImpl<crossbeam::channel::TrySendError<T>> for Error {
    open spec fn obeys_from_spec() -> bool {
        false
    }

    open spec fn from_spec(v: crossbeam::channel::TrySendError<T>) -> Error {
        Error::Abort
    }
}

impl From<hdrhistogram::CreationError> for Error {
    /// Wraps the foreign error as `Internal`, keeping its display text as the message.
    fn from(err: hdrhistogram::CreationError) -> (r: Error)
        ensures
            r is Internal,
            to_string_from_display_ensures::<hdrhistogram::CreationError>(&err, r->Internal_0),
    {
        Error::Internal(err.to_string())
    }
}

impl FromSpecImpl<hdrhistogram::CreationError> for Error {
    open spec fn obeys_from_spec() -> bool {
        false
    }

    open spec fn from_spec(v: hdrhistogram::CreationError) -> Error {
        Error::Abort
    }
}

impl From<hdrhistogram::RecordError> for Error {
    /// Wraps the foreign error as `Internal`, keeping its display text as the message.
    fn from(err: hdrhistogram::RecordError) -> (r: Error)
        ensures
            r is Internal,
            to_string_from_display_ensures::<hdrhistogram::RecordError>(&err, r->Internal_0),
    {
        Error::Internal(err.to_string())
    }
}

impl FromSpecImpl<hdrhistogram::RecordError> for Error {
    open spec fn obeys_from_spec() -> bool {
        false
    }

    open spec fn from_spec(v: hdrhistogram::RecordError) -> Error {
        Error::Abort
    }
}

impl From<hex::FromHexError> for Error {
    /// Wraps the foreign error as `Internal`, keeping its display text as the message.
    fn from(err: hex::FromHexError) -> (r: Error)
        ensures
            r is Internal,
            to_string_from_display_ensures::<hex::FromHexError>(&err, r->Internal_0),
    {
        Error::Internal(err.to_string())
    }
}

impl FromSpecImpl<hex::FromHexError> for Error {
    open spec fn obeys_from_spec() -> bool {
        false
    }

    open spec fn from_spec(v: hex::FromHexError) -> Error {
        Error::Abort
    }
}

impl From<log::ParseLevelError> for Error {
    /// Wraps the foreign error as `Config`, keeping its display text as the message.
    fn from(err: log::ParseLevelError) -> (r: Error)
        ensures
            r is Config,
            to_string_from_display_ensures::<log::ParseLevelError>(&err, r->Config_0),
    {
        Error::Config(err.to_string())
    }
}

impl FromSpecImpl<log::ParseLevelError> for Error {
    open spec fn obeys_from_spec() -> bool {
        false
    }

    open spec fn from_spec(v: log::ParseLevelError) -> Error {
        Error::Abort
    }
}

impl From<log::SetLoggerError> for Error {
    /// Wraps the foreign error as `Config`, keeping its display text as the message.
    fn from(err: log::SetLoggerError) -> (r: Error)
        ensures
            r is Config,
            to_string_from_display_ensures::<log::SetLoggerError>(&err, r->Config_0),
    {
        Error::Config(err.to_string())
    }
}

impl FromSpecImpl<log::SetLoggerError> for Error {
    open spec fn obeys_from_spec() -> bool {
        false
    }

    open spec fn from_spec(v: log::SetLoggerError) -> Error {
        Error::Abort
    }
}

impl From<RegexError> for Error {
    /// Wraps the foreign error as `Value`, keeping its display text as the message.
    fn from(err: RegexError) -> (r: Error)
        ensures
            r is Value,
            to_string_from_display_ensures::<RegexError>(&err, r->Value_0),
    {
        Error::Value(err.to_string())
    }
}

impl FromSpecImpl<RegexError> for Error {
    open spec fn obeys_from_spec() -> bool {
        false
    }

    open spec fn from_spec(v: RegexError) -> Error {
        Error::Abort
    }
}

impl From<rustyline::error::ReadlineError> for Error {
    /// Wraps the foreign error as `Internal`, keeping its display text as the message.
    fn from(err: rustyline::error::ReadlineError) -> (r: Error)
        ensures
            r is Internal,
            to_string_from_display_ensures::<rustyline::error::ReadlineError>(&err, r->Internal_0),
    {
        Error::Internal(err.to_string())
    }
}

impl FromSpecImpl<rustyline::error::ReadlineError> for Error {
    open spec fn obeys_from_spec() -> bool {
        false
    }

    open spec fn from_spec(v: rustyline::error::ReadlineError) -> Error {
        Error::Abort
    }
}

impl From<std::array::TryFromSliceError> for Error {
    /// Wraps the foreign error as `Internal`, keeping its display text as the message.
    fn from(err: std::array::TryFromSliceError) -> (r: Error)
        ensures
            r is Internal,
            to_string_from_display_ensures::<std::array::TryFromSliceError>(&err, r->Internal_0),
    {
        Error::Internal(err.to_string())
    }
}

impl FromSpecImpl<std::array::TryFromSliceError> for Error {
    open spec fn obeys_from_spec() -> bool {
        false
    }

    open spec fn from_spec(v: std::array::TryFromSliceError) -> Error {
        Error::Abort
    }
}

impl From<std::num::TryFromIntError> for Error {
    /// Wraps the foreign error as `Value`, keeping its display text as the message.
    fn from(err: std::num::TryFromIntError) -> (r: Error)
        ensures
            r is Value,
            to_string_from_display_ensures::<std::num::TryFromIntError>(&err, r->Value_0),
    {
        Error::Value(err.to_string())
    }
}

impl FromSpecImpl<std::num::TryFromIntError> for Error {
    open spec fn obeys_from_spec() -> bool {
        false
    }

    open spec fn from_spec(v: std::num::TryFromIntError) -> Error {
        Error::Abort
    }
}

impl From<IoError> for Error {
    /// Wraps the foreign error as `Internal`, keeping its display text as the message.
    fn from(err: IoError) -> (r: Error)
        ensures
            r is Internal,
            to_string_from_display_ensures::<IoError>(&err, r->Internal_0),
    {
        Error::Internal(err.to_string())
    }
}

impl FromSpecImpl<IoError> for Error {
    open spec fn obeys_from_spec() -> bool {
        false
    }

    open spec fn from_spec(v: IoError) -> Error {
        Error::Abort
    }
}

impl From<std::num::ParseFloatError> for Error {
    /// Wraps the foreign error as `Parse`, keeping its display text as the message.
    fn from(err: std::num::ParseFloatError) -> (r: Error)
        ensures
            r is Parse,
            to_string_from_display_ensures::<std::num::ParseFloatError>(&err, r->Parse_0),
    {
        Error::Parse(err.to_string())
    }
}

impl FromSpecImpl<std::num::ParseFloatError> for Error {
    open spec fn obeys_from_spec() -> bool {
        false
    }

    open spec fn from_spec(v: std::num::ParseFloatError) -> Error {
        Error::Abort
    }
}

impl From<std::num::ParseIntError> for Error {
    /// Wraps the foreign error as `Parse`, keeping its display text as the message.
    fn from(err: std::num::ParseIntError) -> (r: Error)
        ensures
            r is Parse,
            to_string_from_display_ensures::<std::num::ParseIntError>(&err, r->Parse_0),
    {
        Error::Parse(err.to_string())
    }
}

impl FromSpecImpl<std::num::ParseIntError> for Error {
    open spec fn obeys_from_spec() -> bool {
        false
    }

    open spec fn from_spec(v: std::num::ParseIntError) -> Error {
        Error::Abort
    }
}

impl From<std::string::FromUtf8Error> for Error {
    /// Wraps the foreign error as `Internal`, keeping its display text as the message.
    fn from(err: std::string::FromUtf8Error) -> (r: Error)
        ensures
            r is Internal,
            to_string_from_display_ensures::<std::string::FromUtf8Error>(&err, r->Internal_0),
    {
        Error::Internal(err.to_string())
    }
}

impl FromSpecImpl<std::string::FromUtf8Error> for Error {
    open spec fn obeys_from_spec() -> bool {
        false
    }

    open spec fn from_spec(v: std::string::FromUtf8Error) -> Error {
        Error::Abort
    }
}

impl<T> From<std::sync::PoisonError<T>> for Error {
    /// Wraps the foreign error as `Internal`, keeping its display text as the message.
    fn from(err: std::sync::PoisonError<T>) -> (r: Error)
        ensures
            r is Internal,
            to_string_from_display_ensures::<std::sync::PoisonError<T>>(&err, r->Internal_0),
    {
        Error::Internal(err.to_string())
    }
}

impl<T> FromSpecImpl<std::sync::PoisonError<T>> for Error {
    open spec fn obeys_from_spec() -> bool {
        false
    }

    open spec fn from_spec(v: std::sync::PoisonError<T>) -> Error {
        Error::Abort
    }
}
} // verus!
