//! Foreign error types that are converted into [`crate::error::Error`].
//! Each is opaque here: only its `Display` text is read, through `to_string`.
use regex::Error as RegexError;
use std::io::Error as IoError;
use vstd::prelude::*;

verus! {

/// `bincode::ErrorKind`: carried opaque; its message is read through its `Display` impl.
#[verifier::external_type_specification]
#[verifier::external_body]
pub struct ExBincodeErrorKind(bincode::ErrorKind);

/// `config::ConfigError`: carried opaque; its message is read through its `Display` impl.
#[verifier::external_type_specification]
#[verifier::external_body]
pub struct ExConfigError(config::ConfigError);

/// `crossbeam::channel::RecvError`: carried opaque; its message is read through its `Display` impl.
#[verifier::external_type_specification]
#[verifier::external_body]
pub struct ExRecvError(crossbeam::channel::RecvError);

/// `crossbeam::channel::SendError<T>`: carried opaque; its message is read through its `Display` impl.
#[verifier::external_type_specification]
#[verifier::external_body]
#[verifier::reject_recursive_types(T)]
pub struct ExSendError<T>(crossbeam::channel::SendError<T>);

/// `crossbeam::channel::TryRecvError`: carried opaque; its message is read through its `Display` impl.
#[verifier::external_type_specification]
#[verifier::external_body]
pub struct ExTryRecvError(crossbeam::channel::TryRecvError);

/// `crossbeam::channel::TrySendError<T>`: carried opaque; its message is read through its `Display` impl.
#[verifier::external_type_specification]
#[verifier::external_body]
#[verifier::reject_recursive_types(T)]
pub struct ExTrySendError<T>(crossbeam::channel::TrySendError<T>);

/// `hdrhistogram::CreationError`: carried opaque; its message is read through its `Display` impl.
#[verifier::external_type_specification]
#[verifier::external_body]
pub struct ExCreationError(hdrhistogram::CreationError);

/// `hdrhistogram::RecordError`: carried opaque; its message is read through its `Display` impl.
#[verifier::external_type_specification]
#[verifier::external_body]
pub struct ExRecordError(hdrhistogram::RecordError);

/// `hex::FromHexError`: carried opaque; its message is read through its `Display` impl.
#[verifier::external_type_specification]
#[verifier::external_body]
pub struct ExFromHexError(hex::FromHexError);

/// `log::ParseLevelError`: carried opaque; its message is read through its `Display` impl.
#[verifier::external_type_specification]
#[verifier::external_body]
pub struct ExParseLevelError(log::ParseLevelError);

/// `log::SetLoggerError`: carried opaque; its message is read through its `Display` impl.
#[verifier::external_type_specification]
#[verifier::external_body]
pub struct ExSetLoggerError(log::SetLoggerError);

/// `regex::Error`: carried opaque; its message is read through its `Display` impl.
#[verifier::external_type_specification]
#[verifier::external_body]
pub struct ExRegexError(RegexError);

/// `rustyline::error::ReadlineError`: carried opaque; its message is read through its `Display` impl.
#[verifier::external_type_specification]
#[verifier::external_body]
pub struct ExReadlineError(rustyline::error::ReadlineError);

/// `std::array::TryFromSliceError`: carried opaque; its message is read through its `Display` impl.
#[verifier::external_type_specification]
#[verifier::external_body]
pub struct ExTryFromSliceError(std::array::TryFromSliceError);

/// `std::io::Error`: carried opaque; its message is read through its `Display` impl.
#[verifier::external_type_specification]
#[verifier::external_body]
pub struct ExIoError(IoError);

/// `std::num::ParseFloatError`: carried opaque; its message is read through its `Display` impl.
#[verifier::external_type_specification]
#[verifier::external_body]
pub struct ExParseFloatError(std::num::ParseFloatError);

/// `std::num::ParseIntError`: carried opaque; its message is read through its `Display` impl.
#[verifier::external_type_specification]
#[verifier::external_body]
pub struct ExParseIntError(std::num::ParseIntError);

/// `std::string::FromUtf8Error`: carried opaque; its message is read through its `Display` impl.
#[verifier::external_type_specification]
#[verifier::external_body]
pub struct ExFromUtf8Error(std::string::FromUtf8Error);

/// `std::sync::PoisonError<T>`: carried opaque; its message is read through its `Display` impl.
#[verifier::external_type_specification]
#[verifier::external_body]
#[verifier::reject_recursive_types(T)]
pub struct ExPoisonError<T>(std::sync::PoisonError<T>);

} // verus!
