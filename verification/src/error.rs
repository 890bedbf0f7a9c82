//! The error type of the library.
use vstd::prelude::*;

verus! {

/// `std::io::Error`, carried through the library as an opaque value.
#[verifier::external_type_specification]
#[verifier::external_body]
pub struct ExIoError(std::io::Error);

/// `serde_yaml::Error`, carried through the library as an opaque value.
#[verifier::external_type_specification]
#[verifier::external_body]
pub struct ExYamlError(serde_yaml::Error);

/// Everything that can go wrong while preparing or launching a game.
#[derive(Debug)]
pub enum KalesaError {
    Io { context: &'static str, source: std::io::Error },
    TargetNotFound(String),
    TargetNotFile(String),
    UnsupportedBinary(String),
    InvalidElf(String),
    InvalidPe(String),
    MissingWinePrefix,
    MissingProtonPath,
    InvalidDesktopValue(String),
    InvalidEnvironmentName(String),
    InvalidRuntimeConfig(String),
    ConfigSerialize(serde_yaml::Error),
    CommandIo { command: String, source: std::io::Error },
    CommandFailed { command: String, code: Option<i32> },
}

impl KalesaError {
    pub fn io(context: &'static str, source: std::io::Error) -> (e: Self)
        ensures
            e == (KalesaError::Io { context, source }),
    {
        KalesaError::Io { context, source }
    }
}

/// `r` is the error `InvalidDesktopValue` with the message `msg`.
pub open spec fn is_desktop_error<T>(r: Result<T, KalesaError>, msg: Seq<char>) -> bool {
    r matches Err(KalesaError::InvalidDesktopValue(m)) && m@ == msg
}

/// `r` is the error `InvalidRuntimeConfig` with the message `msg`.
pub open spec fn is_runtime_error<T>(r: Result<T, KalesaError>, msg: Seq<char>) -> bool {
    r matches Err(KalesaError::InvalidRuntimeConfig(m)) && m@ == msg
}

} // verus!
