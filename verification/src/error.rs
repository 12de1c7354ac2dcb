//! The failure kinds of the library and their exit codes.

use vstd::prelude::*;

verus! {

/// `std::io::Error`: an I/O failure of the operating system. Nothing is
/// said of what it holds; it is carried through untouched.
#[verifier::external_type_specification]
#[verifier::external_body]
pub struct ExIoError(std::io::Error);

pub type TideResult<T> = Result<T, TideError>;

/// Every way a resolution can fail. Paths are kept as text.
#[derive(Debug)]
pub enum TideError {
    NotGitRepository { path: String },
    GitCommand { args: Vec<String>, stderr: String, code: Option<i32> },
    InvalidUtf8,
    InvalidReleaseTag { tag: String, prefix: String },
    NoReleaseAnchor { prefix: String },
    TimestampAnomaly { anchor_ts: i64, target_ts: i64 },
    InvalidTimezone { value: String },
    ConfigParse { path: String, message: String },
    ConfigExists { path: String },
    FileHistoryNotFound { path: String },
    CacheFormat { message: String },
    InvalidServiceInterval { minutes: u32 },
    UnsupportedPlatform { feature: String },
    MissingHomeDirectory,
    SystemCommand { program: String, args: Vec<String>, stderr: String, code: Option<i32> },
    Io { path: String, source: std::io::Error },
    Internal { message: String },
}

/// The four classes of failure, each with its exit code.
#[derive(Debug, Clone, Copy, PartialEq, Eq, Structural)]
pub enum ErrorClass {
    /// Malformed input or configuration.
    Validation,
    /// The repository or an external tool failed.
    Environment,
    /// The data admits no answer.
    Semantic,
    /// Broken integrity, or an I/O failure.
    Internal,
}

impl ErrorClass {
    /// The exit code of the class.
    pub open spec fn code(self) -> u8 {
        match self {
            ErrorClass::Validation => 2,
            ErrorClass::Environment => 3,
            ErrorClass::Semantic => 4,
            ErrorClass::Internal => 5,
        }
    }
}

impl TideError {
    /// The class a failure belongs to.
    pub open spec fn class(&self) -> ErrorClass {
        match self {
            TideError::ConfigParse { .. }
            | TideError::InvalidTimezone { .. }
            | TideError::ConfigExists { .. }
            | TideError::InvalidReleaseTag { .. }
            | TideError::InvalidServiceInterval { .. } => ErrorClass::Validation,
            TideError::NotGitRepository { .. }
            | TideError::GitCommand { .. }
            | TideError::SystemCommand { .. } => ErrorClass::Environment,
            TideError::NoReleaseAnchor { .. }
            | TideError::TimestampAnomaly { .. }
            | TideError::FileHistoryNotFound { .. } => ErrorClass::Semantic,
            TideError::InvalidUtf8
            | TideError::CacheFormat { .. }
            | TideError::UnsupportedPlatform { .. }
            | TideError::MissingHomeDirectory
            | TideError::Io { .. }
            | TideError::Internal { .. } => ErrorClass::Internal,
        }
    }

    /// The class a failure belongs to.
    pub fn error_class(&self) -> (c: ErrorClass)
        ensures
            c == self.class(),
    {
        match self {
            TideError::ConfigParse { .. }
            | TideError::InvalidTimezone { .. }
            | TideError::ConfigExists { .. }
            | TideError::InvalidReleaseTag { .. }
            | TideError::InvalidServiceInterval { .. } => ErrorClass::Validation,
            TideError::NotGitRepository { .. }
            | TideError::GitCommand { .. }
            | TideError::SystemCommand { .. } => ErrorClass::Environment,
            TideError::NoReleaseAnchor { .. }
            | TideError::TimestampAnomaly { .. }
            | TideError::FileHistoryNotFound { .. } => ErrorClass::Semantic,
            TideError::InvalidUtf8
            | TideError::CacheFormat { .. }
            | TideError::UnsupportedPlatform { .. }
            | TideError::MissingHomeDirectory
            | TideError::Io { .. }
            | TideError::Internal { .. } => ErrorClass::Internal,
        }
    }

    /// The process exit code for this failure: 2 for validation, 3 for the
    /// environment, 4 for the data, 5 for integrity and I/O.
    pub fn exit_code(&self) -> (code: u8)
        ensures
            code == self.class().code(),
            2 <= code <= 5,
    {
        match self.error_class() {
            ErrorClass::Validation => 2,
            ErrorClass::Environment => 3,
            ErrorClass::Semantic => 4,
            ErrorClass::Internal => 5,
        }
    }
}

/// An I/O failure at `path`.
pub fn io_err(path: String, source: std::io::Error) -> (e: TideError)
    ensures
        e matches TideError::Io { path: p, source: s } && p == path && s == source,
{
    TideError::Io { path, source }
}

} // verus!
