//! Errors of the library: what went wrong, as plain values.
use vstd::prelude::*;

use crate::text::{owned, push_str};

verus! {

/// Error kind specific to an application error, different from standard errors.
#[derive(Debug, Clone, Copy, PartialEq, Eq, Structural)]
pub enum AppCustomErrorKind {
    SeekPosBeyondEof,
    NoPathForScript,
    UnsupportedPatternType,
    FileNotUsable,
    NotAFile,
    UnsupportedSearchOption,
}

impl AppCustomErrorKind {
    /// The name of the kind.
    pub open spec fn spec_name(self) -> Seq<char> {
        match self {
            AppCustomErrorKind::SeekPosBeyondEof => "SeekPosBeyondEof"@,
            AppCustomErrorKind::NoPathForScript => "NoPathForScript"@,
            AppCustomErrorKind::UnsupportedPatternType => "UnsupportedPatternType"@,
            AppCustomErrorKind::FileNotUsable => "FileNotUsable"@,
            AppCustomErrorKind::NotAFile => "NotAFile"@,
            AppCustomErrorKind::UnsupportedSearchOption => "UnsupportedSearchOption"@,
        }
    }

    /// The name of the kind.
    pub fn name(&self) -> (r: &'static str)
        ensures
            r@ == self.spec_name(),
    {
        match self {
            AppCustomErrorKind::SeekPosBeyondEof => "SeekPosBeyondEof",
            AppCustomErrorKind::NoPathForScript => "NoPathForScript",
            AppCustomErrorKind::UnsupportedPatternType => "UnsupportedPatternType",
            AppCustomErrorKind::FileNotUsable => "FileNotUsable",
            AppCustomErrorKind::NotAFile => "NotAFile",
            AppCustomErrorKind::UnsupportedSearchOption => "UnsupportedSearchOption",
        }
    }
}

/// A string as `{:?}` writes it: between double quotes, with its special characters escaped.
pub uninterp spec fn debug_quoted(s: Seq<char>) -> Seq<char>;

/// Writes a string with `{:?}`; the result is named `debug_quoted`.
#[verifier::external_body]
pub(crate) fn quote(s: &str) -> (r: String)
    ensures
        r@ == debug_quoted(s@),
{
    format!("{:?}", s)
}

/// The kinds of input/output errors that the library tells apart.
#[derive(Debug, Clone, Copy, PartialEq, Eq, Structural)]
pub enum IoErrorKind {
    NotFound,
    PermissionDenied,
    InvalidInput,
    UnexpectedEof,
    Other,
}

/// An input/output error: its kind and its message.
#[derive(Debug)]
pub struct IoError {
    pub kind: IoErrorKind,
    pub msg: String,
}

impl IoError {
    /// A new input/output error.
    pub fn new(kind: IoErrorKind, msg: &str) -> (r: IoError)
        ensures
            r.kind == kind,
            r.msg@ == msg@,
    {
        IoError { kind, msg: owned(msg) }
    }

    /// The kind of the error.
    pub fn kind(&self) -> (r: IoErrorKind)
        ensures
            r == self.kind,
    {
        self.kind
    }
}

/// A specific error type combining all possible error types in the app. Errors that come
/// from elsewhere (I/O, regex compilation, YAML or JSON decoding, time, UTF-8) keep their
/// message.
#[derive(Debug)]
pub enum AppError {
    Io(IoError),
    Regex(String),
    Parse(String),
    Yaml(String),
    Json(String),
    SystemTime(String),
    Utf8Error(String),
    App { err: AppCustomErrorKind, msg: String },
}

impl Clone for IoError {
    fn clone(&self) -> (r: IoError)
        ensures
            r == *self,
    {
        IoError { kind: self.kind, msg: self.msg.clone() }
    }
}

impl Clone for AppError {
    fn clone(&self) -> (r: AppError)
        ensures
            r == *self,
    {
        match self {
            AppError::Io(e) => AppError::Io(e.clone()),
            AppError::Regex(m) => AppError::Regex(m.clone()),
            AppError::Parse(m) => AppError::Parse(m.clone()),
            AppError::Yaml(m) => AppError::Yaml(m.clone()),
            AppError::Json(m) => AppError::Json(m.clone()),
            AppError::SystemTime(m) => AppError::SystemTime(m.clone()),
            AppError::Utf8Error(m) => AppError::Utf8Error(m.clone()),
            AppError::App { err, msg } => AppError::App { err: *err, msg: msg.clone() },
        }
    }
}

impl AppError {
    /// A simple and convenient creation of a new application error.
    pub fn new(err: AppCustomErrorKind, msg: &str) -> (r: AppError)
        ensures
            r matches AppError::App { err: e, msg: m } && e == err && m@ == msg@,
    {
        AppError::App { err: err, msg: owned(msg) }
    }

    /// The error's message: that of the error met for errors which come from elsewhere, and
    /// for an application error its kind and message.
    pub open spec fn spec_to_string(&self) -> Seq<char> {
        match self {
            AppError::Io(e) => e.msg@,
            AppError::Regex(m) => m@,
            AppError::Parse(m) => m@,
            AppError::Yaml(m) => m@,
            AppError::Json(m) => m@,
            AppError::SystemTime(m) => m@,
            AppError::Utf8Error(m) => m@,
            AppError::App { err, msg } => "A custom error occurred "@ + err.spec_name()
                + ", custom msg "@ + debug_quoted(msg@),
        }
    }

    /// The error's message: that of the error met for errors which come from elsewhere, and
    /// for an application error its kind and message.
    pub fn to_string(&self) -> (r: String)
        ensures
            r@ == self.spec_to_string(),
    {
        match self {
            AppError::Io(e) => e.msg.clone(),
            AppError::Regex(m) => m.clone(),
            AppError::Parse(m) => m.clone(),
            AppError::Yaml(m) => m.clone(),
            AppError::Json(m) => m.clone(),
            AppError::SystemTime(m) => m.clone(),
            AppError::Utf8Error(m) => m.clone(),
            AppError::App { err, msg } => {
                let mut s = owned("A custom error occurred ");
                push_str(&mut s, err.name());
                push_str(&mut s, ", custom msg ");
                push_str(&mut s, quote(msg.as_str()).as_str());
                s
            },
        }
    }

    /// Returns the I/O error kind if this is an I/O error.
    pub fn get_ioerror(&self) -> (r: Option<IoErrorKind>)
        ensures
            r == (match self {
                AppError::Io(e) => Some(e.kind),
                _ => None::<IoErrorKind>,
            }),
    {
        match self {
            AppError::Io(e) => Some(e.kind),
            _ => None,
        }
    }
}

/// All non-Nagios exit codes of the program.
#[allow(non_camel_case_types)]
#[derive(Debug, Clone, Copy, PartialEq, Eq, Structural)]
pub enum AppExitCode {
    /// Error during loading of the YAML file.
    CONFIG_ERROR,
    /// When just reading the config file.
    CONFIG_CHECK,
    /// Error when creating logger file.
    LOGGER_ERROR,
    /// Error when deleting snapshot file.
    SNAPSHOT_DELETE_ERROR,
    /// Error when saving snapshot file.
    SNAPSHOT_SAVE_ERROR,
    /// Error when reading stdin.
    STDIN_ERROR,
    /// Exit when showing options.
    SHOW_OPTIONS,
    /// Error converting to an integer.
    ERROR_CONV,
    /// IO error on config file.
    CONFIG_IO_ERROR,
}

impl AppExitCode {
    /// The process exit code.
    pub open spec fn spec_code(self) -> i32 {
        match self {
            AppExitCode::CONFIG_ERROR => 101,
            AppExitCode::CONFIG_CHECK => 102,
            AppExitCode::LOGGER_ERROR => 103,
            AppExitCode::SNAPSHOT_DELETE_ERROR => 104,
            AppExitCode::SNAPSHOT_SAVE_ERROR => 105,
            AppExitCode::STDIN_ERROR => 106,
            AppExitCode::SHOW_OPTIONS => 107,
            AppExitCode::ERROR_CONV => 108,
            AppExitCode::CONFIG_IO_ERROR => 109,
        }
    }

    /// The process exit code.
    pub fn code(&self) -> (r: i32)
        ensures
            r == self.spec_code(),
    {
        match self {
            AppExitCode::CONFIG_ERROR => 101,
            AppExitCode::CONFIG_CHECK => 102,
            AppExitCode::LOGGER_ERROR => 103,
            AppExitCode::SNAPSHOT_DELETE_ERROR => 104,
            AppExitCode::SNAPSHOT_SAVE_ERROR => 105,
            AppExitCode::STDIN_ERROR => 106,
            AppExitCode::SHOW_OPTIONS => 107,
            AppExitCode::ERROR_CONV => 108,
            AppExitCode::CONFIG_IO_ERROR => 109,
        }
    }
}

} // verus!
