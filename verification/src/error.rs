//! The library's error type.

use vstd::prelude::*;

use crate::text::{push_str, string_of};

verus! {

/// Errors reported by the sandbox's decision logic.
#[derive(Debug, Clone, PartialEq, Eq)]
pub enum Error {
    /// The current platform has no sandbox backend.
    UnsupportedPlatform,
    /// The platform or one of its facilities is older, or configured more
    /// loosely, than the backend requires.
    UnsupportedPlatformVersion { platform: String, minimum: String, current: String },
    /// The backend could not be initialized.
    InitFailed(String),
    /// The kernel accepted a restriction but does not enforce it.
    NotEnforced(String),
    /// A sandbox profile or rule set could not be built.
    InvalidProfile(String),
    /// The configuration is invalid.
    ConfigError(String),
    /// A filesystem operation failed.
    IoError(String),
    /// A call into the operating system failed.
    FfiError(String),
    /// A pseudo-terminal operation failed.
    PtyError(String),
    /// No virtual environment was found at the path.
    VenvNotFound(String),
    /// Creating a virtual environment failed.
    VenvCreationFailed(String),
    /// Installing packages into a virtual environment failed.
    PackageInstallFailed(String),
    /// No Python interpreter could be found.
    PythonNotFound,
    /// Starting or waiting for a process failed.
    ProcessError(String),
}

/// The human-readable text of an error.
pub open spec fn error_message(e: Error) -> Seq<char> {
    match e {
        Error::UnsupportedPlatform => "unsupported platform"@,
        Error::UnsupportedPlatformVersion { platform, minimum, current } => platform@
            + " requires "@ + minimum@ + ", found "@ + current@,
        Error::InitFailed(m) => "initialization failed: "@ + m@,
        Error::NotEnforced(m) => "sandbox not enforced: "@ + m@,
        Error::InvalidProfile(m) => "invalid sandbox profile: "@ + m@,
        Error::ConfigError(m) => "configuration error: "@ + m@,
        Error::IoError(m) => "I/O error: "@ + m@,
        Error::FfiError(m) => "system call failed: "@ + m@,
        Error::PtyError(m) => "PTY error: "@ + m@,
        Error::VenvNotFound(p) => "virtual environment not found: "@ + p@,
        Error::VenvCreationFailed(m) => "virtual environment creation failed: "@ + m@,
        Error::PackageInstallFailed(m) => "package installation failed: "@ + m@,
        Error::PythonNotFound => "Python interpreter not found"@,
        Error::ProcessError(m) => "process error: "@ + m@,
    }
}

impl Error {
    /// The human-readable text of this error (what `Display` would print).
    pub fn message(&self) -> (s: String)
        ensures
            s@ == error_message(*self),
    {
        let mut out: Vec<char> = Vec::new();
        match self {
            Error::UnsupportedPlatform => push_str(&mut out, "unsupported platform"),
            Error::UnsupportedPlatformVersion { platform, minimum, current } => {
                push_str(&mut out, platform.as_str());
                push_str(&mut out, " requires ");
                push_str(&mut out, minimum.as_str());
                push_str(&mut out, ", found ");
                push_str(&mut out, current.as_str());
            },
            Error::InitFailed(m) => {
                push_str(&mut out, "initialization failed: ");
                push_str(&mut out, m.as_str());
            },
            Error::NotEnforced(m) => {
                push_str(&mut out, "sandbox not enforced: ");
                push_str(&mut out, m.as_str());
            },
            Error::InvalidProfile(m) => {
                push_str(&mut out, "invalid sandbox profile: ");
                push_str(&mut out, m.as_str());
            },
            Error::ConfigError(m) => {
                push_str(&mut out, "configuration error: ");
                push_str(&mut out, m.as_str());
            },
            Error::IoError(m) => {
                push_str(&mut out, "I/O error: ");
                push_str(&mut out, m.as_str());
            },
            Error::FfiError(m) => {
                push_str(&mut out, "system call failed: ");
                push_str(&mut out, m.as_str());
            },
            Error::PtyError(m) => {
                push_str(&mut out, "PTY error: ");
                push_str(&mut out, m.as_str());
            },
            Error::VenvNotFound(p) => {
                push_str(&mut out, "virtual environment not found: ");
                push_str(&mut out, p.as_str());
            },
            Error::VenvCreationFailed(m) => {
                push_str(&mut out, "virtual environment creation failed: ");
                push_str(&mut out, m.as_str());
            },
            Error::PackageInstallFailed(m) => {
                push_str(&mut out, "package installation failed: ");
                push_str(&mut out, m.as_str());
            },
            Error::PythonNotFound => push_str(&mut out, "Python interpreter not found"),
            Error::ProcessError(m) => {
                push_str(&mut out, "process error: ");
                push_str(&mut out, m.as_str());
            },
        }
        string_of(&out)
    }
}

/// Results of the library.
pub type Result<T> = core::result::Result<T, Error>;

} // verus!
