//! The closed set of failure kinds the frontend may branch on, and the structured error carried
//! to it.
use vstd::prelude::*;

use crate::text::{chars_of, is_blank, trim};

verus! {

/// Closed set of failure kinds the frontend is allowed to branch on.
#[derive(Debug, Clone, Copy, PartialEq, Eq, Structural)]
pub enum ErrorCode {
    Io,
    Config,
    InvalidPath,
    ProcessNotFound,
    ProcessFailed,
    GitNotFound,
    GitFailed,
    NotARepository,
    DirectoryNotEmpty,
    DirtyWorktree,
    DetachedHead,
    NoUpstream,
    NotFastForward,
    UnknownRef,
    RemoteExists,
    RemoteNotFound,
    SourceNotFound,
    SourceExists,
    ToolchainIncomplete,
    ConfigureFailed,
    BuildFailed,
    BuildCancelled,
    BuildArtifactMissing,
    BuildInProgress,
    RuntimeExists,
    RuntimeNotFound,
    CapabilityDiscoveryFailed,
    InvalidGguf,
    ModelScanFailed,
    ModelDownloadFailed,
    ModelDownloadInProgress,
    ModelDownloadCancelled,
    InvalidProfile,
    ProfileNotFound,
    PortInUse,
    ServerAlreadyRunning,
    ServerNotRunning,
    ServerStartFailed,
    BenchmarkFailed,
    BenchmarkInProgress,
    BenchmarkCancelled,
    AgentConnectionFailed,
    Unsupported,
    Internal,
}

/// The texts held by an optional string.
pub open spec fn opt_text(o: Option<String>) -> Option<Seq<char>> {
    match o {
        Some(s) => Some(s@),
        None => None,
    }
}

/// Structured, user-facing failure: `message` is shown to the user, `hint` suggests the next
/// action and `details` carries untouched raw tool output.
#[derive(Debug, Clone)]
pub struct AppError {
    pub code: ErrorCode,
    pub message: String,
    pub hint: Option<String>,
    pub details: Option<String>,
}

/// The details an error keeps: blank text is dropped, anything else is kept verbatim.
pub open spec fn kept_details(previous: Option<Seq<char>>, details: Seq<char>) -> Option<
    Seq<char>,
> {
    if trim(details).len() == 0 {
        previous
    } else {
        Some(details)
    }
}

impl AppError {
    pub fn new(code: ErrorCode, message: &str) -> (e: Self)
        ensures
            e.code == code,
            e.message@ == message@,
            e.hint is None,
            e.details is None,
    {
        AppError { code, message: message.to_string(), hint: None, details: None }
    }

    pub fn with_hint(self, hint: &str) -> (e: Self)
        ensures
            e.code == self.code,
            e.message == self.message,
            opt_text(e.hint) == Some(hint@),
            e.details == self.details,
    {
        let mut error = self;
        error.hint = Some(hint.to_string());
        error
    }

    /// Attaches raw output unless it is blank.
    pub fn with_details(self, details: &str) -> (e: Self)
        ensures
            e.code == self.code,
            e.message == self.message,
            e.hint == self.hint,
            opt_text(e.details) == kept_details(opt_text(self.details), details@),
    {
        let mut error = self;
        let characters = chars_of(details);
        if !is_blank(characters.as_slice()) {
            error.details = Some(details.to_string());
        }
        error
    }

    pub fn internal(message: &str) -> (e: Self)
        ensures
            e.code == ErrorCode::Internal,
            e.message@ == message@,
            e.hint is None,
            e.details is None,
    {
        Self::new(ErrorCode::Internal, message)
    }

    pub fn invalid_path(message: &str) -> (e: Self)
        ensures
            e.code == ErrorCode::InvalidPath,
            e.message@ == message@,
            e.hint is None,
            e.details is None,
    {
        Self::new(ErrorCode::InvalidPath, message)
    }

    pub fn unsupported(message: &str) -> (e: Self)
        ensures
            e.code == ErrorCode::Unsupported,
            e.message@ == message@,
            e.hint is None,
            e.details is None,
    {
        Self::new(ErrorCode::Unsupported, message)
    }
}

} // verus!

verus! {

pub type AppResult<T> = Result<T, AppError>;

} // verus!
