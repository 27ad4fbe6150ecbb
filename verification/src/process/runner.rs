//! The captured result of running a process.
use vstd::prelude::*;

use crate::error::{kept_details, opt_text, AppError, ErrorCode};
use crate::process::command::CommandSpec;
use crate::text::{
    chars_of, concat_text, is_blank, push_signed, signed_text, string_of, trim, trim_end,
    trim_end_vec,
};

verus! {

#[derive(Debug, Clone, Copy, PartialEq, Eq, Structural)]
pub enum OutputStream {
    Stdout,
    Stderr,
}

#[derive(Debug, Clone)]
pub struct OutputLine {
    pub stream: OutputStream,
    pub text: String,
}

/// Streamed progress of a long-running tool invocation: a start with its label, each output
/// line in order, and the end.
#[derive(Debug, Clone)]
pub enum ProgressEvent {
    Started { label: String },
    Output { stream: OutputStream, text: String },
    Finished { success: bool },
}

#[derive(Debug, Clone)]
pub struct CommandOutput {
    pub exit_code: Option<i32>,
    pub stdout: String,
    pub stderr: String,
    pub duration_ms: u64,
}

/// Combined output, stderr first because tools report failures there: each non-blank stream with
/// its trailing whitespace removed, joined by a newline.
pub open spec fn diagnostics_spec(stdout: Seq<char>, stderr: Seq<char>) -> Seq<char> {
    let first = if trim(stderr).len() > 0 {
        trim_end(stderr)
    } else {
        Seq::empty()
    };
    if trim(stdout).len() > 0 {
        if first.len() > 0 {
            first + seq!['\n'] + trim_end(stdout)
        } else {
            trim_end(stdout)
        }
    } else {
        first
    }
}

/// `code` rendered for a message, or `unknown` when the process had no exit code.
pub open spec fn exit_code_text(exit_code: Option<i32>) -> Seq<char> {
    match exit_code {
        Some(code) => signed_text(code as int),
        None => "unknown"@,
    }
}

pub fn exit_code_string(exit_code: Option<i32>) -> (r: String)
    ensures
        r@ == exit_code_text(exit_code),
{
    match exit_code {
        Some(code) => {
            let mut v: Vec<char> = Vec::new();
            push_signed(&mut v, code as i64);
            assert(v@ =~= signed_text(code as int));
            string_of(v.as_slice())
        },
        None => "unknown".to_string(),
    }
}

impl CommandOutput {
    pub fn succeeded(&self) -> (r: bool)
        ensures
            r == (self.exit_code == Some(0i32)),
    {
        match self.exit_code {
            Some(code) => code == 0,
            None => false,
        }
    }

    /// Combined output, preferring stderr because tools report failures there.
    pub fn diagnostics(&self) -> (r: String)
        ensures
            r@ == diagnostics_spec(self.stdout@, self.stderr@),
    {
        let stderr = chars_of(self.stderr.as_str());
        let stdout = chars_of(self.stdout.as_str());
        let mut combined: Vec<char> = Vec::new();
        if !is_blank(stderr.as_slice()) {
            combined = trim_end_vec(stderr.as_slice());
        }
        if !is_blank(stdout.as_slice()) {
            let tail = trim_end_vec(stdout.as_slice());
            if combined.len() > 0 {
                combined.push('\n');
            }
            let ghost head = combined@;
            let mut i: usize = 0;
            while i < tail.len()
                invariant
                    i <= tail@.len(),
                    combined@ == head + tail@.take(i as int),
                decreases tail.len() - i,
            {
                combined.push(tail[i]);
                i += 1;
                assert(combined@ =~= head + tail@.take(i as int));
            }
            assert(tail@.take(tail@.len() as int) =~= tail@);
            assert(combined@ =~= diagnostics_spec(self.stdout@, self.stderr@));
        }
        string_of(combined.as_slice())
    }
}

/// The error for a process that could not be started: a missing program is reported with a hint
/// to install it or configure its path, any other failure plainly; both keep the system's message
/// as details.
pub fn spawn_failure(spec: &CommandSpec, not_found: bool, error: &str) -> (e: AppError)
    ensures
        not_found ==> e.code == ErrorCode::ProcessNotFound && e.message@ == spec.program@
            + " was not found."@ && opt_text(e.hint) == Some(
            "Install it, or set an explicit path in Settings."@,
        ),
        !not_found ==> e.code == ErrorCode::ProcessFailed && e.message@ == "Could not start "@
            + spec.program@ + "."@ && e.hint is None,
        opt_text(e.details) == kept_details(None, error@),
{
    let program = spec.program_display();
    if not_found {
        let message = concat_text(program.as_str(), " was not found.");
        return AppError::new(ErrorCode::ProcessNotFound, message.as_str()).with_hint(
            "Install it, or set an explicit path in Settings.",
        ).with_details(error);
    }
    let message = concat_text(concat_text("Could not start ", program.as_str()).as_str(), ".");
    AppError::new(ErrorCode::ProcessFailed, message.as_str()).with_details(error)
}

} // verus!
