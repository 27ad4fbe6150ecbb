//! Invocation settings for Git and the mapping of Git's failure text onto specific error codes.
use vstd::prelude::*;

use crate::error::{kept_details, opt_text, AppError, ErrorCode};
use crate::process::runner::{diagnostics_spec, exit_code_string, exit_code_text, CommandOutput};
use crate::text::{
    chars_of, concat_text, contains, contains_any, contains_exec, lit, string_of, to_lowercase,
    unicode_lowercase,
};

verus! {

/// Thin description of the Git executable to run.
#[derive(Debug, Clone)]
pub struct Git {
    program: String,
}

impl Git {
    /// The program that is run for Git commands.
    pub closed spec fn program_text(&self) -> Seq<char> {
        self.program@
    }

    /// Uses the explicit executable when one is configured, else `git` from PATH.
    pub fn new(explicit_program: Option<String>) -> (g: Self)
        ensures
            g.program_text() == match explicit_program {
                Some(program) => program@,
                None => "git"@,
            },
    {
        match explicit_program {
            Some(program) => Git { program },
            None => Git { program: "git".to_string() },
        }
    }

    pub fn program(&self) -> (r: &str)
        ensures
            r@ == self.program_text(),
    {
        self.program.as_str()
    }
}

impl Default for Git {
    fn default() -> (g: Self)
        ensures
            g.program_text() == "git"@,
    {
        Self::new(None)
    }
}

pub open spec fn git_not_found_message(program: Seq<char>) -> Seq<char> {
    "Git was not found at \""@ + program + "\"."@
}

pub fn git_not_found(program: &str) -> (e: AppError)
    ensures
        e.code == ErrorCode::GitNotFound,
        e.message@ == git_not_found_message(program@),
        opt_text(e.hint) == Some(
            "Install Git for Windows, or set an explicit git path in Settings."@,
        ),
        e.details is None,
{
    let mut message = lit("Git was not found at \"");
    let ghost head = message@;
    let name = chars_of(program);
    let mut i: usize = 0;
    while i < name.len()
        invariant
            i <= name@.len(),
            message@ == head + name@.take(i as int),
        decreases name.len() - i,
    {
        message.push(name[i]);
        i += 1;
        assert(message@ =~= head + name@.take(i as int));
    }
    assert(name@.take(name@.len() as int) =~= name@);
    let tail = lit("\".");
    let ghost middle = message@;
    let mut k: usize = 0;
    while k < tail.len()
        invariant
            k <= tail@.len(),
            message@ == middle + tail@.take(k as int),
        decreases tail.len() - k,
    {
        message.push(tail[k]);
        k += 1;
        assert(message@ =~= middle + tail@.take(k as int));
    }
    assert(tail@.take(tail@.len() as int) =~= tail@);
    let text = string_of(message.as_slice());
    AppError::new(ErrorCode::GitNotFound, text.as_str()).with_hint(
        "Install Git for Windows, or set an explicit git path in Settings.",
    )
}

/// The error code for lower-cased Git diagnostics: the first known failure whose text occurs.
pub open spec fn git_failure_code(lowered: Seq<char>) -> ErrorCode {
    if contains(lowered, "not a git repository"@) {
        ErrorCode::NotARepository
    } else if contains(lowered, "not possible to fast-forward"@) || contains(
        lowered,
        "divergent branches"@,
    ) || contains(lowered, "refusing to merge unrelated histories"@) {
        ErrorCode::NotFastForward
    } else if contains(lowered, "would be overwritten"@) || contains(lowered, "local changes"@)
        || contains(lowered, "please commit your changes or stash them"@) {
        ErrorCode::DirtyWorktree
    } else if contains(lowered, "unknown revision"@) || contains(
        lowered,
        "did not match any file(s) known to git"@,
    ) || contains(lowered, "invalid reference"@) || contains(lowered, "pathspec"@) {
        ErrorCode::UnknownRef
    } else if contains(lowered, "remote"@) && contains(lowered, "already exists"@) {
        ErrorCode::RemoteExists
    } else if contains(lowered, "no such remote"@) {
        ErrorCode::RemoteNotFound
    } else if contains(lowered, "already exists and is not an empty directory"@) {
        ErrorCode::DirectoryNotEmpty
    } else {
        ErrorCode::GitFailed
    }
}

pub open spec fn git_failure_message(code: ErrorCode, exit_code: Option<i32>) -> Seq<char> {
    match code {
        ErrorCode::NotARepository => "That folder is not a Git repository."@,
        ErrorCode::NotFastForward => "The branch cannot be fast-forwarded."@,
        ErrorCode::DirtyWorktree => "The working tree has local changes that would be overwritten."@,
        ErrorCode::UnknownRef => "That reference does not exist."@,
        ErrorCode::RemoteExists => "A remote with that name already exists."@,
        ErrorCode::RemoteNotFound => "That remote does not exist."@,
        ErrorCode::DirectoryNotEmpty => "The destination folder already exists and is not empty."@,
        _ => "Git exited with code "@ + exit_code_text(exit_code) + "."@,
    }
}

pub open spec fn git_failure_hint(code: ErrorCode) -> Option<Seq<char>> {
    match code {
        ErrorCode::NotARepository => Some(
            "Choose the folder containing llama.cpp's .git directory, or clone a new source."@,
        ),
        ErrorCode::NotFastForward => Some(
            "Local commits diverge from the upstream branch. Review the changes before updating."@,
        ),
        ErrorCode::DirtyWorktree => Some("Commit, stash, or discard the changes first."@),
        ErrorCode::UnknownRef => Some(
            "Fetch first, then pick a branch, tag, or commit that the repository knows about."@,
        ),
        ErrorCode::DirectoryNotEmpty => Some(
            "Pick an empty folder, or add the existing checkout as a source instead."@,
        ),
        _ => None,
    }
}

fn exit_code_message(exit_code: Option<i32>) -> (r: String)
    ensures
        r@ == "Git exited with code "@ + exit_code_text(exit_code) + "."@,
{
    let code = exit_code_string(exit_code);
    concat_text(concat_text("Git exited with code ", code.as_str()).as_str(), ".")
}

/// Maps lower-cased Git diagnostics onto a specific error. Anything unrecognised stays a generic
/// `GitFailed` carrying the exit code; the raw diagnostics are always attached unless blank.
pub fn classify_lowered_failure(lowered: &str, exit_code: Option<i32>, diagnostics: &str) -> (e:
    AppError)
    ensures
        e.code == git_failure_code(lowered@),
        e.message@ == git_failure_message(git_failure_code(lowered@), exit_code),
        opt_text(e.hint) == git_failure_hint(git_failure_code(lowered@)),
        opt_text(e.details) == kept_details(None, diagnostics@),
{
    let text = chars_of(lowered);
    let t = text.as_slice();
    let error = if contains_exec(t, lit("not a git repository").as_slice()) {
        AppError::new(ErrorCode::NotARepository, "That folder is not a Git repository.").with_hint(
            "Choose the folder containing llama.cpp's .git directory, or clone a new source.",
        )
    } else if contains_any(
        t,
        &[
            "not possible to fast-forward",
            "divergent branches",
            "refusing to merge unrelated histories",
        ],
    ) {
        AppError::new(ErrorCode::NotFastForward, "The branch cannot be fast-forwarded.").with_hint(
            "Local commits diverge from the upstream branch. Review the changes before updating.",
        )
    } else if contains_any(
        t,
        &["would be overwritten", "local changes", "please commit your changes or stash them"],
    ) {
        AppError::new(
            ErrorCode::DirtyWorktree,
            "The working tree has local changes that would be overwritten.",
        ).with_hint("Commit, stash, or discard the changes first.")
    } else if contains_any(
        t,
        &[
            "unknown revision",
            "did not match any file(s) known to git",
            "invalid reference",
            "pathspec",
        ],
    ) {
        AppError::new(ErrorCode::UnknownRef, "That reference does not exist.").with_hint(
            "Fetch first, then pick a branch, tag, or commit that the repository knows about.",
        )
    } else if contains_exec(t, lit("remote").as_slice()) && contains_exec(
        t,
        lit("already exists").as_slice(),
    ) {
        AppError::new(ErrorCode::RemoteExists, "A remote with that name already exists.")
    } else if contains_exec(t, lit("no such remote").as_slice()) {
        AppError::new(ErrorCode::RemoteNotFound, "That remote does not exist.")
    } else if contains_exec(t, lit("already exists and is not an empty directory").as_slice()) {
        AppError::new(
            ErrorCode::DirectoryNotEmpty,
            "The destination folder already exists and is not empty.",
        ).with_hint("Pick an empty folder, or add the existing checkout as a source instead.")
    } else {
        let message = exit_code_message(exit_code);
        AppError::new(ErrorCode::GitFailed, message.as_str())
    };
    error.with_details(diagnostics)
}

/// Maps well-known Git failure text onto specific error codes.
pub fn classify_failure(output: &CommandOutput) -> (e: AppError)
    ensures
        ({
            let lowered = unicode_lowercase(diagnostics_spec(output.stdout@, output.stderr@));
            &&& e.code == git_failure_code(lowered)
            &&& e.message@ == git_failure_message(git_failure_code(lowered), output.exit_code)
            &&& opt_text(e.hint) == git_failure_hint(git_failure_code(lowered))
            &&& opt_text(e.details) == kept_details(
                None,
                diagnostics_spec(output.stdout@, output.stderr@),
            )
        }),
{
    let diagnostics = output.diagnostics();
    let lowered = to_lowercase(diagnostics.as_str());
    classify_lowered_failure(lowered.as_str(), output.exit_code, diagnostics.as_str())
}

} // verus!
