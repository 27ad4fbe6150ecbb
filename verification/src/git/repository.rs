//! Safe, fast-forward-only workflows over a Git working copy: the decisions they make and the
//! validation of user-supplied remote names and URLs.
use vstd::prelude::*;

use crate::config::paths::{may_be_absolute, path_is_absolute};
use crate::error::{kept_details, opt_text, AppError, AppResult, ErrorCode};
use crate::git::refs::{
    local_branch_for_remote, plan_checkout, plan_checkout_spec, ref_models, GitRef, RefCheckout,
};
use crate::git::runner::Git;
use crate::process::runner::{diagnostics_spec, CommandOutput};
use crate::git::status::GitStatus;
use crate::text::{chars_of, concat_text, contains, split_once, texts, contains_exec, is_alnum, is_ascii_alphanumeric, lit, starts_with, starts_with_exec, string_of, trim, trimmed};

verus! {

#[derive(Debug, Clone)]
pub struct UpdateOutcome {
    pub previous_commit: Option<String>,
    pub current_commit: Option<String>,
    pub changed: bool,
}

/// A Git working copy and the Git executable that operates on it.
pub struct Repository<'a> {
    pub git: &'a Git,
    pub directory: &'a str,
}

impl<'a> Repository<'a> {
    pub fn new(git: &'a Git, directory: &'a str) -> (r: Self)
        ensures
            r.git == git,
            r.directory == directory,
    {
        Repository { git, directory }
    }
}

/// The upstream a fast-forward merges, or why the update is refused: tracked changes, a
/// detached HEAD or a missing upstream block it, in that order.
pub open spec fn fast_forward_verdict(
    has_tracked_changes: bool,
    detached: bool,
    upstream: Option<Seq<char>>,
) -> Result<Seq<char>, ErrorCode> {
    if has_tracked_changes {
        Err(ErrorCode::DirtyWorktree)
    } else if detached {
        Err(ErrorCode::DetachedHead)
    } else {
        match upstream {
            Some(branch) => Ok(branch),
            None => Err(ErrorCode::NoUpstream),
        }
    }
}

/// Decides whether the current branch may be fast-forwarded and onto which upstream.
pub fn plan_fast_forward(status: &GitStatus) -> (r: AppResult<String>)
    ensures
        match r {
            Ok(upstream) => fast_forward_verdict(
                status.staged > 0 || status.unstaged > 0 || status.conflicted > 0,
                status.detached,
                opt_text(status.upstream),
            ) == Ok::<Seq<char>, ErrorCode>(upstream@),
            Err(e) => fast_forward_verdict(
                status.staged > 0 || status.unstaged > 0 || status.conflicted > 0,
                status.detached,
                opt_text(status.upstream),
            ) == Err::<Seq<char>, ErrorCode>(e.code),
        },
{
    if status.has_tracked_changes() {
        return Err(
            AppError::new(ErrorCode::DirtyWorktree, "The repository has uncommitted changes.").with_hint(
                "Review them first. Nothing is stashed or discarded without an explicit request.",
            ),
        );
    }
    if status.detached {
        return Err(
            AppError::new(
                ErrorCode::DetachedHead,
                "HEAD is detached, so there is no branch to update.",
            ).with_hint("Switch to a branch before updating."),
        );
    }
    match &status.upstream {
        Some(upstream) => Ok(upstream.clone()),
        None => Err(
            AppError::new(
                ErrorCode::NoUpstream,
                "The current branch does not track an upstream branch.",
            ).with_hint("Switch to a tracked branch, or set an upstream with Git."),
        ),
    }
}

impl UpdateOutcome {
    /// The outcome of an update that moved HEAD from `previous` to `current`.
    pub fn between(previous_commit: Option<String>, current_commit: Option<String>) -> (r: Self)
        ensures
            opt_text(r.previous_commit) == opt_text(previous_commit),
            opt_text(r.current_commit) == opt_text(current_commit),
            r.changed == (opt_text(previous_commit) != opt_text(current_commit)),
    {
        let changed = match (&previous_commit, &current_commit) {
            (Some(a), Some(b)) => !(*a == *b),
            (None, None) => false,
            _ => true,
        };
        UpdateOutcome { previous_commit, current_commit, changed }
    }
}

/// The ref a switch targets, or why it is refused: a blank target is unknown, and tracked
/// changes block any switch.
pub fn plan_switch(target: &str, status: &GitStatus) -> (r: AppResult<String>)
    ensures
        match r {
            Ok(t) => trim(target@).len() > 0 && !(status.staged > 0 || status.unstaged > 0
                || status.conflicted > 0) && t@ == trim(target@),
            Err(e) => if trim(target@).len() == 0 {
                e.code == ErrorCode::UnknownRef
            } else {
                (status.staged > 0 || status.unstaged > 0 || status.conflicted > 0) && e.code
                    == ErrorCode::DirtyWorktree
            },
        },
{
    let target = trimmed(chars_of(target).as_slice());
    if target.len() == 0 {
        return Err(
            AppError::new(ErrorCode::UnknownRef, "Enter a branch, tag, or commit to switch to."),
        );
    }
    if status.has_tracked_changes() {
        return Err(
            AppError::new(ErrorCode::DirtyWorktree, "The repository has uncommitted changes.").with_hint(
                "Commit or stash them before switching refs.",
            ),
        );
    }
    Ok(string_of(target.as_slice()))
}

/// The Git arguments that update the current branch: `merge --ff-only <upstream>`, which never
/// creates a merge commit and never resets; refused exactly as `plan_fast_forward` refuses.
pub fn fast_forward_command(status: &GitStatus) -> (r: AppResult<Vec<String>>)
    ensures
        match r {
            Ok(a) => exists|upstream: Seq<char>|
                fast_forward_verdict(
                    status.staged > 0 || status.unstaged > 0 || status.conflicted > 0,
                    status.detached,
                    opt_text(status.upstream),
                ) == Ok::<Seq<char>, ErrorCode>(upstream) && texts(a@) == seq![
                    "merge"@,
                    "--ff-only"@,
                    upstream,
                ],
            Err(e) => fast_forward_verdict(
                status.staged > 0 || status.unstaged > 0 || status.conflicted > 0,
                status.detached,
                opt_text(status.upstream),
            ) == Err::<Seq<char>, ErrorCode>(e.code),
        },
{
    let upstream = plan_fast_forward(status)?;
    let a = vec!["merge".to_string(), "--ff-only".to_string(), upstream];
    assert(texts(a@) =~= seq!["merge"@, "--ff-only"@, a@[2]@]);
    Ok(a)
}

/// The Git arguments that resolve `reference` to a commit without printing errors.
pub fn resolve_ref_command(reference: &str) -> (r: Vec<String>)
    ensures
        texts(r@) == seq!["rev-parse"@, "--verify"@, "--quiet"@, reference@ + "^{commit}"@],
{
    let target = concat_text(reference, "^{commit}");
    let r = vec!["rev-parse".to_string(), "--verify".to_string(), "--quiet".to_string(), target];
    assert(texts(r@) =~= seq!["rev-parse"@, "--verify"@, "--quiet"@, r@[3]@]);
    r
}

/// The commit `git rev-parse --verify` printed for `reference`, or, when it failed or printed
/// nothing, the error that names the reference as unknown with Git's diagnostics.
pub fn resolved_commit(reference: &str, output: &CommandOutput) -> (r: AppResult<String>)
    ensures
        match r {
            Ok(commit) => output.exit_code == Some(0i32) && commit@ == trim(output.stdout@)
                && commit@.len() > 0,
            Err(e) => (output.exit_code != Some(0i32) || trim(output.stdout@).len() == 0) && e.code
                == ErrorCode::UnknownRef && e.message@ == "\""@ + reference@
                + "\" is not a known branch, tag, or commit."@ && opt_text(e.hint) == Some(
                "Fetch the remote first if you expect a newly published ref."@,
            ) && opt_text(e.details) == kept_details(
                None,
                diagnostics_spec(output.stdout@, output.stderr@),
            ),
        },
{
    let resolved = trimmed(chars_of(output.stdout.as_str()).as_slice());
    if !output.succeeded() || resolved.len() == 0 {
        let message = concat_text(
            concat_text("\"", reference).as_str(),
            "\" is not a known branch, tag, or commit.",
        );
        return Err(
            AppError::new(ErrorCode::UnknownRef, message.as_str()).with_hint(
                "Fetch the remote first if you expect a newly published ref.",
            ).with_details(output.diagnostics().as_str()),
        );
    }
    Ok(string_of(resolved.as_slice()))
}

/// The local branch a remote branch `remote/name` is tracked by: `name`, when there is one.
pub open spec fn tracking_branch(remote_branch: Seq<char>) -> Option<Seq<char>> {
    match split_once(remote_branch, '/') {
        Some((_, branch)) => if branch.len() > 0 {
            Some(branch)
        } else {
            None
        },
        None => None,
    }
}

/// The Git arguments that check out `target` (trimmed), never forcing, resetting or stashing: a
/// local branch is switched to, a remote-only branch gets a local tracking branch, and a tag or
/// commit is checked out detached. Refused as `plan_switch` refuses, and when a remote branch
/// names no local branch.
pub fn switch_command(target: &str, refs: &[GitRef], status: &GitStatus) -> (r: AppResult<Vec<String>>)
    ensures
        match r {
            Ok(a) => {
                let t = trim(target@);
                &&& t.len() > 0
                &&& !(status.staged > 0 || status.unstaged > 0 || status.conflicted > 0)
                &&& match plan_checkout_spec(t, ref_models(refs@)) {
                    RefCheckout::LocalBranch => texts(a@) == seq!["switch"@, "--"@, t],
                    RefCheckout::TrackRemoteBranch => tracking_branch(t) matches Some(local)
                        && texts(a@) == seq!["switch"@, "--track"@, "-c"@, local, t],
                    RefCheckout::Detach => texts(a@) == seq!["switch"@, "--detach"@, t],
                }
            },
            Err(e) => {
                let t = trim(target@);
                if t.len() == 0 {
                    e.code == ErrorCode::UnknownRef
                } else if status.staged > 0 || status.unstaged > 0 || status.conflicted > 0 {
                    e.code == ErrorCode::DirtyWorktree
                } else {
                    &&& plan_checkout_spec(t, ref_models(refs@)) == RefCheckout::TrackRemoteBranch
                    &&& tracking_branch(t) is None
                    &&& e.code == ErrorCode::UnknownRef
                    &&& e.message@ == "Could not derive a local branch name from \""@ + t
                        + "\"."@
                }
            },
        },
{
    let t = plan_switch(target, status)?;
    let plan = plan_checkout(t.as_str(), refs);
    match plan {
        RefCheckout::LocalBranch => {
            let a = vec!["switch".to_string(), "--".to_string(), t];
            assert(texts(a@) =~= seq!["switch"@, "--"@, a@[2]@]);
            Ok(a)
        },
        RefCheckout::TrackRemoteBranch => match local_branch_for_remote(t.as_str()) {
            Some(local) => {
                let a = vec![
                    "switch".to_string(),
                    "--track".to_string(),
                    "-c".to_string(),
                    local,
                    t,
                ];
                assert(texts(a@) =~= seq!["switch"@, "--track"@, "-c"@, a@[3]@, a@[4]@]);
                Ok(a)
            },
            None => {
                let message = concat_text(
                    concat_text("Could not derive a local branch name from \"", t.as_str()).as_str(),
                    "\".",
                );
                Err(AppError::new(ErrorCode::UnknownRef, message.as_str()))
            },
        },
        RefCheckout::Detach => {
            let a = vec!["switch".to_string(), "--detach".to_string(), t];
            assert(texts(a@) =~= seq!["switch"@, "--detach"@, a@[2]@]);
            Ok(a)
        },
    }
}

pub open spec fn remote_name_char(c: char) -> bool {
    is_alnum(c) || c == '-' || c == '_' || c == '.'
}

/// Remote names become path components inside `.git`, so they are restricted to a safe subset:
/// after trimming, 1 to 64 letters, digits, dots, dashes and underscores, not starting with a dot
/// or a dash.
pub open spec fn valid_remote_name(name: Seq<char>) -> bool {
    let t = trim(name);
    &&& t.len() > 0
    &&& t.len() <= 64
    &&& forall|i: int| 0 <= i < t.len() ==> remote_name_char(t[i])
    &&& t[0] != '.'
    &&& t[0] != '-'
}

pub fn validate_remote_name(name: &str) -> (r: AppResult<()>)
    ensures
        match r {
            Ok(_) => valid_remote_name(name@),
            Err(e) => !valid_remote_name(name@) && e.code == ErrorCode::InvalidPath && e.message@
                == "Remote names may only contain letters, digits, dots, dashes, and underscores."@
                && opt_text(e.details) == kept_details(None, name@),
        },
{
    let t = trimmed(chars_of(name).as_slice());
    let mut all_allowed = true;
    let mut i: usize = 0;
    while i < t.len()
        invariant
            i <= t@.len(),
            all_allowed == forall|j: int| 0 <= j < i ==> remote_name_char(t@[j]),
        decreases t.len() - i,
    {
        let c = t[i];
        if !(is_ascii_alphanumeric(c) || c == '-' || c == '_' || c == '.') {
            all_allowed = false;
        }
        i += 1;
    }
    let is_valid = t.len() > 0 && t.len() <= 64 && all_allowed && t[0] != '.' && t[0] != '-';
    if is_valid {
        return Ok(());
    }
    Err(
        AppError::new(
            ErrorCode::InvalidPath,
            "Remote names may only contain letters, digits, dots, dashes, and underscores.",
        ).with_details(name),
    )
}

/// The URL forms Git itself supports for network and local clones: a known scheme, an
/// scp-style `user@host:path`, or an absolute local path (`is_absolute_path` tells whether the
/// trimmed URL is one on this platform).
pub open spec fn supported_url(t: Seq<char>, is_absolute_path: bool) -> bool {
    starts_with(t, "https://"@) || starts_with(t, "http://"@) || starts_with(t, "ssh://"@)
        || starts_with(t, "git://"@) || starts_with(t, "file://"@) || (contains(t, seq!['@'])
        && contains(t, seq![':'])) || is_absolute_path
}

/// What checking `url` gives, given whether this platform considers its trimmed text an
/// absolute path.
pub open spec fn url_verdict(url: Seq<char>, is_absolute_path: bool, r: AppResult<()>) -> bool {
    match r {
        Ok(_) => trim(url).len() > 0 && trim(url)[0] != '-' && supported_url(
            trim(url),
            is_absolute_path,
        ),
        Err(e) => e.code == ErrorCode::InvalidPath && (trim(url).len() == 0 || trim(url)[0]
            == '-' || !supported_url(trim(url), is_absolute_path)) && (trim(url).len() == 0
            ==> e.message@ == "A repository URL is required."@) && (trim(url).len() > 0 && trim(
            url,
        )[0] == '-' ==> e.message@ == "A repository URL cannot start with \"-\"."@) && (trim(
            url,
        ).len() > 0 && trim(url)[0] != '-' ==> e.message@
            == "That does not look like a Git repository URL."@),
    }
}

/// Accepts a repository URL unless it is blank, starts with `-` (and could be read as a Git
/// option), or has no supported form.
pub fn repository_url_verdict(url: &str, is_absolute_path: bool) -> (r: AppResult<()>)
    ensures
        url_verdict(url@, is_absolute_path, r),
{
    let t = trimmed(chars_of(url).as_slice());
    if t.len() == 0 {
        return Err(AppError::new(ErrorCode::InvalidPath, "A repository URL is required."));
    }
    let text = string_of(t.as_slice());
    if t[0] == '-' {
        return Err(
            AppError::new(
                ErrorCode::InvalidPath,
                "A repository URL cannot start with \"-\".",
            ).with_details(text.as_str()),
        );
    }
    let ts = t.as_slice();
    let at = ['@'];
    let colon = [':'];
    assert(at@ =~= seq!['@']);
    assert(colon@ =~= seq![':']);
    let is_supported = starts_with_exec(ts, lit("https://").as_slice()) || starts_with_exec(
        ts,
        lit("http://").as_slice(),
    ) || starts_with_exec(ts, lit("ssh://").as_slice()) || starts_with_exec(
        ts,
        lit("git://").as_slice(),
    ) || starts_with_exec(ts, lit("file://").as_slice()) || (contains_exec(ts, &at)
        && contains_exec(ts, &colon)) || is_absolute_path;
    if is_supported {
        return Ok(());
    }
    Err(
        AppError::new(
            ErrorCode::InvalidPath,
            "That does not look like a Git repository URL.",
        ).with_hint("Use an https://, ssh://, git://, scp-style, or absolute local path.").with_details(
            text.as_str(),
        ),
    )
}

/// Accepts the URL forms Git itself supports for network and local clones, and rejects anything
/// that could be interpreted as a Git option.
pub fn validate_repository_url(url: &str) -> (r: AppResult<()>)
    ensures
        exists|is_absolute_path: bool|
            url_verdict(url@, is_absolute_path, r) && (is_absolute_path ==> may_be_absolute(
                trim(url@),
            )),
        (trim(url@).len() > 0 && trim(url@)[0] != '-' && !supported_url(trim(url@), false)
            && !may_be_absolute(trim(url@))) ==> (r matches Err(e) && e.code
            == ErrorCode::InvalidPath && e.message@
            == "That does not look like a Git repository URL."@),
        trim(url@).len() == 0 ==> (r matches Err(e) && e.code == ErrorCode::InvalidPath
            && e.message@ == "A repository URL is required."@),
        (trim(url@).len() > 0 && trim(url@)[0] == '-') ==> (r matches Err(e) && e.code
            == ErrorCode::InvalidPath && e.message@ == "A repository URL cannot start with \"-\"."@),
        (trim(url@).len() > 0 && trim(url@)[0] != '-' && supported_url(trim(url@), false))
            ==> r is Ok,
{
    let t = trimmed(chars_of(url).as_slice());
    let text = string_of(t.as_slice());
    let absolute = path_is_absolute(text.as_str());
    let r = repository_url_verdict(url, absolute);
    assert(url_verdict(url@, absolute, r));
    r
}

} // verus!
