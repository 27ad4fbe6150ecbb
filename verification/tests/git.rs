use llamapilot::error::ErrorCode;
use llamapilot::git::refs::{
    local_branch_for_remote, parse_commit, parse_refs, parse_remote_head, parse_symref_default_branch,
    plan_checkout, GitRefKind, RefCheckout, FIELD_SEPARATOR,
};
use llamapilot::git::remote::{describe_repository, parse_remotes};
use llamapilot::git::repository::{
    fast_forward_command, resolve_ref_command, resolved_commit, switch_command, validate_remote_name, validate_repository_url,
};
use llamapilot::git::runner::classify_failure;
use llamapilot::git::status::{parse_status, GitStatus};
use llamapilot::process::runner::CommandOutput;

fn line(fields: &[&str]) -> String {
    fields.join(&FIELD_SEPARATOR.to_string())
}

#[test]
fn parses_local_branches_with_upstream_and_head_marker() {
    let output = line(&[
        "refs/heads/master",
        "a1b2c3d4e5f60718293a4b5c6d7e8f9012345678",
        "",
        "2026-08-24T10:11:12+02:00",
        "origin/master",
        "*",
    ]);
    let refs = parse_refs(&output);
    let reference = refs.first().expect("one ref");
    assert_eq!(reference.kind, GitRefKind::LocalBranch);
    assert_eq!(reference.name, "master");
    assert_eq!(reference.short_commit, "a1b2c3d");
    assert_eq!(reference.upstream.as_deref(), Some("origin/master"));
    assert!(reference.is_head);
}

#[test]
fn parses_remote_branches_and_extracts_the_remote_name() {
    let output = line(&[
        "refs/remotes/experimental/dflash-wip",
        "92fac1a0b1c2d3e4f50617283940a1b2c3d4e5f6",
        "",
        "2026-08-20T08:00:00+02:00",
        "",
        "",
    ]);
    let reference = parse_refs(&output).into_iter().next().expect("one ref");
    assert_eq!(reference.kind, GitRefKind::RemoteBranch);
    assert_eq!(reference.name, "experimental/dflash-wip");
    assert_eq!(reference.remote.as_deref(), Some("experimental"));
    assert!(!reference.is_head);
}

#[test]
fn annotated_tags_resolve_to_the_dereferenced_commit() {
    let output = line(&[
        "refs/tags/b7104",
        "ffffffffffffffffffffffffffffffffffffffff",
        "812abc9d0e1f2a3b4c5d6e7f8091a2b3c4d5e6f7",
        "2026-08-20T08:00:00+02:00",
        "",
        "",
    ]);
    let reference = parse_refs(&output).into_iter().next().expect("one ref");
    assert_eq!(reference.kind, GitRefKind::Tag);
    assert_eq!(reference.commit, "812abc9d0e1f2a3b4c5d6e7f8091a2b3c4d5e6f7");
    assert_eq!(reference.short_commit, "812abc9");
}

#[test]
fn lightweight_tags_use_the_object_name_directly() {
    let output = line(&[
        "refs/tags/b7105",
        "0123456789abcdef0123456789abcdef01234567",
        "",
        "2026-08-21T08:00:00+02:00",
        "",
        "",
    ]);
    let reference = parse_refs(&output).into_iter().next().expect("one ref");
    assert_eq!(reference.commit, "0123456789abcdef0123456789abcdef01234567");
}

#[test]
fn the_remote_head_pointer_is_not_listed_as_a_branch() {
    let output = [
        line(&["refs/remotes/origin/HEAD", "aaa", "", "", "", ""]),
        line(&["refs/remotes/origin/master", "bbb", "", "", "", ""]),
    ]
    .join("\n");
    let refs = parse_refs(&output);
    assert_eq!(refs.len(), 1);
    assert_eq!(refs[0].name, "origin/master");
}

#[test]
fn unknown_ref_namespaces_are_ignored() {
    let output = line(&["refs/stash", "aaa", "", "", "", ""]);
    assert!(parse_refs(&output).is_empty());
}

#[test]
fn parses_commit_metadata() {
    let output = format!(
        "a1b2c3d4e5f60718293a4b5c6d7e8f9012345678{sep}a1b2c3d{sep}2026-08-25T09:30:00+02:00{sep}Some Author{sep}server : add DFlash speculative decoding",
        sep = FIELD_SEPARATOR
    );
    let commit = parse_commit(&output).expect("parses");
    assert_eq!(commit.short_commit, "a1b2c3d");
    assert_eq!(commit.author, "Some Author");
    assert_eq!(commit.subject, "server : add DFlash speculative decoding");
    assert_eq!(commit.committed_at, "2026-08-25T09:30:00+02:00");
}

#[test]
fn reads_the_default_branch_from_ls_remote() {
    let output = "ref: refs/heads/master\tHEAD\na1b2c3d\tHEAD\n";
    assert_eq!(parse_symref_default_branch(output).as_deref(), Some("master"));
}

#[test]
fn reads_the_default_branch_from_the_remote_head_pointer() {
    assert_eq!(parse_remote_head("origin/main\n", "origin").as_deref(), Some("main"));
    assert_eq!(parse_remote_head("", "origin"), None);
}

#[test]
fn checkout_plan_prefers_an_existing_local_branch() {
    let refs = parse_refs(
        &[
            line(&["refs/heads/master", "aaa", "", "", "origin/master", "*"]),
            line(&["refs/remotes/origin/master", "aaa", "", "", "", ""]),
        ]
        .join("\n"),
    );
    assert_eq!(plan_checkout("master", &refs), RefCheckout::LocalBranch);
}

#[test]
fn checkout_plan_tracks_a_remote_only_branch() {
    let refs = parse_refs(&line(&["refs/remotes/origin/gg/experimental", "aaa", "", "", "", ""]));
    assert_eq!(plan_checkout("origin/gg/experimental", &refs), RefCheckout::TrackRemoteBranch);
}

#[test]
fn checkout_plan_detaches_for_tags_and_raw_shas() {
    let refs = parse_refs(&line(&["refs/tags/b7104", "aaa", "bbb", "", "", ""]));
    assert_eq!(plan_checkout("b7104", &refs), RefCheckout::Detach);
    assert_eq!(plan_checkout("812abc9", &refs), RefCheckout::Detach);
}

#[test]
fn derives_the_local_branch_name_for_a_remote_branch() {
    assert_eq!(local_branch_for_remote("origin/experimental/dflash").as_deref(), Some("experimental/dflash"));
    assert_eq!(local_branch_for_remote("origin/"), None);
    assert_eq!(local_branch_for_remote("master"), None);
}

const REMOTE_OUTPUT: &str = "\
origin\thttps://github.com/ggml-org/llama.cpp (fetch)
origin\thttps://github.com/ggml-org/llama.cpp (push)
experimental\thttps://github.com/some-user/llama.cpp (fetch)
experimental\thttps://github.com/some-user/llama.cpp (push)
";

#[test]
fn groups_fetch_and_push_urls_per_remote() {
    let remotes = parse_remotes(REMOTE_OUTPUT);
    assert_eq!(remotes.len(), 2);
    assert_eq!(remotes[0].name, "origin");
    assert_eq!(remotes[0].fetch_url.as_deref(), Some("https://github.com/ggml-org/llama.cpp"));
    assert_eq!(remotes[0].push_url.as_deref(), Some("https://github.com/ggml-org/llama.cpp"));
    assert_eq!(remotes[1].name, "experimental");
}

#[test]
fn preserves_the_order_git_reported() {
    let remotes = parse_remotes("zeta\thttps://z (fetch)\nalpha\thttps://a (fetch)\n");
    let names: Vec<&str> = remotes.iter().map(|remote| remote.name.as_str()).collect();
    assert_eq!(names, vec!["zeta", "alpha"]);
}

#[test]
fn empty_output_yields_no_remotes() {
    assert!(parse_remotes("").is_empty());
}

#[test]
fn describes_https_ssh_and_local_repositories() {
    assert_eq!(describe_repository("https://github.com/ggml-org/llama.cpp"), "ggml-org/llama.cpp");
    assert_eq!(describe_repository("https://github.com/ggml-org/llama.cpp.git"), "ggml-org/llama.cpp");
    assert_eq!(describe_repository("git@github.com:some-user/llama.cpp.git"), "some-user/llama.cpp");
    assert_eq!(describe_repository("https://example.com/llama.cpp/"), "example.com/llama.cpp");
    assert_eq!(describe_repository("ssh://git@github.com/ggml-org/llama.cpp.git"), "ggml-org/llama.cpp");
}

#[test]
fn a_colon_inside_a_path_is_not_treated_as_a_separator() {
    assert_eq!(describe_repository("https://example.com/team/llama:cpp"), "team/llama:cpp");
}

#[test]
fn accepts_the_url_forms_git_supports() {
    for url in [
        "https://github.com/ggml-org/llama.cpp",
        "http://internal.example/llama.cpp.git",
        "ssh://git@github.com/ggml-org/llama.cpp.git",
        "git://example.com/llama.cpp",
        "git@github.com:some-user/llama.cpp.git",
    ] {
        assert!(validate_repository_url(url).is_ok(), "{url} should be valid");
    }
}

#[test]
fn rejects_option_lookalikes_and_bare_words() {
    for url in ["--upload-pack=calc", "-c", "just-a-word", "   "] {
        let error = validate_repository_url(url).expect_err("must reject");
        assert_eq!(error.code, ErrorCode::InvalidPath);
    }
}

#[test]
fn accepts_conventional_remote_names() {
    for name in ["origin", "experimental", "fork-2", "my_remote", "gg.dev"] {
        assert!(validate_remote_name(name).is_ok(), "{name} should be valid");
    }
}

#[test]
fn rejects_remote_names_that_could_escape_the_git_directory() {
    for name in ["", "../evil", "with space", "-flag", ".hidden", "a/b"] {
        assert!(validate_remote_name(name).is_err(), "{name} should be rejected");
    }
}

fn failure(stderr: &str) -> CommandOutput {
    CommandOutput { exit_code: Some(128), stdout: String::new(), stderr: stderr.to_string(), duration_ms: 3 }
}

#[test]
fn recognises_a_missing_repository() {
    let error = classify_failure(&failure("fatal: not a git repository (or any of the parent directories): .git"));
    assert_eq!(error.code, ErrorCode::NotARepository);
    assert!(error.hint.is_some());
    assert!(error.details.is_some());
}

#[test]
fn recognises_a_non_fast_forward_update() {
    let error = classify_failure(&failure("fatal: Not possible to fast-forward, aborting."));
    assert_eq!(error.code, ErrorCode::NotFastForward);
}

#[test]
fn recognises_a_dirty_worktree() {
    let error = classify_failure(&failure(
        "error: Your local changes to the following files would be overwritten by checkout:\n\tggml/src/ggml.c",
    ));
    assert_eq!(error.code, ErrorCode::DirtyWorktree);
}

#[test]
fn recognises_an_unknown_ref() {
    let error = classify_failure(&failure("fatal: invalid reference: does-not-exist"));
    assert_eq!(error.code, ErrorCode::UnknownRef);
}

#[test]
fn recognises_a_non_empty_clone_destination() {
    let error = classify_failure(&failure(
        "fatal: destination path 'llama.cpp' already exists and is not an empty directory.",
    ));
    assert_eq!(error.code, ErrorCode::DirectoryNotEmpty);
}

#[test]
fn unrecognised_failures_keep_the_raw_output() {
    let error = classify_failure(&failure("fatal: something entirely new"));
    assert_eq!(error.code, ErrorCode::GitFailed);
    assert_eq!(error.details.as_deref(), Some("fatal: something entirely new"));
}

const CLEAN_TRACKING_BRANCH: &str = "\
# branch.oid a1b2c3d4e5f60718293a4b5c6d7e8f9012345678
# branch.head master
# branch.upstream origin/master
# branch.ab +0 -0
";

const BEHIND_WITH_LOCAL_EDITS: &str = "\
# branch.oid a1b2c3d4e5f60718293a4b5c6d7e8f9012345678
# branch.head master
# branch.upstream origin/master
# branch.ab +2 -12
1 .M N... 100644 100644 100644 a1b2c3d a1b2c3d ggml/src/ggml.c
1 M. N... 100644 100644 100644 a1b2c3d a1b2c3d tools/server/server.cpp
? build/CMakeCache.txt
";

const DETACHED_AT_TAG: &str = "\
# branch.oid 92fac1a0b1c2d3e4f50617283940a1b2c3d4e5f6
# branch.head (detached)
";

const CONFLICTED: &str = "\
# branch.oid a1b2c3d4e5f60718293a4b5c6d7e8f9012345678
# branch.head master
u UU N... 100644 100644 100644 100644 aaa bbb ccc src/conflict.cpp
";

#[test]
fn parses_a_clean_tracking_branch() {
    let status = parse_status(CLEAN_TRACKING_BRANCH);
    assert_eq!(status.branch.as_deref(), Some("master"));
    assert_eq!(status.upstream.as_deref(), Some("origin/master"));
    assert_eq!(status.short_commit().as_deref(), Some("a1b2c3d"));
    assert_eq!((status.ahead, status.behind), (0, 0));
    assert!(!status.detached);
    assert!(!status.is_dirty());
}

#[test]
fn counts_staged_unstaged_and_untracked_separately() {
    let status = parse_status(BEHIND_WITH_LOCAL_EDITS);
    assert_eq!(status.staged, 1);
    assert_eq!(status.unstaged, 1);
    assert_eq!(status.untracked, 1);
    assert_eq!((status.ahead, status.behind), (2, 12));
    assert!(status.has_tracked_changes());
}

#[test]
fn untracked_files_alone_do_not_block_updates() {
    let status = parse_status("# branch.head master\n? build/CMakeCache.txt\n");
    assert_eq!(status.untracked, 1);
    assert!(status.is_dirty());
    assert!(!status.has_tracked_changes());
}

#[test]
fn recognises_detached_head() {
    let status = parse_status(DETACHED_AT_TAG);
    assert!(status.detached);
    assert!(status.branch.is_none());
    assert_eq!(status.short_commit().as_deref(), Some("92fac1a"));
}

#[test]
fn counts_unmerged_entries_as_conflicts() {
    let status = parse_status(CONFLICTED);
    assert_eq!(status.conflicted, 1);
    assert!(status.has_tracked_changes());
}

#[test]
fn an_initial_repository_has_no_commit() {
    let status = parse_status("# branch.oid (initial)\n# branch.head main\n");
    assert!(status.commit.is_none());
    assert_eq!(status.branch.as_deref(), Some("main"));
}

#[test]
fn empty_output_is_a_clean_default() {
    assert_eq!(parse_status(""), GitStatus::default());
}

#[test]
fn updates_only_fast_forward_onto_the_upstream() {
    let clean = parse_status(CLEAN_TRACKING_BRANCH);
    assert_eq!(fast_forward_command(&clean).unwrap(), vec!["merge", "--ff-only", "origin/master"]);
    let dirty = parse_status(BEHIND_WITH_LOCAL_EDITS);
    assert_eq!(fast_forward_command(&dirty).unwrap_err().code, ErrorCode::DirtyWorktree);
    let detached = parse_status(DETACHED_AT_TAG);
    assert_eq!(fast_forward_command(&detached).unwrap_err().code, ErrorCode::DetachedHead);
    let untracked = parse_status("# branch.head master\n");
    assert_eq!(fast_forward_command(&untracked).unwrap_err().code, ErrorCode::NoUpstream);
}

#[test]
fn switching_never_forces_and_picks_the_command_by_ref_kind() {
    let refs = parse_refs(
        &[
            line(&["refs/heads/master", "aaa", "", "", "origin/master", "*"]),
            line(&["refs/remotes/origin/gg/experimental", "aaa", "", "", "", ""]),
            line(&["refs/tags/b7104", "aaa", "bbb", "", "", ""]),
        ]
        .join("\n"),
    );
    let clean = parse_status(CLEAN_TRACKING_BRANCH);
    assert_eq!(switch_command(" master ", &refs, &clean).unwrap(), vec!["switch", "--", "master"]);
    assert_eq!(
        switch_command("origin/gg/experimental", &refs, &clean).unwrap(),
        vec!["switch", "--track", "-c", "gg/experimental", "origin/gg/experimental"]
    );
    assert_eq!(switch_command("b7104", &refs, &clean).unwrap(), vec!["switch", "--detach", "b7104"]);
    assert_eq!(switch_command("  ", &refs, &clean).unwrap_err().code, ErrorCode::UnknownRef);
    let dirty = parse_status(BEHIND_WITH_LOCAL_EDITS);
    assert_eq!(switch_command("b7104", &refs, &dirty).unwrap_err().code, ErrorCode::DirtyWorktree);
}

#[test]
fn blank_and_option_like_repository_urls_are_refused_with_their_messages() {
    let blank = validate_repository_url("   ").unwrap_err();
    assert_eq!(blank.code, ErrorCode::InvalidPath);
    assert_eq!(blank.message, "A repository URL is required.");
    let option = validate_repository_url(" --upload-pack=evil").unwrap_err();
    assert_eq!(option.code, ErrorCode::InvalidPath);
    assert_eq!(option.message, "A repository URL cannot start with \"-\".");
}

#[test]
fn a_ref_resolves_to_the_commit_git_prints_or_is_unknown() {
    assert_eq!(resolve_ref_command("b7104"), vec!["rev-parse", "--verify", "--quiet", "b7104^{commit}"]);
    let found = CommandOutput { exit_code: Some(0), stdout: "abc123\n".into(), stderr: String::new(), duration_ms: 1 };
    assert_eq!(resolved_commit("b7104", &found).unwrap(), "abc123");
    let missing = CommandOutput { exit_code: Some(1), stdout: String::new(), stderr: "fatal: bad\n".into(), duration_ms: 1 };
    let error = resolved_commit("nope", &missing).unwrap_err();
    assert_eq!(error.code, ErrorCode::UnknownRef);
    assert_eq!(error.message, "\"nope\" is not a known branch, tag, or commit.");
    assert_eq!(error.details.as_deref(), Some("fatal: bad"));
}
