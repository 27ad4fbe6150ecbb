use llamapilot::agent::{normalized_api_key, normalized_model};
use llamapilot::process::command::{quote_for_display, CommandSpec};
use llamapilot::error::ErrorCode;
use llamapilot::profiles::{check_profile_deletable, check_runtime_deletable};
use llamapilot::process::runner::{spawn_failure, CommandOutput};

#[test]
fn diagnostics_prefer_stderr_but_keep_stdout() {
    let output = CommandOutput {
        exit_code: Some(1),
        stdout: "some progress\n".into(),
        stderr: "fatal: not a git repository\n".into(),
        duration_ms: 4,
    };
    assert_eq!(output.diagnostics(), "fatal: not a git repository\nsome progress");
    assert!(!output.succeeded());
}

#[test]
fn diagnostics_are_empty_when_nothing_was_written() {
    let output = CommandOutput { exit_code: Some(0), stdout: "  \n".into(), stderr: String::new(), duration_ms: 1 };
    assert!(output.diagnostics().is_empty());
    assert!(output.succeeded());
}

#[test]
fn arguments_are_kept_discrete() {
    let spec = CommandSpec::new("git").args(&["clone", "--progress", "https://example/x.git"]);
    assert_eq!(spec.program_display(), "git");
    assert_eq!(spec.args_display(), vec!["clone", "--progress", "https://example/x.git"]);
}

#[test]
fn display_quotes_only_what_needs_quoting() {
    let spec = CommandSpec::new(r"C:\Program Files\Git\git.exe").args(&["-C", r"C:\repos\llama.cpp", "status"]);
    assert_eq!(spec.to_display_string(), r#""C:\Program Files\Git\git.exe" -C C:\repos\llama.cpp status"#);
}

#[test]
fn display_never_merges_arguments_containing_spaces() {
    let spec = CommandSpec::new("llama-server.exe").args(&["-m", "my model.gguf"]);
    assert_eq!(spec.args.len(), 2);
    assert_eq!(spec.to_display_string(), r#"llama-server.exe -m "my model.gguf""#);
}

#[test]
fn empty_values_and_quotes_are_shown_unambiguously() {
    assert_eq!(quote_for_display(""), "\"\"");
    assert_eq!(quote_for_display("say \"hi\""), "\"say \\\"hi\\\"\"");
    assert_eq!(quote_for_display("it's"), "\"it's\"");
    let spec = CommandSpec::new("tool").arg("").current_dir("/work").env("KEY", "value");
    assert_eq!(spec.to_display_string(), "tool \"\"");
    assert_eq!(spec.working_directory.as_deref(), Some("/work"));
    assert_eq!(spec.environment, vec![("KEY".to_string(), "value".to_string())]);
}

#[test]
fn trims_optional_credentials_and_model_names() {
    assert_eq!(normalized_api_key(Some("  secret  ".into())).unwrap(), Some("secret".into()));
    assert_eq!(normalized_api_key(Some("  ".into())).unwrap(), None);
    assert_eq!(normalized_model(Some("  coder  ".into())).unwrap(), Some("coder".into()));
}

#[test]
fn rejects_unbounded_agent_input() {
    assert!(normalized_api_key(Some("x".repeat(4_097))).is_err());
    assert!(normalized_model(Some("x".repeat(1_025))).is_err());
}

#[test]
fn accepts_agent_input_at_the_limit() {
    assert_eq!(normalized_api_key(Some("x".repeat(4_096))).unwrap().map(|k| k.len()), Some(4_096));
    assert_eq!(normalized_model(None).unwrap(), None);
}

#[test]
fn a_missing_program_is_reported_with_a_hint() {
    let spec = CommandSpec::new("cmake");
    let error = spawn_failure(&spec, true, "No such file or directory (os error 2)");
    assert_eq!(error.code, ErrorCode::ProcessNotFound);
    assert_eq!(error.message, "cmake was not found.");
    assert_eq!(error.hint.as_deref(), Some("Install it, or set an explicit path in Settings."));
    assert_eq!(error.details.as_deref(), Some("No such file or directory (os error 2)"));
    let other = spawn_failure(&spec, false, "Permission denied (os error 13)");
    assert_eq!(other.code, ErrorCode::ProcessFailed);
    assert_eq!(other.message, "Could not start cmake.");
    assert_eq!(other.hint, None);
}

#[test]
fn what_the_active_server_uses_cannot_be_deleted() {
    let refused = check_profile_deletable(false, true, Some("coding"), "coding").unwrap_err();
    assert_eq!(refused.code, ErrorCode::ServerAlreadyRunning);
    assert_eq!(refused.message, "The active server profile cannot be deleted.");
    assert!(check_profile_deletable(false, true, Some("coding"), "chat").is_ok());
    assert!(check_profile_deletable(false, false, Some("coding"), "coding").is_ok());
    assert_eq!(
        check_profile_deletable(true, false, None, "chat").unwrap_err().code,
        ErrorCode::BenchmarkInProgress
    );
    let runtime = check_runtime_deletable(true, Some("cuda"), "cuda").unwrap_err();
    assert_eq!(runtime.message, "The runtime used by the active server cannot be deleted.");
    assert!(check_runtime_deletable(true, Some("cuda"), "cpu").is_ok());
}
