use llamapilot::config::paths::{require_existing_directory, validate_absolute_path, AppPaths};
use llamapilot::config::settings::Settings;
use llamapilot::error::{AppError, ErrorCode};
use llamapilot::gguf::split::{parse_split_filename, SplitName};

#[test]
fn layout_is_derived_from_the_data_directory() {
    let paths = AppPaths::from_roots("/data".to_string(), "/home/ws".to_string());
    assert_eq!(paths.settings_file, "/data/settings.json");
    assert_eq!(paths.sources_metadata_file, "/data/sources/metadata.json");
    assert_eq!(paths.runtimes_dir, "/data/runtimes");
    assert_eq!(paths.model_metadata_cache_file, "/data/cache/model-metadata.json");
    assert_eq!(paths.default_sources_workspace(), "/home/ws/sources");
}

#[test]
fn relative_paths_are_rejected() {
    let error = validate_absolute_path("relative/dir", "Destination").expect_err("relative paths must fail");
    assert_eq!(error.code, ErrorCode::InvalidPath);
}

#[test]
fn parent_traversal_is_rejected() {
    let error = validate_absolute_path("/repos/../etc", "Destination").expect_err("traversal must fail");
    assert_eq!(error.code, ErrorCode::InvalidPath);
}

#[test]
fn absolute_paths_are_accepted() {
    assert!(validate_absolute_path("/repos/llama.cpp", "Destination").is_ok());
}

#[test]
fn rejections_name_the_path_and_its_label() {
    let error = validate_absolute_path("relative/dir", "Destination").expect_err("relative");
    assert!(error.message.starts_with("Destination"));
}

#[test]
fn workspace_directories_fall_back_to_app_defaults() {
    let paths = AppPaths::from_roots("/data".to_string(), "/home/ws".to_string());
    let settings = Settings::default();
    assert_eq!(settings.sources_directory(&paths), "/home/ws/sources");
}

#[test]
fn explicit_workspace_directories_win() {
    let paths = AppPaths::from_roots("/data".to_string(), "/home/ws".to_string());
    let mut settings = Settings::default();
    settings.workspace.sources_directory = Some("/elsewhere".to_string());
    assert_eq!(settings.sources_directory(&paths), "/elsewhere");
}

#[test]
fn default_settings_match_the_documented_values() {
    let settings = Settings::default();
    assert_eq!(settings.server.default_port, 8080);
    assert_eq!(settings.server.default_host, "127.0.0.1");
    assert_eq!(settings.git.default_repository, "https://github.com/ggml-org/llama.cpp");
}

#[test]
fn blank_details_are_dropped() {
    let error = AppError::internal("boom").with_details("   \n ");
    assert!(error.details.is_none());
}

#[test]
fn details_with_text_are_kept_verbatim() {
    let error = AppError::new(ErrorCode::DirtyWorktree, "Uncommitted changes present.")
        .with_hint("Commit or stash them first.")
        .with_details("error: cannot switch");
    assert_eq!(error.code, ErrorCode::DirtyWorktree);
    assert_eq!(error.message, "Uncommitted changes present.");
    assert_eq!(error.hint.as_deref(), Some("Commit or stash them first."));
    assert_eq!(error.details.as_deref(), Some("error: cannot switch"));
}

#[test]
fn recognises_the_llama_cpp_split_suffix() {
    assert_eq!(
        parse_split_filename("model-00001-of-00004.gguf"),
        Some(SplitName { prefix: "model".to_string(), index: 1, count: 4 })
    );
    assert_eq!(parse_split_filename("model-00004-of-00004.GGUF").expect("uppercase extension").index, 4);
}

#[test]
fn leaves_regular_or_malformed_names_alone() {
    for filename in [
        "model.gguf",
        "model-1-of-4.gguf",
        "model-00000-of-00004.gguf",
        "model-00005-of-00004.gguf",
        "model-00001-of-00001.gguf",
    ] {
        assert_eq!(parse_split_filename(filename), None, "{filename}");
    }
}

#[test]
fn an_existing_directory_must_also_be_a_valid_absolute_path() {
    let missing = require_existing_directory("/models", "The folder", false).unwrap_err();
    assert_eq!(missing.message, "The folder does not exist or is not a directory.");
    assert_eq!(missing.details.as_deref(), Some("/models"));
    assert_eq!(require_existing_directory("/models", "The folder", true).unwrap(), "/models");
    let blank = require_existing_directory("", "The folder", true).unwrap_err();
    assert_eq!(blank.message, "The folder is required.");
    let relative = require_existing_directory("models", "The folder", true).unwrap_err();
    assert_eq!(relative.message, "The folder must be an absolute path.");
}
