use llamapilot::error::ErrorCode;
use llamapilot::gguf::reader::{scan_metadata, GgufMetadata, MetadataScan};
use llamapilot::models::catalog::{
    apply_projector_choice, cache_entry_fresh, is_projector, is_regular_model, persisted_override,
    CachedMetadata, ModelOverrides, ModelScanIssue, ParsedFile, ProjectorOverride,
    ProjectorSelection, ProjectorStatus,
};
use llamapilot::models::download::{
    download_url, gguf_sizes_fit, group_gguf_files, is_commit_sha, model_info_url,
    normalize_repository_id, repository_from_listing, safe_filename, target_paths, HubLfs,
    HubSibling, HuggingFaceFile, ModelDownloadSupervisor,
};
use llamapilot::models::identity::{classify_model_role, normalize_identity, stem_of, ModelRole};
use llamapilot::models::listing::{catalog_lists, model_sizes_fit};
use llamapilot::profile_target::{
    catalog_target, check_pinned_files, check_primary_model, check_profile_runtime,
};

fn sibling(path: &str, size: u64) -> HubSibling {
    HubSibling { rfilename: path.into(), size: Some(size), lfs: None }
}

#[test]
fn accepts_repository_ids_and_main_repository_urls_only() {
    assert_eq!(normalize_repository_id("bartowski/Qwen3-Coder-GGUF").unwrap(), "bartowski/Qwen3-Coder-GGUF");
    assert_eq!(
        normalize_repository_id("https://huggingface.co/bartowski/Qwen3-Coder-GGUF/").unwrap(),
        "bartowski/Qwen3-Coder-GGUF"
    );
    assert!(normalize_repository_id("https://example.com/owner/model").is_err());
    assert!(normalize_repository_id("https://huggingface.co/owner/model/tree/main").is_err());
    assert!(normalize_repository_id("owner").is_err());
}

#[test]
fn repository_ids_refuse_unsafe_parts_and_plain_http() {
    assert!(normalize_repository_id("  owner/model  ").is_ok());
    assert!(normalize_repository_id("owner/.hidden").is_err());
    assert!(normalize_repository_id("owner/model-").is_err());
    assert!(normalize_repository_id("a/b/c").is_err());
    let error = normalize_repository_id("http://huggingface.co/owner/model").expect_err("http");
    assert_eq!(error.message, "Only public model repositories on huggingface.co are supported.");
    let error = normalize_repository_id("https://huggingface.co:bad/owner/model").expect_err("unparsable");
    assert_eq!(error.message, "Enter a valid Hugging Face model URL or repository ID.");
    assert!(error.details.is_some());
}

#[test]
fn hub_addresses_percent_encode_their_segments() {
    assert_eq!(
        model_info_url("owner/model", "main").unwrap(),
        "https://huggingface.co/api/models/owner/model/revision/main?blobs=true"
    );
    assert_eq!(
        download_url("owner/model", "abc", "quant/my model.gguf").unwrap(),
        "https://huggingface.co/owner/model/resolve/abc/quant/my%20model.gguf?download=true"
    );
    assert!(download_url("owner/model", "abc", "../x.gguf").is_err());
    assert_eq!(model_info_url("no-slash", "main").unwrap_err().code, ErrorCode::Internal);
}

#[test]
fn groups_complete_split_files_and_keeps_regular_gguf_files_separate() {
    let selections = group_gguf_files(vec![
        sibling("Q4/model-00002-of-00002.gguf", 20),
        sibling("README.md", 5),
        sibling("single.gguf", 7),
        sibling("Q4/model-00001-of-00002.gguf", 10),
    ]);
    assert_eq!(selections.len(), 2);
    let split = selections.iter().find(|selection| selection.display_name == "model").unwrap();
    assert!(split.complete);
    assert_eq!(split.expected_files, 2);
    assert_eq!(split.total_size_bytes, 30);
    assert!(split.files[0].path.ends_with("00001-of-00002.gguf"));
}

#[test]
fn marks_a_split_selection_incomplete_when_a_shard_is_missing() {
    let selections = group_gguf_files(vec![sibling("model-00002-of-00003.gguf", 20)]);
    assert_eq!(selections.len(), 1);
    assert!(!selections[0].complete);
    assert_eq!(selections[0].expected_files, 3);
}

#[test]
fn selections_are_ordered_by_name_and_sizes_fall_back_to_lfs() {
    let siblings = vec![
        HubSibling { rfilename: "b.GGUF".into(), size: None, lfs: Some(HubLfs { size: Some(9) }) },
        sibling("A.gguf", 1),
        HubSibling { rfilename: "c.gguf".into(), size: None, lfs: None },
    ];
    assert!(gguf_sizes_fit(&siblings));
    let selections = group_gguf_files(siblings);
    let names: Vec<&str> = selections.iter().map(|s| s.display_name.as_str()).collect();
    assert_eq!(names, vec!["A.gguf", "b.GGUF", "c.gguf"]);
    assert_eq!(selections[1].total_size_bytes, 9);
    assert_eq!(selections[2].total_size_bytes, 0);
}

#[test]
fn a_listing_needs_a_pinned_revision() {
    let sha = "0123456789abcdef0123456789abcdef01234567";
    assert!(is_commit_sha(sha));
    assert!(!is_commit_sha("main"));
    let repository = repository_from_listing("o/m".into(), Some(sha.into()), vec![sibling("x.gguf", 1)]).unwrap();
    assert_eq!(repository.revision, sha);
    assert_eq!(repository.selections.len(), 1);
    assert!(repository_from_listing("o/m".into(), Some("main".into()), Vec::new()).is_err());
    assert!(repository_from_listing("o/m".into(), None, Vec::new()).is_err());
}

#[test]
fn rejects_remote_paths_that_could_escape_or_break_windows_filenames() {
    for path in ["../model.gguf", "folder\\model.gguf", "folder/bad:name.gguf"] {
        assert!(safe_filename(path).is_err(), "{path}");
    }
    assert_eq!(safe_filename("quant/model.gguf").unwrap(), "model.gguf");
}

#[test]
fn target_names_that_differ_only_in_case_are_refused() {
    let files = vec![
        HuggingFaceFile { path: "a/Model.gguf".into(), size_bytes: 1 },
        HuggingFaceFile { path: "b/model.gguf".into(), size_bytes: 1 },
    ];
    assert!(target_paths("/models", &files).is_err());
    assert_eq!(target_paths("/models", &files[..1]).unwrap(), vec!["/models/Model.gguf".to_string()]);
}

#[test]
fn cancellation_holds_the_single_download_slot_until_drop() {
    let mut supervisor = ModelDownloadSupervisor::default();
    let permit = supervisor.begin().unwrap();
    assert!(supervisor.cancel());
    assert_eq!(supervisor.ensure_not_cancelled(permit).unwrap_err().code, ErrorCode::ModelDownloadCancelled);
    assert!(supervisor.begin().is_err());
    supervisor.finish(permit);
    assert!(!supervisor.is_running());
}

fn push_string(buffer: &mut Vec<u8>, value: &str) {
    buffer.extend_from_slice(&(value.len() as u64).to_le_bytes());
    buffer.extend_from_slice(value.as_bytes());
}

fn push_string_entry(buffer: &mut Vec<u8>, key: &str, value: &str) {
    push_string(buffer, key);
    buffer.extend_from_slice(&8_u32.to_le_bytes());
    push_string(buffer, value);
}

fn push_u32_entry(buffer: &mut Vec<u8>, key: &str, value: u32) {
    push_string(buffer, key);
    buffer.extend_from_slice(&4_u32.to_le_bytes());
    buffer.extend_from_slice(&value.to_le_bytes());
}

fn complete(bytes: &[u8]) -> GgufMetadata {
    match scan_metadata(bytes, bytes.len() as u64) {
        MetadataScan::Complete(metadata) => metadata,
        MetadataScan::NeedBytes(n) => panic!("needs {n} bytes"),
        MetadataScan::Invalid(message) => panic!("{message}"),
    }
}

#[test]
fn reads_selected_metadata_and_stops_before_tensor_data() {
    let mut bytes = Vec::new();
    bytes.extend_from_slice(b"GGUF");
    bytes.extend_from_slice(&3_u32.to_le_bytes());
    bytes.extend_from_slice(&2_i64.to_le_bytes());
    bytes.extend_from_slice(&5_i64.to_le_bytes());
    push_string_entry(&mut bytes, "general.architecture", "llama");
    push_string_entry(&mut bytes, "general.name", "Tiny Model");
    push_u32_entry(&mut bytes, "general.file_type", 15);
    push_u32_entry(&mut bytes, "llama.context_length", 8192);
    push_u32_entry(&mut bytes, "split.count", 1);
    let metadata_end = bytes.len() as u64;
    bytes.extend_from_slice(b"this is deliberately not a valid tensor descriptor");
    let parsed = complete(&bytes);
    assert_eq!(parsed.name.as_deref(), Some("Tiny Model"));
    assert_eq!(parsed.architecture.as_deref(), Some("llama"));
    assert_eq!(parsed.context_length, Some(8192));
    assert_eq!(parsed.file_type, Some(15));
    assert_eq!(parsed.metadata_bytes, metadata_end);
    assert!(parsed.metadata_bytes < bytes.len() as u64);
}

#[test]
fn skips_large_token_arrays_without_collecting_them() {
    let mut bytes = Vec::new();
    bytes.extend_from_slice(b"GGUF");
    bytes.extend_from_slice(&3_u32.to_le_bytes());
    bytes.extend_from_slice(&0_i64.to_le_bytes());
    bytes.extend_from_slice(&2_i64.to_le_bytes());
    push_string(&mut bytes, "tokenizer.ggml.tokens");
    bytes.extend_from_slice(&9_u32.to_le_bytes());
    bytes.extend_from_slice(&8_u32.to_le_bytes());
    bytes.extend_from_slice(&3_u64.to_le_bytes());
    push_string(&mut bytes, "one");
    push_string(&mut bytes, "two");
    push_string(&mut bytes, "three");
    push_string_entry(&mut bytes, "general.name", "After Tokens");
    let parsed = complete(&bytes);
    assert_eq!(parsed.name.as_deref(), Some("After Tokens"));
    assert_eq!(parsed.metadata_bytes, bytes.len() as u64);
}

#[test]
fn rejects_non_gguf_files_and_truncated_metadata() {
    assert!(matches!(scan_metadata(b"nope", 4), MetadataScan::Invalid(_)));
    assert!(matches!(scan_metadata(b"GGUF\x03\x00", 6), MetadataScan::Invalid(_)));
}

#[test]
fn a_short_prefix_of_a_longer_file_asks_for_more_bytes() {
    match scan_metadata(b"GGUF\x03\x00", 1_000) {
        MetadataScan::NeedBytes(n) => assert!(n > 6 && n <= 1_000),
        _ => panic!("expected a request for more bytes"),
    }
}

fn metadata(entries: &[(&str, &str)]) -> GgufMetadata {
    let mut bytes = Vec::new();
    bytes.extend_from_slice(b"GGUF");
    bytes.extend_from_slice(&3_u32.to_le_bytes());
    bytes.extend_from_slice(&0_i64.to_le_bytes());
    bytes.extend_from_slice(&(entries.len() as i64).to_le_bytes());
    for (key, value) in entries {
        push_string_entry(&mut bytes, key, value);
    }
    complete(&bytes)
}

fn file(directory: &str, filename: &str, entries: &[(&str, &str)]) -> ParsedFile {
    ParsedFile {
        path: format!("{directory}/{filename}"),
        directory: directory.into(),
        filename: filename.into(),
        size_bytes: 100,
        modified_at: 1,
        metadata: metadata(entries),
    }
}

#[test]
fn classifies_assistant_architectures_as_drafters() {
    let m = metadata(&[
        ("general.type", "model"),
        ("general.name", "31B Assistant"),
        ("general.architecture", "gemma4-assistant"),
    ]);
    assert_eq!(classify_model_role(&m, "mtp-gemma-4-31b"), ModelRole::Drafter);
    let plain = metadata(&[("general.architecture", "gemma4")]);
    assert_eq!(classify_model_role(&plain, "gemma-4-31b"), ModelRole::Main);
}

#[test]
fn classifies_named_dflash_models_as_drafters() {
    let m = metadata(&[("general.name", "Gemma 4 speculative model"), ("general.architecture", "gemma4")]);
    assert_eq!(classify_model_role(&m, "DFlash-Gemma-4-31B"), ModelRole::Drafter);
}

#[test]
fn identities_drop_packaging_tokens() {
    assert_eq!(normalize_identity("mmproj-Vision_Model-F16-00001"), "visionmodel");
    assert_eq!(normalize_identity("Qwen3 Coder Q4_K_M"), "qwen3coderkm");
    assert_eq!(stem_of("model.q4.gguf"), "model.q4");
    assert_eq!(stem_of(".hidden"), ".hidden");
    assert_eq!(stem_of(".."), "..");
}

#[test]
fn projectors_and_models_are_told_apart() {
    let projector = file("/m", "mmproj-alpha-f16.gguf", &[("general.name", "Alpha")]);
    let typed = file("/m", "alpha.gguf", &[("general.type", "MMPROJ")]);
    let model = file("/m", "alpha.gguf", &[("general.type", "model")]);
    let other = file("/m", "alpha.gguf", &[("general.type", "adapter")]);
    assert!(is_projector(&projector) && !is_regular_model(&projector));
    assert!(is_projector(&typed));
    assert!(is_regular_model(&model));
    assert!(!is_projector(&other) && !is_regular_model(&other));
}

fn lists(files: Vec<ParsedFile>, overrides: &ModelOverrides) -> (Vec<llamapilot::models::catalog::ModelRecord>, Vec<llamapilot::models::catalog::ProjectorRecord>, Vec<ModelScanIssue>) {
    assert!(model_sizes_fit(&files));
    let mut issues = Vec::new();
    let (models, projectors) = catalog_lists(files, overrides, &mut issues);
    (models, projectors, issues)
}

#[test]
fn groups_shards_and_pairs_the_matching_projector() {
    let (models, projectors, issues) = lists(
        vec![
            file("/m/nested", "vision-model-00001-of-00002.gguf", &[("general.type", "model"), ("general.name", "Vision Model")]),
            file("/m/nested", "vision-model-00002-of-00002.gguf", &[("general.type", "model"), ("general.name", "Vision Model")]),
            file("/m/nested", "mmproj-vision-model-f16.gguf", &[("general.type", "mmproj"), ("general.name", "Vision Model")]),
        ],
        &ModelOverrides::default(),
    );
    assert_eq!(models.len(), 1);
    assert_eq!(models[0].role, ModelRole::Main);
    assert_eq!(models[0].shards.len(), 2);
    assert_eq!(models[0].expected_shards, 2);
    assert!(models[0].complete);
    assert_eq!(models[0].total_size_bytes, 200);
    assert!(models[0].primary_path.as_deref().is_some_and(|p| p.ends_with("vision-model-00001-of-00002.gguf")));
    assert_eq!(models[0].projector_status, ProjectorStatus::Auto);
    assert_eq!(projectors.len(), 1);
    assert!(issues.is_empty());
}

#[test]
fn does_not_auto_pair_an_obviously_different_projector() {
    let (models, _, _) = lists(
        vec![
            file("/m", "alpha-q4.gguf", &[("general.type", "model"), ("general.name", "Alpha")]),
            file("/m", "mmproj-beta-f16.gguf", &[("general.type", "mmproj"), ("general.name", "Beta")]),
        ],
        &ModelOverrides::default(),
    );
    assert_eq!(models[0].projector_status, ProjectorStatus::Unpaired);
    assert!(models[0].projector_id.is_none());
}

#[test]
fn incompatible_metadata_wins_over_generic_matching_filenames() {
    let (models, _, _) = lists(
        vec![
            file("/m", "model-q4.gguf", &[("general.type", "model"), ("general.name", "Alpha")]),
            file("/m", "mmproj-model-f16.gguf", &[("general.type", "mmproj"), ("general.name", "Beta")]),
        ],
        &ModelOverrides::default(),
    );
    assert_eq!(models[0].projector_status, ProjectorStatus::Unpaired);
}

#[test]
fn missing_shards_stay_visible_and_multiple_projectors_stay_ambiguous() {
    let (models, _, _) = lists(
        vec![
            file("/m", "alpha-00001-of-00002.gguf", &[("general.type", "model"), ("general.name", "Alpha")]),
            file("/m", "mmproj-alpha-f16.gguf", &[("general.type", "mmproj"), ("general.name", "Alpha")]),
            file("/m", "mmproj-alpha-bf16.gguf", &[("general.type", "mmproj"), ("general.name", "Alpha")]),
        ],
        &ModelOverrides::default(),
    );
    let model = &models[0];
    assert!(!model.complete);
    assert_eq!(model.shards.len(), 1);
    assert!(model.primary_path.is_some());
    assert_eq!(model.projector_status, ProjectorStatus::Ambiguous);
    assert_eq!(model.projector_candidates.len(), 2);
    assert!(model.projector_id.is_none());
}

#[test]
fn a_saved_projector_choice_wins_and_can_be_disabled() {
    let model = file("/models", "alpha.gguf", &[("general.type", "model"), ("general.name", "Alpha")]);
    let projector = file("/other", "mmproj-alpha.gguf", &[("general.type", "mmproj"), ("general.name", "Alpha")]);
    let model_id = model.path.clone();
    let mut overrides = ModelOverrides::default();
    let choice = persisted_override(ProjectorSelection::Custom { path: projector.path.clone() });
    apply_projector_choice(&mut overrides, model_id.clone(), choice);
    let (models, projectors, _) = lists(vec![model.clone(), projector.clone()], &overrides);
    assert_eq!(models[0].projector_status, ProjectorStatus::Overridden);
    assert_eq!(projectors[0].path, projector.path);

    apply_projector_choice(&mut overrides, model_id.clone(), persisted_override(ProjectorSelection::Disabled));
    let (models, _, _) = lists(vec![model.clone(), projector.clone()], &overrides);
    assert_eq!(models[0].projector_status, ProjectorStatus::Disabled);

    let missing = persisted_override(ProjectorSelection::Custom { path: "/gone/mmproj.gguf".into() });
    apply_projector_choice(&mut overrides, model_id.clone(), missing);
    let (models, _, issues) = lists(vec![model.clone()], &overrides);
    assert_eq!(models[0].projector_status, ProjectorStatus::MissingOverride);
    assert_eq!(issues.len(), 1);
    assert_eq!(issues[0].path, "/gone/mmproj.gguf");

    apply_projector_choice(&mut overrides, model_id, persisted_override(ProjectorSelection::Auto));
    assert!(overrides.projectors.get(&model.path).is_none());
    assert!(matches!(persisted_override(ProjectorSelection::Disabled), Some(ProjectorOverride::Disabled)));
}

#[test]
fn duplicate_shards_and_metadata_disagreements_are_reported() {
    let (models, _, issues) = lists(
        vec![
            file("/m", "alpha-00001-of-00002.gguf", &[("general.type", "model")]),
            file("/m", "alpha-00001-of-00002.gguf", &[("general.type", "model")]),
        ],
        &ModelOverrides::default(),
    );
    assert_eq!(models.len(), 1);
    assert_eq!(models[0].shards.len(), 1);
    assert_eq!(issues.len(), 1);
    assert_eq!(issues[0].message, "More than one file claims to be shard 1.");
}

#[test]
fn models_are_ordered_by_lowercased_name() {
    let (models, _, _) = lists(
        vec![
            file("/m", "b.gguf", &[("general.name", "beta")]),
            file("/m", "a.gguf", &[("general.name", "Alpha")]),
        ],
        &ModelOverrides::default(),
    );
    let names: Vec<&str> = models.iter().map(|m| m.display_name.as_str()).collect();
    assert_eq!(names, vec!["Alpha", "beta"]);
}

#[test]
fn a_cache_entry_is_fresh_only_for_the_same_size_and_time() {
    let entry = CachedMetadata { path: "/m/a.gguf".into(), size_bytes: 10, modified_unix_nanos: 5, metadata: metadata(&[]) };
    assert!(cache_entry_fresh(&entry, 10, 5));
    assert!(!cache_entry_fresh(&entry, 11, 5));
    assert!(!cache_entry_fresh(&entry, 10, 6));
}

fn catalog_of(files: Vec<ParsedFile>) -> llamapilot::models::catalog::ModelCatalog {
    let (models, projectors, issues) = lists(files, &ModelOverrides::default());
    llamapilot::models::catalog::ModelCatalog {
        scanned_at: 0,
        roots: vec!["/m".to_string()],
        models,
        projectors,
        issues,
        cache_hits: 0,
        cache_misses: 0,
    }
}

#[test]
fn a_catalog_model_resolves_to_its_first_shard_and_paired_projector() {
    let catalog = catalog_of(vec![
        file("/m", "vision-00001-of-00002.gguf", &[("general.type", "model"), ("general.name", "Vision")]),
        file("/m", "vision-00002-of-00002.gguf", &[("general.type", "model"), ("general.name", "Vision")]),
        file("/m", "mmproj-vision-f16.gguf", &[("general.type", "mmproj"), ("general.name", "Vision")]),
    ]);
    let id = catalog.models[0].id.clone();
    assert!(check_primary_model(&catalog, &id).is_ok());
    let target = catalog_target(&catalog, &id).expect("a complete model");
    assert_eq!(target.model_name, catalog.models[0].display_name);
    assert_eq!(target.model_path, "/m/vision-00001-of-00002.gguf");
    assert_eq!(target.projector_path.as_deref(), Some("/m/mmproj-vision-f16.gguf"));
}

#[test]
fn unknown_incomplete_and_drafter_models_are_refused_as_profile_targets() {
    let catalog = catalog_of(vec![
        file("/m", "alpha-00001-of-00002.gguf", &[("general.type", "model"), ("general.name", "Alpha")]),
        file("/m", "dflash-helper.gguf", &[("general.type", "model"), ("general.name", "Helper")]),
    ]);
    let missing = catalog_target(&catalog, "/m/none.gguf").unwrap_err();
    assert_eq!(missing.code, ErrorCode::InvalidProfile);
    assert_eq!(missing.message, "The selected model is no longer in the model catalog.");
    assert_eq!(missing.details.as_deref(), Some("/m/none.gguf"));
    let split = catalog.models.iter().find(|m| !m.complete).expect("the split model");
    let incomplete = catalog_target(&catalog, &split.id).unwrap_err();
    assert_eq!(incomplete.message, "The selected model is missing one or more shards.");
    let drafter = catalog.models.iter().find(|m| m.role == ModelRole::Drafter).expect("the drafter");
    let refused = check_primary_model(&catalog, &drafter.id).unwrap_err();
    assert_eq!(refused.code, ErrorCode::InvalidProfile);
    assert_eq!(refused.message, "A drafter cannot be used as the primary model.");
    assert!(check_primary_model(&catalog, "/m/none.gguf").is_ok());
}

#[test]
fn shards_in_different_folders_form_different_models() {
    let shard = |directory: &str, filename: &str, size: u64| ParsedFile {
        path: format!("{directory}/{filename}"),
        directory: directory.into(),
        filename: filename.into(),
        size_bytes: size,
        modified_at: 0,
        metadata: GgufMetadata::default(),
    };
    let files = vec![
        shard("/m", "alpha-00002-of-00002.gguf", 20),
        shard("/n", "alpha-00001-of-00002.gguf", 10),
    ];
    let mut issues = Vec::new();
    let (models, _) = llamapilot::models::shards::group_models(&files, &mut issues);
    assert_eq!(models.len(), 2);
    assert_eq!(models[0].id, "/m/alpha.gguf");
    assert_eq!(models[0].primary_path, None);
    assert_eq!(models[0].expected_shards, 2);
    assert!(!models[0].complete);
    assert_eq!(models[0].total_size_bytes, 20);
    assert_eq!(models[1].id, "/n/alpha.gguf");
    assert_eq!(models[1].primary_path.as_deref(), Some("/n/alpha-00001-of-00002.gguf"));
    assert_eq!(models[1].total_size_bytes, 10);
    assert!(issues.is_empty());
}

#[test]
fn models_are_grouped_in_the_order_of_their_keys() {
    let shard = |directory: &str, filename: &str| ParsedFile {
        path: format!("{directory}/{filename}"),
        directory: directory.into(),
        filename: filename.into(),
        size_bytes: 1,
        modified_at: 0,
        metadata: GgufMetadata::default(),
    };
    let files = vec![shard("/z", "beta.gguf"), shard("/a", "gamma.gguf"), shard("/m", "alpha.gguf")];
    let mut issues = Vec::new();
    let (models, stems) = llamapilot::models::shards::group_models(&files, &mut issues);
    let ids: Vec<&str> = models.iter().map(|m| m.id.as_str()).collect();
    assert_eq!(ids, vec!["/a/gamma.gguf", "/m/alpha.gguf", "/z/beta.gguf"]);
    assert_eq!(stems, vec![Some("gamma".to_string()), Some("alpha".to_string()), Some("beta".to_string())]);
}

#[test]
fn a_profile_needs_a_registered_present_and_inspected_runtime() {
    let gone = check_profile_runtime("cuda", false, "/rt/llama-server", true, true).unwrap_err();
    assert_eq!(gone.code, ErrorCode::RuntimeNotFound);
    assert_eq!(gone.message, "The runtime selected by this profile no longer exists.");
    assert_eq!(gone.details.as_deref(), Some("cuda"));
    let missing = check_profile_runtime("cuda", true, "/rt/llama-server", false, true).unwrap_err();
    assert_eq!(missing.message, "The selected runtime executable is missing.");
    assert_eq!(missing.details.as_deref(), Some("/rt/llama-server"));
    let fresh = check_profile_runtime("cuda", true, "/rt/llama-server", true, false).unwrap_err();
    assert_eq!(fresh.code, ErrorCode::CapabilityDiscoveryFailed);
    assert!(check_profile_runtime("cuda", true, "/rt/llama-server", true, true).is_ok());
}

#[test]
fn pinned_profile_files_must_still_exist() {
    let model = check_pinned_files("/m/a.gguf", false, Some("/m/p.gguf"), true).unwrap_err();
    assert_eq!(model.code, ErrorCode::InvalidProfile);
    assert_eq!(model.message, "The profile's pinned model is missing.");
    assert_eq!(model.details.as_deref(), Some("/m/a.gguf"));
    let projector = check_pinned_files("/m/a.gguf", true, Some("/m/p.gguf"), false).unwrap_err();
    assert_eq!(projector.message, "The profile's pinned projector is missing.");
    assert!(check_pinned_files("/m/a.gguf", true, None, false).is_ok());
}
