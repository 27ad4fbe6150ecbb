use llamapilot::error::ErrorCode;
use llamapilot::hardware::nvidia::parse_gpu_query;
use llamapilot::llama::artifacts::{is_superseded, validate_inspection_id};
use llamapilot::llama::capabilities::{
    known_options, LlamaCapabilities, LlamaOption, LlamaOptionCategory, CAPABILITIES_SCHEMA_VERSION,
};
use llamapilot::llama::parser::{parse_capabilities, parse_devices, parse_help, parse_version};
use llamapilot::text_map::TextMap;

/// `llama-server --version` of a current build.
const CURRENT_VERSION: &str = "\
version: b7900-790b5713 (build 7900, commit 790b5713)
built with cc (GCC) 14.2.1 for x86_64-linux-gnu
";

/// An excerpt of `llama-server --help` of a current build.
const CURRENT_HELP: &str = "\
----- common params -----

-h,    --help, --usage                  print usage and exit
--version                               show version and build info
-c,    --ctx-size N                     size of the prompt context (default: 4096, 0 = loaded
                                        from model)
                                        (env: LLAMA_ARG_CTX_SIZE)
-dev,  --device <dev1,dev2,..>          comma-separated list of devices to use for offloading
                                        (none = don't offload)
                                        use --list-devices to see a list of available devices
                                        (env: LLAMA_ARG_DEVICE)

----- speculative params -----

--spec-type [none,draft-simple,draft-eagle3,ngram-cache]
                                        type of speculative decoding to use (default: none)
--future-flag                           a flag this library does not know yet
";

/// `llama-server --list-devices` on a machine with two CUDA GPUs.
const CUDA_DEVICES: &str = "\
ggml_cuda_init: found 2 CUDA devices:
  Device 0: NVIDIA GeForce RTX 4090, compute capability 8.9, VMM: yes
  Device 1: NVIDIA GeForce RTX 4060 Ti, compute capability 8.9, VMM: yes
Available devices:
  CUDA0: NVIDIA GeForce RTX 4090 (24564 MiB, 22104 MiB free)
  CUDA1: NVIDIA GeForce RTX 4060 Ti (16379 MiB, 15200 MiB free)
";

#[test]
fn parses_current_version_and_commit() {
    assert_eq!(
        parse_version(CURRENT_VERSION),
        Some(("b7900-790b5713".into(), Some("790b5713".into())))
    );
}

#[test]
fn falls_back_to_a_legacy_version_line() {
    assert_eq!(
        parse_version("llama.cpp b4021-a1b2c3d4\n"),
        Some(("llama.cpp b4021-a1b2c3d4".into(), Some("a1b2c3d4".into())))
    );
}

#[test]
fn parses_aliases_wrapped_descriptions_and_unknown_options() {
    let options = parse_help(CURRENT_HELP);
    let context = options.get("--ctx-size").expect("context option");
    assert_eq!(context.aliases, ["-c", "--ctx-size"]);
    assert_eq!(context.value_hint.as_deref(), Some("N"));
    assert_eq!(context.known_key.as_deref(), Some("contextSize"));

    let device = options.get("--device").expect("device option");
    assert!(device.description.contains("use --list-devices"));

    let unknown = options.get("--future-flag").expect("unknown option");
    assert_eq!(unknown.category, LlamaOptionCategory::Advanced);
    assert!(unknown.known_key.is_none());
}

#[test]
fn unknown_flags_are_humanized_and_descriptions_keep_their_lines() {
    let options = parse_help(CURRENT_HELP);
    let unknown = options.get("--future-flag").expect("unknown option");
    assert_eq!(unknown.display_name, "Future flag");
    assert_eq!(unknown.section, "speculative params");
    let context = options.get("--ctx-size").expect("context option");
    assert_eq!(context.section, "common params");
    assert_eq!(
        context.description,
        "size of the prompt context (default: 4096, 0 = loaded\nfrom model)\n(env: LLAMA_ARG_CTX_SIZE)"
    );
}

#[test]
fn reads_speculative_types_from_the_runtime_value_hint() {
    let capabilities = parse_capabilities(CURRENT_VERSION, CURRENT_HELP, CUDA_DEVICES).expect("parses");
    assert_eq!(capabilities.speculative_types, ["none", "draft-simple", "draft-eagle3", "ngram-cache"]);
}

#[test]
fn parses_device_identity_backend_and_memory() {
    let devices = parse_devices(CUDA_DEVICES);
    assert_eq!(devices.len(), 2);
    assert_eq!(devices[0].id, "CUDA0");
    assert_eq!(devices[0].backend.as_deref(), Some("CUDA"));
    assert_eq!(devices[0].memory_total_mib, Some(24_564));
    assert_eq!(devices[0].memory_free_mib, Some(22_104));
    assert_eq!(devices[1].name, "NVIDIA GeForce RTX 4060 Ti");
}

#[test]
fn an_explicit_none_device_list_is_empty() {
    assert!(parse_devices("Available devices:\n  (none)\n").is_empty());
}

#[test]
fn backend_diagnostics_after_stdout_are_not_devices() {
    let devices = parse_devices(
        "Available devices:\n  CUDA0: RTX (8192 MiB, 4096 MiB free)\nggml_cuda_init: diagnostic\n",
    );
    assert_eq!(devices.len(), 1);
    assert_eq!(devices[0].id, "CUDA0");
}

#[test]
fn rejects_help_without_flags() {
    let error = parse_capabilities(CURRENT_VERSION, "usage unavailable", CUDA_DEVICES).expect_err("must reject");
    assert_eq!(error.code, ErrorCode::CapabilityDiscoveryFailed);
}

#[test]
fn rejects_output_without_a_version() {
    let error = parse_capabilities("   \n", CURRENT_HELP, CUDA_DEVICES).expect_err("must reject");
    assert_eq!(error.code, ErrorCode::CapabilityDiscoveryFailed);
}

#[test]
fn registry_covers_every_specialized_profile_concept() {
    let registry = known_options();
    let keys: Vec<&str> = registry.iter().map(|option| option.key).collect();
    for required in [
        "contextSize",
        "batchSize",
        "microBatchSize",
        "gpuLayers",
        "device",
        "splitMode",
        "tensorSplit",
        "mainGpu",
        "flashAttention",
        "kvCacheTypeK",
        "kvCacheTypeV",
        "kvCacheOffload",
        "kvUnified",
        "swaFull",
        "fit",
        "parallel",
        "jinja",
        "reasoning",
        "speculativeType",
        "draftModel",
        "draftDevice",
        "draftGpuLayers",
        "draftKvCacheTypeK",
        "draftKvCacheTypeV",
        "specDraftMaxTokens",
        "specDraftMinTokens",
        "specDraftSplitProbability",
        "specDraftMinProbability",
        "specDraftBackendSampling",
        "ngramModMinTokens",
        "ngramModMaxTokens",
        "ngramModMatchTokens",
        "ngramSimpleSizeN",
        "ngramSimpleSizeM",
        "ngramSimpleMinHits",
        "ngramMapKSizeN",
        "ngramMapKSizeM",
        "ngramMapKMinHits",
        "ngramMapK4vSizeN",
        "ngramMapK4vSizeM",
        "ngramMapK4vMinHits",
    ] {
        assert!(keys.contains(&required), "missing known concept {required}");
    }
}

#[test]
fn current_registry_enriches_options_loaded_from_older_manifests() {
    let option = LlamaOption {
        flag: "--spec-ngram-mod-n-max".into(),
        aliases: vec!["--spec-ngram-mod-n-max".into()],
        value_hint: Some("N".into()),
        description: "runtime-owned description".into(),
        section: "speculative params".into(),
        category: LlamaOptionCategory::Advanced,
        known_key: None,
        display_name: "Spec ngram mod n max".into(),
        summary: None,
    };
    let mut options = TextMap::new();
    options.insert(option.flag.clone(), option);
    let mut capabilities = LlamaCapabilities {
        schema_version: CAPABILITIES_SCHEMA_VERSION,
        version: "old record".into(),
        commit: None,
        options,
        speculative_types: vec!["ngram-mod".into()],
        devices: Vec::new(),
    };
    capabilities.refresh_known_registry();
    let refreshed = capabilities.options.get("--spec-ngram-mod-n-max").expect("option");
    assert_eq!(refreshed.known_key.as_deref(), Some("ngramModMaxTokens"));
    assert_eq!(refreshed.category, LlamaOptionCategory::Speculative);
    assert_eq!(refreshed.description, "runtime-owned description");
}

#[test]
fn rejects_path_traversal_as_an_inspection_id() {
    let error = validate_inspection_id("../metadata.json").expect_err("must reject");
    assert_eq!(error.code, ErrorCode::Internal);
    assert!(validate_inspection_id("67e55044-10b1-426f-9247-bb680e5fe0c8").is_ok());
}

#[test]
fn only_other_uuid_directories_are_superseded() {
    let current = "67e55044-10b1-426f-9247-bb680e5fe0c8";
    let stale = "0b6f4ef2-0c4c-4b45-a8a5-5e24bd1d2cf0";
    assert!(is_superseded(stale, Some(current), true));
    assert!(!is_superseded(current, Some(current), true));
    assert!(!is_superseded("notes", Some(current), true));
    assert!(!is_superseded(stale, Some(current), false));
}

const TWO_GPUS: &str = "\
0, NVIDIA GeForce RTX 5090, 32607, 1024, 31583, 580.88
1, NVIDIA GeForce RTX 4090, 24564, 512, 24052, 580.88
";

#[test]
fn parses_every_reported_gpu() {
    let gpus = parse_gpu_query(TWO_GPUS);
    assert_eq!(gpus.len(), 2);
    assert_eq!(gpus[0].index, 0);
    assert_eq!(gpus[0].name, "NVIDIA GeForce RTX 5090");
    assert_eq!(gpus[0].total_memory_mib, 32607);
    assert_eq!(gpus[0].free_memory_mib, 31583);
    assert_eq!(gpus[0].driver_version.as_deref(), Some("580.88"));
    assert_eq!(gpus[1].index, 1);
}

#[test]
fn skips_rows_that_do_not_parse() {
    let output = "0, NVIDIA GeForce RTX 5090, 32607, 1024, 31583, 580.88\nnot a row\n";
    assert_eq!(parse_gpu_query(output).len(), 1);
}

#[test]
fn tolerates_a_missing_driver_column() {
    let gpus = parse_gpu_query("0, NVIDIA GeForce RTX 5090, 32607, 1024, 31583\n");
    assert_eq!(gpus.len(), 1);
    assert!(gpus[0].driver_version.is_none());
}

#[test]
fn empty_output_yields_no_gpus() {
    assert!(parse_gpu_query("").is_empty());
    assert!(parse_gpu_query("\n\n").is_empty());
}

#[test]
fn inspection_ids_take_every_uuid_form_the_parser_accepts() {
    assert!(validate_inspection_id("67E55044-10B1-426F-9247-BB680E5FE0C8").is_ok());
    assert!(validate_inspection_id("67e5504410b1426f9247bb680e5fe0c8").is_ok());
    assert!(validate_inspection_id("{67e55044-10b1-426f-9247-bb680e5fe0c8}").is_ok());
    assert!(validate_inspection_id("URN:uuid:67e55044-10b1-426f-9247-bb680e5fe0c8").is_ok());
    assert!(validate_inspection_id("67e55044-10b1-426f-9247bbb680e5fe0c8").is_err());
    assert!(validate_inspection_id("67e55044-10b1-426f-9247-bb680e5fe0cg").is_err());
}
