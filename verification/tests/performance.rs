use llamapilot::error::ErrorCode;
use llamapilot::hardware::nvidia::GpuInfo;
use llamapilot::llama::capabilities::{
    LlamaCapabilities, LlamaDevice, LlamaOption, LlamaOptionCategory, CAPABILITIES_SCHEMA_VERSION,
};
use llamapilot::performance::benchmark::{coding_prompt, local_base_url};
use llamapilot::performance::model::PerformanceCandidate;
use llamapilot::performance::optimizer::{apply_candidate, build_plan, percentages};
use llamapilot::performance::sweep::{
    placement, sweep_step, sweep_succeeded, PerformanceSweepSupervisor, RestoreReason, SweepEnd,
    SweepEvent, SweepStage,
};
use llamapilot::profiles::{custom, LaunchProfile, ProfileOptionSetting, PROFILE_SCHEMA_VERSION};
use llamapilot::text_map::TextMap;

fn known_option(key: &str, hint: Option<&str>) -> LlamaOption {
    LlamaOption {
        flag: format!("--{key}"),
        aliases: vec![format!("--{key}")],
        value_hint: hint.map(str::to_string),
        description: String::new(),
        section: "gpu".into(),
        category: LlamaOptionCategory::Gpu,
        known_key: Some(key.into()),
        display_name: key.into(),
        summary: None,
    }
}

fn map_of<V>(entries: Vec<(&str, V)>) -> TextMap<V> {
    let mut map = TextMap::new();
    for (key, value) in entries {
        map.insert(key.to_string(), value);
    }
    map
}

fn capabilities() -> LlamaCapabilities {
    LlamaCapabilities {
        schema_version: CAPABILITIES_SCHEMA_VERSION,
        version: "test".into(),
        commit: None,
        options: map_of(vec![
            ("--device", known_option("device", None)),
            ("--gpu-layers", known_option("gpuLayers", None)),
            ("--split-mode", known_option("splitMode", Some("{none,layer,row,tensor}"))),
            ("--tensor-split", known_option("tensorSplit", None)),
            ("--main-gpu", known_option("mainGpu", None)),
            ("--flash-attn", known_option("flashAttention", None)),
            ("--cache-type-k", known_option("kvCacheTypeK", Some("{f16,q8_0}"))),
            ("--cache-type-v", known_option("kvCacheTypeV", Some("{f16,q8_0}"))),
        ]),
        speculative_types: Vec::new(),
        devices: vec![
            LlamaDevice {
                id: "CUDA0".into(),
                name: "Fast GPU".into(),
                backend: Some("CUDA".into()),
                memory_total_mib: Some(24_000),
                memory_free_mib: Some(20_000),
                raw: String::new(),
            },
            LlamaDevice {
                id: "CUDA1".into(),
                name: "Large GPU".into(),
                backend: Some("CUDA".into()),
                memory_total_mib: Some(48_000),
                memory_free_mib: Some(40_000),
                raw: String::new(),
            },
        ],
    }
}

fn profile_with(options: TextMap<ProfileOptionSetting>) -> LaunchProfile {
    LaunchProfile {
        schema_version: PROFILE_SCHEMA_VERSION,
        id: "profile".into(),
        name: "Coding".into(),
        description: None,
        runtime_id: "runtime".into(),
        runtime_label: "CUDA runtime".into(),
        model_id: "model".into(),
        model_name: "Coder".into(),
        model_path: "/models/coder.gguf".into(),
        projector_path: None,
        host: "127.0.0.1".into(),
        port: 8080,
        auto_select_port: false,
        options,
        environment: TextMap::new(),
        additional_arguments: Vec::new(),
        created_at: "now".into(),
        updated_at: "now".into(),
    }
}

fn profile() -> LaunchProfile {
    profile_with(TextMap::new())
}

#[test]
fn produces_safe_and_experimental_candidates_for_two_gpus() {
    let hardware = vec![
        GpuInfo {
            index: 0,
            name: "Fast GPU".into(),
            total_memory_mib: 24_000,
            used_memory_mib: 4_000,
            free_memory_mib: 20_000,
            driver_version: None,
        },
        GpuInfo {
            index: 1,
            name: "Large GPU".into(),
            total_memory_mib: 48_000,
            used_memory_mib: 8_000,
            free_memory_mib: 40_000,
            driver_version: None,
        },
    ];
    let plan = build_plan(&profile(), &capabilities(), &hardware, Some(30 << 30));
    assert_eq!(plan.devices.len(), 2);
    assert_eq!(plan.devices.iter().map(|gpu| gpu.split_percent).sum::<u32>(), 100);
    assert_eq!(plan.recommended_candidate_id.as_deref(), Some("all-gpus-layer"));
    assert_eq!(plan.candidates.len(), 3);
    let tensor = plan
        .candidates
        .iter()
        .find(|candidate| candidate.id == "all-gpus-tensor")
        .expect("tensor candidate");
    assert!(tensor.experimental);
    assert_eq!(tensor.options.get("kvCacheTypeK"), Some(&custom("f16")));
}

#[test]
fn a_runtime_without_devices_returns_an_actionable_warning() {
    let mut capabilities = capabilities();
    capabilities.devices.clear();
    let plan = build_plan(&profile(), &capabilities, &[], None);
    assert!(plan.candidates.is_empty());
    assert!(plan.warnings[0].contains("no accelerator devices"));
}

#[test]
fn percentages_always_sum_to_one_hundred() {
    assert_eq!(percentages(&[1, 1, 1]).iter().sum::<u32>(), 100);
    assert_eq!(percentages(&[1, 2]), vec![33, 67]);
}

#[test]
fn percentages_give_the_rounding_difference_to_the_largest_weight() {
    assert_eq!(percentages(&[1, 1, 1]), vec![33, 33, 34]);
    assert_eq!(percentages(&[0, 0]), vec![0, 100]);
    assert!(percentages(&[]).is_empty());
}

#[test]
fn applying_a_candidate_clears_previous_strategy_flags_but_keeps_unrelated_settings() {
    let mut input = profile().input();
    input.options = map_of(vec![
        ("contextSize", custom("32768")),
        ("mainGpu", custom("1")),
        ("splitMode", custom("row")),
        ("kvCacheTypeK", custom("f16")),
    ]);
    let candidate = PerformanceCandidate {
        id: "layer".into(),
        label: "Layer".into(),
        description: String::new(),
        split_mode: "layer".into(),
        experimental: false,
        options: map_of(vec![("splitMode", custom("layer"))]),
        reasons: Vec::new(),
        warnings: Vec::new(),
    };
    let applied = apply_candidate(input, &candidate);
    assert_eq!(applied.options.get("contextSize"), Some(&custom("32768")));
    assert_eq!(applied.options.get("splitMode"), Some(&custom("layer")));
    assert!(applied.options.get("mainGpu").is_none());
    assert!(applied.options.get("kvCacheTypeK").is_none());
}

#[test]
fn captures_the_profile_placement_used_by_a_benchmark() {
    let profile = profile_with(map_of(vec![
        ("device", ProfileOptionSetting::Custom { value: "CUDA0,CUDA1".into() }),
        ("splitMode", ProfileOptionSetting::Custom { value: "layer".into() }),
        ("gpuLayers", ProfileOptionSetting::Auto),
    ]));
    let placement = placement(&profile.options);
    assert_eq!(placement.devices.as_deref(), Some("CUDA0,CUDA1"));
    assert_eq!(placement.split_mode.as_deref(), Some("layer"));
    assert_eq!(placement.gpu_layers.as_deref(), Some("auto"));
    assert!(placement.tensor_split.is_none());
}

#[test]
fn normalizes_wildcard_and_ipv6_hosts_for_local_requests() {
    assert_eq!(local_base_url("0.0.0.0", 8080), "http://127.0.0.1:8080");
    assert_eq!(local_base_url("::", 8080), "http://[::1]:8080");
}

#[test]
fn a_named_host_is_kept_for_local_requests() {
    assert_eq!(local_base_url("localhost", 9090), "http://localhost:9090");
    assert!(coding_prompt().len() > 4_000);
}

#[test]
fn cancellation_keeps_the_slot_until_the_permit_is_dropped() {
    let mut supervisor = PerformanceSweepSupervisor::default();
    let permit = supervisor.begin().expect("first sweep");
    assert!(supervisor.is_running());
    assert!(supervisor.cancel());
    assert_eq!(supervisor.ensure_not_cancelled(permit).unwrap_err().code, ErrorCode::BenchmarkCancelled);
    assert!(supervisor.begin().is_err());
    supervisor.finish(permit);
    assert!(!supervisor.is_running());
}

fn run_events(total: usize, events: &[SweepEvent]) -> Vec<SweepStage> {
    let mut stage = SweepStage::Next(0);
    let mut stages = Vec::new();
    for event in events {
        stage = sweep_step(stage, total, *event);
        stages.push(stage);
    }
    stages
}

#[test]
fn a_sweep_measures_each_candidate_in_order_then_applies_the_winner() {
    let stages = run_events(
        2,
        &[
            SweepEvent::CancelCheck(false),
            SweepEvent::CandidateEnded { server_stuck: false, cancelled: false },
            SweepEvent::CancelCheck(false),
            SweepEvent::CandidateEnded { server_stuck: false, cancelled: false },
            SweepEvent::WinnerChosen(Some(1)),
            SweepEvent::Completed(true),
        ],
    );
    assert_eq!(
        stages,
        vec![
            SweepStage::Measuring(0),
            SweepStage::Next(1),
            SweepStage::Measuring(1),
            SweepStage::Choosing,
            SweepStage::Applying(1),
            SweepStage::Done(SweepEnd::Applied),
        ]
    );
    assert!(sweep_succeeded(SweepEnd::Applied));
}

#[test]
fn a_cancelled_sweep_restores_the_original_profile() {
    let stages = run_events(
        3,
        &[
            SweepEvent::CancelCheck(false),
            SweepEvent::CandidateEnded { server_stuck: false, cancelled: true },
            SweepEvent::CancelCheck(false),
            SweepEvent::Completed(true),
        ],
    );
    assert_eq!(stages[1], SweepStage::Restoring(RestoreReason::Cancelled));
    assert_eq!(stages[2], SweepStage::Restoring(RestoreReason::Cancelled));
    assert_eq!(stages[3], SweepStage::Done(SweepEnd::Cancelled));
    assert!(!sweep_succeeded(SweepEnd::Cancelled));
    let before_any = run_events(3, &[SweepEvent::CancelCheck(true), SweepEvent::Completed(false)]);
    assert_eq!(before_any[1], SweepStage::Done(SweepEnd::RestoreFailed));
}

#[test]
fn a_server_that_will_not_stop_ends_the_sweep() {
    let stages = run_events(
        2,
        &[
            SweepEvent::CancelCheck(false),
            SweepEvent::CandidateEnded { server_stuck: true, cancelled: false },
            SweepEvent::Completed(true),
        ],
    );
    assert_eq!(stages[1], SweepStage::Reverting);
    assert_eq!(stages[2], SweepStage::Done(SweepEnd::CleanupFailed));
    assert!(!sweep_succeeded(SweepEnd::CleanupFailed));
}

#[test]
fn a_sweep_without_a_winner_or_with_a_failed_write_restores_the_profile() {
    let none = run_events(
        1,
        &[
            SweepEvent::CancelCheck(false),
            SweepEvent::CandidateEnded { server_stuck: false, cancelled: false },
            SweepEvent::WinnerChosen(None),
            SweepEvent::Completed(true),
        ],
    );
    assert_eq!(none[2], SweepStage::Restoring(RestoreReason::NoWinner));
    assert_eq!(none[3], SweepStage::Done(SweepEnd::NoWinner));
    assert!(sweep_succeeded(SweepEnd::NoWinner));
    let failed = sweep_step(SweepStage::Applying(0), 1, SweepEvent::Completed(false));
    assert_eq!(failed, SweepStage::Restoring(RestoreReason::ApplyFailed));
    assert_eq!(
        sweep_step(failed, 1, SweepEvent::Completed(true)),
        SweepStage::Done(SweepEnd::ApplyFailed)
    );
}

#[test]
fn an_event_for_another_stage_changes_nothing() {
    assert_eq!(sweep_step(SweepStage::Choosing, 2, SweepEvent::Completed(true)), SweepStage::Choosing);
    assert_eq!(
        sweep_step(SweepStage::Done(SweepEnd::Applied), 2, SweepEvent::CancelCheck(true)),
        SweepStage::Done(SweepEnd::Applied)
    );
}

#[test]
fn an_excess_larger_than_the_largest_share_is_spread_over_the_others() {
    let shares = percentages(&[1; 35]);
    assert_eq!(shares.len(), 35);
    assert_eq!(shares.iter().sum::<u32>(), 100);
    assert_eq!(shares[0], 1);
    assert_eq!(shares[1], 3);
    assert_eq!(shares[34], 0);
}
