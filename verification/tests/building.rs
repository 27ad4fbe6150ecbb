use llamapilot::build::directory::{build_directory_name, parse_cached_generator};
use llamapilot::build::plan::{artifact_directories, plan_build, plan_build_with_default};
use llamapilot::build::profile::{BuildBackend, BuildConfiguration, BuildProfile};
use llamapilot::build::service::{apply_build_defaults, classify_cmake_failure, BuildSupervisor};
use llamapilot::error::ErrorCode;
use llamapilot::process::runner::CommandOutput;

fn profile() -> BuildProfile {
    BuildProfile {
        backend: BuildBackend::Cuda,
        configuration: BuildConfiguration::Release,
        generator: Some("Visual Studio 18 2026".into()),
        parallel_jobs: None,
        native_optimizations: true,
        cuda_architectures: None,
        additional_cmake_args: Vec::new(),
    }
}

fn with_profile(f: impl FnOnce(&mut BuildProfile)) -> BuildProfile {
    let mut p = profile();
    f(&mut p);
    p
}

#[test]
fn the_name_encodes_source_backend_architecture_generator_and_configuration() {
    assert_eq!(
        build_directory_name("llama.cpp", &profile(), "x64"),
        "llama.cpp-cuda-x64-visual-studio-18-2026-release"
    );
}

#[test]
fn different_generators_get_different_trees() {
    let visual_studio = build_directory_name("llama.cpp", &profile(), "x64");
    let ninja = build_directory_name(
        "llama.cpp",
        &with_profile(|p| p.generator = Some("Ninja".into())),
        "x64",
    );
    assert_ne!(visual_studio, ninja);
}

#[test]
fn different_backends_and_configurations_get_different_trees() {
    let cuda_release = build_directory_name("llama.cpp", &profile(), "x64");
    let cpu_release = build_directory_name(
        "llama.cpp",
        &with_profile(|p| p.backend = BuildBackend::Cpu),
        "x64",
    );
    let cuda_debug = build_directory_name(
        "llama.cpp",
        &with_profile(|p| p.configuration = BuildConfiguration::Debug),
        "x64",
    );
    assert_ne!(cuda_release, cpu_release);
    assert_ne!(cuda_release, cuda_debug);
}

#[test]
fn no_generator_is_recorded_as_the_cmake_default() {
    let name = build_directory_name("llama.cpp", &with_profile(|p| p.generator = None), "x64");
    assert!(name.contains("-default-"));
}

#[test]
fn source_names_are_reduced_to_safe_path_segments() {
    let name = build_directory_name("My Fork/llama.cpp!", &profile(), "x64");
    assert!(name.starts_with("my-fork-llama.cpp-"));
    assert!(!name.contains('/'));
    assert!(!name.contains('!'));
    assert!(!name.contains(' '));
}

#[test]
fn reads_the_generator_back_out_of_a_cmake_cache() {
    let cache = "\
//Name of generator.
CMAKE_GENERATOR:INTERNAL=Visual Studio 18 2026
//Generator instance identifier.
CMAKE_GENERATOR_INSTANCE:INTERNAL=C:/Program Files/Microsoft Visual Studio/18/Community
";
    assert_eq!(parse_cached_generator(cache).as_deref(), Some("Visual Studio 18 2026"));
}

#[test]
fn a_cache_without_a_generator_yields_none() {
    assert_eq!(parse_cached_generator("CMAKE_HOME_DIRECTORY:INTERNAL=/src"), None);
}

const SOURCE: &str = "/src/llama.cpp";
const BUILD: &str = "/builds/cuda-release";

#[test]
fn a_cuda_build_matches_the_upstream_documented_shape() {
    let plan = plan_build(SOURCE, BUILD, &profile());
    assert_eq!(
        plan.configure_args,
        vec![
            "-S",
            "/src/llama.cpp",
            "-B",
            "/builds/cuda-release",
            "-G",
            "Visual Studio 18 2026",
            "-DGGML_CUDA=ON",
            "-DGGML_METAL=OFF",
            "-DBUILD_SHARED_LIBS=OFF",
            "-DCMAKE_BUILD_RPATH_USE_ORIGIN=ON",
            "-DLLAMA_BUILD_SERVER=ON",
            "-DLLAMA_BUILD_TESTS=OFF",
            "-DLLAMA_BUILD_EXAMPLES=OFF",
        ]
    );
    assert_eq!(
        plan.build_args,
        vec![
            "--build",
            "/builds/cuda-release",
            "--config",
            "Release",
            "--target",
            "llama-server",
            "--parallel",
        ]
    );
}

#[test]
fn a_cpu_build_explicitly_disables_gpu_backends() {
    let plan = plan_build(SOURCE, BUILD, &with_profile(|p| p.backend = BuildBackend::Cpu));
    assert!(plan.configure_args.contains(&"-DGGML_CUDA=OFF".to_string()));
    assert!(plan.configure_args.contains(&"-DGGML_METAL=OFF".to_string()));
}

#[test]
fn single_config_generators_take_the_build_type_at_configure_time() {
    let plan = plan_build(
        SOURCE,
        BUILD,
        &with_profile(|p| {
            p.generator = Some("Ninja".into());
            p.configuration = BuildConfiguration::RelWithDebInfo;
        }),
    );
    assert!(!plan.multi_config);
    assert!(plan.configure_args.contains(&"-DCMAKE_BUILD_TYPE=RelWithDebInfo".to_string()));
    assert!(!plan.build_args.contains(&"--config".to_string()));
}

#[test]
fn multi_config_generators_take_the_configuration_at_build_time() {
    let plan = plan_build(
        SOURCE,
        BUILD,
        &with_profile(|p| p.generator = Some("Ninja Multi-Config".into())),
    );
    assert!(plan.multi_config);
    assert!(!plan.configure_args.iter().any(|arg| arg.starts_with("-DCMAKE_BUILD_TYPE")));
    assert!(plan.build_args.contains(&"--config".to_string()));
}

#[test]
fn disabling_native_optimizations_emits_the_documented_flag() {
    let plan = plan_build(SOURCE, BUILD, &with_profile(|p| p.native_optimizations = false));
    assert!(plan.configure_args.contains(&"-DGGML_NATIVE=OFF".to_string()));
}

#[test]
fn explicit_cuda_architectures_are_passed_through() {
    let plan = plan_build(
        SOURCE,
        BUILD,
        &with_profile(|p| p.cuda_architectures = Some(" 86;89 ".into())),
    );
    assert!(plan.configure_args.contains(&"-DCMAKE_CUDA_ARCHITECTURES=86;89".to_string()));
}

#[test]
fn blank_cuda_architectures_are_ignored() {
    let plan = plan_build(SOURCE, BUILD, &with_profile(|p| p.cuda_architectures = Some("   ".into())));
    assert!(!plan.configure_args.iter().any(|arg| arg.starts_with("-DCMAKE_CUDA_ARCHITECTURES")));
}

#[test]
fn additional_arguments_are_appended_verbatim_and_stay_separate() {
    let plan = plan_build(
        SOURCE,
        BUILD,
        &with_profile(|p| {
            p.additional_cmake_args = vec![
                "-DGGML_CUDA_FORCE_MMQ=ON".into(),
                "  ".into(),
                "-DCMAKE_CUDA_COMPILER=C:/cuda/bin/nvcc.exe".into(),
            ]
        }),
    );
    let tail = &plan.configure_args[plan.configure_args.len() - 2..];
    assert_eq!(tail, ["-DGGML_CUDA_FORCE_MMQ=ON", "-DCMAKE_CUDA_COMPILER=C:/cuda/bin/nvcc.exe"]);
}

#[test]
fn an_explicit_job_count_is_passed_to_parallel() {
    let plan = plan_build(SOURCE, BUILD, &with_profile(|p| p.parallel_jobs = Some(16)));
    let parallel = plan.build_args.iter().position(|arg| arg == "--parallel").expect("parallel flag");
    assert_eq!(plan.build_args[parallel + 1], "16");
}

#[test]
fn a_zero_job_count_falls_back_to_cmake_deciding() {
    let plan = plan_build(SOURCE, BUILD, &with_profile(|p| p.parallel_jobs = Some(0)));
    assert_eq!(plan.build_args.last().map(String::as_str), Some("--parallel"));
}

fn joined(parts: &[&str]) -> String {
    let mut path = std::path::PathBuf::new();
    for part in parts {
        path.push(part);
    }
    path.to_string_lossy().into_owned()
}

#[test]
fn multi_config_artifacts_are_searched_under_the_configuration_directory() {
    let plan = plan_build(SOURCE, BUILD, &profile());
    assert_eq!(
        artifact_directories(&plan, "Release"),
        vec![joined(&[BUILD, "bin", "Release"]), joined(&[BUILD, "bin"])]
    );
}

#[test]
fn single_config_artifacts_land_directly_in_bin() {
    let plan = plan_build(SOURCE, BUILD, &with_profile(|p| p.generator = Some("Ninja".into())));
    assert_eq!(artifact_directories(&plan, "Release"), vec![joined(&[BUILD, "bin"])]);
}

#[test]
fn without_a_generator_the_platform_default_decides_multi_config() {
    let windows = plan_build_with_default(SOURCE, BUILD, &with_profile(|p| p.generator = None), true);
    let unix = plan_build_with_default(SOURCE, BUILD, &with_profile(|p| p.generator = None), false);
    assert!(windows.multi_config);
    assert!(!windows.configure_args.contains(&"-G".to_string()));
    assert!(!unix.multi_config);
    assert!(unix.configure_args.contains(&"-DCMAKE_BUILD_TYPE=Release".to_string()));
}

fn output(exit_code: Option<i32>, stderr: &str) -> CommandOutput {
    CommandOutput { exit_code, stdout: String::new(), stderr: stderr.to_string(), duration_ms: 10 }
}

#[test]
fn recognises_a_missing_cuda_toolset() {
    let error = classify_cmake_failure(
        ErrorCode::ConfigureFailed,
        "failed",
        &output(Some(1), "CMake Error: No CUDA toolset found."),
    );
    assert_eq!(error.code, ErrorCode::ConfigureFailed);
    assert!(error.message.contains("CUDA"));
    assert!(error.hint.is_some());
}

#[test]
fn recognises_a_missing_cxx_compiler() {
    let error = classify_cmake_failure(
        ErrorCode::ConfigureFailed,
        "failed",
        &output(Some(1), "No CMAKE_CXX_COMPILER could be found."),
    );
    assert!(error.message.contains("C++ compiler"));
    assert!(error.hint.expect("hint").contains("Desktop development with C++"));
}

#[test]
fn recognises_compiler_memory_exhaustion() {
    let error = classify_cmake_failure(
        ErrorCode::BuildFailed,
        "failed",
        &output(Some(1), "fatal error C1060: compiler is out of heap space"),
    );
    assert!(error.hint.expect("hint").contains("parallel job count"));
}

#[test]
fn a_terminated_build_reports_cancellation_rather_than_a_compile_error() {
    let error = classify_cmake_failure(ErrorCode::BuildFailed, "failed", &output(None, ""));
    assert_eq!(error.code, ErrorCode::BuildCancelled);
}

#[test]
fn unrecognised_failures_keep_the_raw_log_and_the_requested_code() {
    let error = classify_cmake_failure(
        ErrorCode::BuildFailed,
        "The build failed to compile.",
        &output(Some(2), "some novel compiler diagnostic"),
    );
    assert_eq!(error.code, ErrorCode::BuildFailed);
    assert_eq!(error.details.as_deref(), Some("some novel compiler diagnostic"));
}

#[test]
fn global_parallel_jobs_are_used_when_the_profile_leaves_them_automatic() {
    let profile = apply_build_defaults(BuildProfile::default(), Some(12));
    assert_eq!(profile.parallel_jobs, Some(12));
}

#[test]
fn an_explicit_profile_job_count_overrides_the_global_default() {
    let mut p = BuildProfile::default();
    p.parallel_jobs = Some(4);
    let profile = apply_build_defaults(p, Some(12));
    assert_eq!(profile.parallel_jobs, Some(4));
}

#[test]
fn only_one_build_may_run_at_a_time() {
    let mut supervisor = BuildSupervisor::default();
    let _first = supervisor.begin().expect("first build starts");
    assert!(supervisor.is_running());
    let second = supervisor.begin().expect_err("second build is rejected");
    assert_eq!(second.code, ErrorCode::BuildInProgress);
}

#[test]
fn cancelling_keeps_the_slot_until_the_active_task_finishes() {
    let mut supervisor = BuildSupervisor::default();
    let running = supervisor.begin().expect("starts");
    assert!(supervisor.cancel());
    assert!(supervisor.is_running());
    assert_eq!(
        supervisor.ensure_not_cancelled(running).expect_err("permit observes cancellation").code,
        ErrorCode::BuildCancelled
    );
    assert_eq!(
        supervisor.begin().expect_err("new build remains blocked").code,
        ErrorCode::BuildInProgress
    );
    supervisor.finish(running);
    assert!(!supervisor.is_running());
    assert!(supervisor.begin().is_ok());
}

#[test]
fn cancelling_when_idle_reports_that_nothing_was_running() {
    let mut supervisor = BuildSupervisor::default();
    assert!(!supervisor.cancel());
}

#[test]
fn build_tree_names_hold_only_safe_characters() {
    let mut profile = BuildProfile::cpu();
    profile.generator = Some("  Unix   Makefiles!  ".to_string());
    let name = build_directory_name("My Source/../x", &profile, "x86_64");
    assert_eq!(name, "my-source-..-x-cpu-x86_64-unix-makefiles-release");
    assert!(name.chars().all(|c| c.is_ascii_alphanumeric() || c == '.' || c == '-' || c == '_'));
    let mut blank = BuildProfile::cpu();
    blank.generator = Some("   ".to_string());
    assert_eq!(
        build_directory_name("llama.cpp", &blank, "x64"),
        build_directory_name("llama.cpp", &BuildProfile::cpu(), "x64")
    );
}
