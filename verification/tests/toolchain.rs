use llamapilot::build::toolchain::{
    is_multi_config, parse_cmake_version, parse_generators, parse_git_version, parse_ninja_version,
    parse_nvcc_version, visual_studio_install, ToolId, ToolRequirement, ToolStatus, Toolchain,
};

const CMAKE_HELP: &str = "\
Generators

The following generators are available on this platform (* marks default):
* Visual Studio 18 2026        = Generates Visual Studio 2026 project files.
                                 Use -A option to specify architecture.
  Visual Studio 17 2022        = Generates Visual Studio 2022 project files.
                                 Use -A option to specify architecture.
  NMake Makefiles              = Generates NMake makefiles.
  Ninja                        = Generates build.ninja files.
  Ninja Multi-Config           = Generates build-<Config>.ninja files.
  Unix Makefiles               = Generates standard UNIX makefiles.
";

#[test]
fn parses_the_generator_table_and_marks_the_default() {
    let generators = parse_generators(CMAKE_HELP);
    let names: Vec<&str> = generators.iter().map(|g| g.name.as_str()).collect();
    assert_eq!(
        names,
        vec![
            "Visual Studio 18 2026",
            "Visual Studio 17 2022",
            "NMake Makefiles",
            "Ninja",
            "Ninja Multi-Config",
            "Unix Makefiles",
        ]
    );
    let default = generators.iter().find(|g| g.is_default).expect("a default");
    assert_eq!(default.name, "Visual Studio 18 2026");
}

#[test]
fn wrapped_description_lines_are_not_mistaken_for_generators() {
    let generators = parse_generators(CMAKE_HELP);
    assert!(!generators.iter().any(|generator| generator.name.contains("Use -A option")));
}

#[test]
fn identifies_multi_config_generators() {
    let generators = parse_generators(CMAKE_HELP);
    let multi: Vec<&str> =
        generators.iter().filter(|g| g.multi_config).map(|g| g.name.as_str()).collect();
    assert_eq!(multi, vec!["Visual Studio 18 2026", "Visual Studio 17 2022", "Ninja Multi-Config"]);
    assert!(!is_multi_config("Ninja"));
    assert!(!is_multi_config("Unix Makefiles"));
}

#[test]
fn parses_tool_versions() {
    assert_eq!(
        parse_cmake_version("cmake version 4.4.0\n\nCMake suite maintained...").as_deref(),
        Some("4.4.0")
    );
    assert_eq!(
        parse_git_version("git version 2.54.0.windows.1").as_deref(),
        Some("2.54.0.windows.1")
    );
    assert_eq!(parse_ninja_version("1.13.1\n").as_deref(), Some("1.13.1"));
}

#[test]
fn parses_the_cuda_release_from_nvcc() {
    let output = "\
nvcc: NVIDIA (R) Cuda compiler driver
Copyright (c) 2005-2026 NVIDIA Corporation
Built on Tue_Jun_10_19:20:14_2026
Cuda compilation tools, release 13.3, V13.3.33
Build cuda_13.3.r13.3/compiler.36000000_0
";
    assert_eq!(parse_nvcc_version(output).as_deref(), Some("13.3"));
}

#[test]
fn unrecognised_version_output_yields_none() {
    assert_eq!(parse_cmake_version("command not found"), None);
    assert_eq!(parse_nvcc_version(""), None);
}

#[test]
fn build_capability_follows_tool_requirements() {
    let toolchain = Toolchain {
        generators: Vec::new(),
        tools: vec![
            ToolStatus::found(ToolId::Cmake, "CMake", ToolRequirement::Required),
            ToolStatus::found(ToolId::Msvc, "MSVC", ToolRequirement::Required),
            ToolStatus::missing(
                ToolId::Nvcc,
                "nvcc",
                ToolRequirement::RequiredForCuda,
                "Install the CUDA Toolkit.",
            ),
            ToolStatus::missing(ToolId::Ninja, "Ninja", ToolRequirement::Optional, "Optional."),
        ],
    };
    assert!(toolchain.can_build_cpu());
    assert!(!toolchain.can_build_cuda());
}

#[test]
fn the_default_generator_and_a_named_one_are_found() {
    let toolchain = Toolchain { generators: parse_generators(CMAKE_HELP), tools: Vec::new() };
    assert_eq!(toolchain.default_generator().map(|g| g.name.clone()).as_deref(), Some("Visual Studio 18 2026"));
    assert!(toolchain.generator("Ninja").is_some());
    assert!(toolchain.generator("Xcode").is_none());
    assert!(is_multi_config("Xcode"));
    assert!(toolchain.tool(ToolId::Cmake).is_none());
}

#[test]
fn a_vswhere_instance_with_a_path_is_an_install() {
    let install = visual_studio_install(
        Some("Visual Studio Community 2026".to_string()),
        Some("18.7.11911.148".to_string()),
        Some(r"C:\Program Files\Microsoft Visual Studio\18\Community".to_string()),
    )
    .expect("an instance");
    assert_eq!(install.display_name, "Visual Studio Community 2026");
    assert_eq!(install.version, "18.7.11911.148");
    assert_eq!(install.installation_path, r"C:\Program Files\Microsoft Visual Studio\18\Community");
}

#[test]
fn a_vswhere_instance_gets_default_name_and_version_but_needs_a_path() {
    let install = visual_studio_install(None, None, Some("/opt/vs".to_string())).expect("an instance");
    assert_eq!(install.display_name, "Visual Studio");
    assert_eq!(install.version, "");
    assert_eq!(install.installation_path, "/opt/vs");
    assert_eq!(visual_studio_install(Some("Visual Studio".to_string()), Some("18".to_string()), None), None);
}
