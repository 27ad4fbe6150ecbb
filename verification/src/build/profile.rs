//! Build backends, configurations and the profile a build is made from.
use vstd::prelude::*;

use crate::error::opt_text;

verus! {

/// GPU/CPU backend, modelled as data so adding a backend is a table entry rather than new build
/// code.
#[derive(Debug, Clone, Copy, PartialEq, Eq, Structural)]
pub enum BuildBackend {
    Cpu,
    Cuda,
}

pub open spec fn backend_slug(backend: BuildBackend) -> Seq<char> {
    match backend {
        BuildBackend::Cpu => "cpu"@,
        BuildBackend::Cuda => "cuda"@,
    }
}

impl BuildBackend {
    pub fn slug(self) -> (r: &'static str)
        ensures
            r@ == backend_slug(self),
    {
        match self {
            BuildBackend::Cpu => "cpu",
            BuildBackend::Cuda => "cuda",
        }
    }

    pub fn label(self) -> (r: &'static str)
        ensures
            r@ == match self {
                BuildBackend::Cpu => "CPU"@,
                BuildBackend::Cuda => "CUDA"@,
            },
    {
        match self {
            BuildBackend::Cpu => "CPU",
            BuildBackend::Cuda => "CUDA",
        }
    }

    /// CMake definitions that select this backend: CUDA is switched on only for the CUDA
    /// backend, and Metal is switched off for both.
    pub fn definitions(self) -> (r: Vec<(&'static str, &'static str)>)
        ensures
            r@.len() == 2,
            r@[0].0@ == "GGML_CUDA"@,
            r@[0].1@ == match self {
                BuildBackend::Cpu => "OFF"@,
                BuildBackend::Cuda => "ON"@,
            },
            r@[1].0@ == "GGML_METAL"@,
            r@[1].1@ == "OFF"@,
    {
        match self {
            BuildBackend::Cpu => vec![("GGML_CUDA", "OFF"), ("GGML_METAL", "OFF")],
            BuildBackend::Cuda => vec![("GGML_CUDA", "ON"), ("GGML_METAL", "OFF")],
        }
    }
}

#[derive(Debug, Clone, Copy, PartialEq, Eq, Structural)]
pub enum BuildConfiguration {
    Release,
    RelWithDebInfo,
    Debug,
}

pub open spec fn configuration_cmake_name(configuration: BuildConfiguration) -> Seq<char> {
    match configuration {
        BuildConfiguration::Release => "Release"@,
        BuildConfiguration::RelWithDebInfo => "RelWithDebInfo"@,
        BuildConfiguration::Debug => "Debug"@,
    }
}

pub open spec fn configuration_slug(configuration: BuildConfiguration) -> Seq<char> {
    match configuration {
        BuildConfiguration::Release => "release"@,
        BuildConfiguration::RelWithDebInfo => "relwithdebinfo"@,
        BuildConfiguration::Debug => "debug"@,
    }
}

/// Each configuration builds as its own CMake build type: `Release`, `RelWithDebInfo` and
/// `Debug`; different configurations never share one, and each build type, lower-cased, is the
/// token that names the configuration's build tree.
pub proof fn configurations_build_as_their_own_build_type(c1: BuildConfiguration, c2: BuildConfiguration)
    ensures
        configuration_cmake_name(BuildConfiguration::Release) == "Release"@,
        configuration_cmake_name(BuildConfiguration::RelWithDebInfo) == "RelWithDebInfo"@,
        configuration_cmake_name(BuildConfiguration::Debug) == "Debug"@,
        c1 != c2 ==> configuration_cmake_name(c1) != configuration_cmake_name(c2),
        crate::text::ascii_lower(configuration_cmake_name(c1)) == configuration_slug(c1),
{
    reveal_strlit("Release");
    reveal_strlit("RelWithDebInfo");
    reveal_strlit("Debug");
    reveal_strlit("release");
    reveal_strlit("relwithdebinfo");
    reveal_strlit("debug");
    if c1 != c2 {
        let n1 = configuration_cmake_name(c1);
        let n2 = configuration_cmake_name(c2);
        if n1.len() == n2.len() {
            assert(n1[0] != n2[0] || n1[3] != n2[3]);
        }
    }
    let n = configuration_cmake_name(c1);
    assert(crate::text::ascii_lower(n) =~= configuration_slug(c1));
}

impl BuildConfiguration {
    pub fn cmake_name(self) -> (r: &'static str)
        ensures
            r@ == configuration_cmake_name(self),
    {
        match self {
            BuildConfiguration::Release => "Release",
            BuildConfiguration::RelWithDebInfo => "RelWithDebInfo",
            BuildConfiguration::Debug => "Debug",
        }
    }

    pub fn slug(self) -> (r: &'static str)
        ensures
            r@ == configuration_slug(self),
    {
        match self {
            BuildConfiguration::Release => "release",
            BuildConfiguration::RelWithDebInfo => "relwithdebinfo",
            BuildConfiguration::Debug => "debug",
        }
    }
}

#[derive(Debug, Clone, PartialEq, Eq)]
pub struct BuildProfile {
    pub backend: BuildBackend,
    pub configuration: BuildConfiguration,
    /// `None` lets CMake pick its default generator for the platform.
    pub generator: Option<String>,
    /// `None` lets CMake decide the job count.
    pub parallel_jobs: Option<u32>,
    /// Upstream default is a native build tuned to this machine.
    pub native_optimizations: bool,
    /// Explicit `CMAKE_CUDA_ARCHITECTURES`, for when nvcc cannot detect the GPU.
    pub cuda_architectures: Option<String>,
    /// Escape hatch, appended verbatim to the configure step.
    pub additional_cmake_args: Vec<String>,
}

/// A native CUDA release build with every choice left to CMake.
pub open spec fn is_default_profile(p: BuildProfile, backend: BuildBackend) -> bool {
    &&& p.backend == backend
    &&& p.configuration == BuildConfiguration::Release
    &&& p.generator is None
    &&& p.parallel_jobs is None
    &&& p.native_optimizations
    &&& p.cuda_architectures is None
    &&& p.additional_cmake_args@.len() == 0
}

impl Default for BuildProfile {
    fn default() -> (p: Self)
        ensures
            is_default_profile(p, BuildBackend::Cuda),
    {
        BuildProfile {
            backend: BuildBackend::Cuda,
            configuration: BuildConfiguration::Release,
            generator: None,
            parallel_jobs: None,
            native_optimizations: true,
            cuda_architectures: None,
            additional_cmake_args: Vec::new(),
        }
    }
}

impl BuildProfile {
    pub fn cpu() -> (p: Self)
        ensures
            is_default_profile(p, BuildBackend::Cpu),
    {
        BuildProfile { backend: BuildBackend::Cpu, ..Self::default() }
    }
}

/// The generator as text, when one is set.
pub open spec fn generator_text(p: BuildProfile) -> Option<Seq<char>> {
    opt_text(p.generator)
}

} // verus!
