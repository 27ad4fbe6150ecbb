//! The decisions of a build: which tools it needs, when to reconfigure, how CMake's failures read
//! to the user, and the one-build-at-a-time slot.
use vstd::prelude::*;

use crate::build::profile::{BuildBackend, BuildProfile};
use crate::build::toolchain::{all_found, tool_index, ToolId, ToolRequirement, ToolStatus, Toolchain};
use crate::error::{kept_details, opt_text, AppError, AppResult, ErrorCode};
use crate::run_slot::{fresh_run_id, run_cancelled, slot_after_cancel, slot_after_finish, ActiveRun};
use crate::process::runner::{
    diagnostics_spec, exit_code_string, exit_code_text, CommandOutput,
};
use crate::text::{
    chars_of, concat_text, contains, contains_any, contains_exec, is_blank, lit, to_lowercase,
    trim, unicode_lowercase,
};

verus! {

/// What the frontend asks to build.
#[derive(Debug, Clone)]
pub struct BuildRequest {
    pub source_id: String,
    pub profile: BuildProfile,
    /// Deletes the build tree before configuring. Slow, but resolves a corrupt cache.
    pub clean: bool,
}

/// Fills in the global job count where the profile leaves it to CMake.
pub fn apply_build_defaults(profile: BuildProfile, parallel_jobs: Option<u32>) -> (p: BuildProfile)
    ensures
        p.parallel_jobs == if profile.parallel_jobs is Some {
            profile.parallel_jobs
        } else {
            parallel_jobs
        },
        p.backend == profile.backend,
        p.configuration == profile.configuration,
        p.generator == profile.generator,
        p.native_optimizations == profile.native_optimizations,
        p.cuda_architectures == profile.cuda_architectures,
        p.additional_cmake_args == profile.additional_cmake_args,
{
    let mut profile = profile;
    if profile.parallel_jobs.is_none() {
        profile.parallel_jobs = parallel_jobs;
    }
    profile
}

// ---------------------------------------------------------------------------------------------
// Reading CMake's failures
// ---------------------------------------------------------------------------------------------

/// What a failed CMake run is diagnosed as.
#[derive(Debug, Clone, Copy, PartialEq, Eq, Structural)]
pub enum CmakeDiagnosis {
    Cancelled,
    CudaToolsetMissing,
    NvccMissing,
    CxxCompilerMissing,
    GeneratorMismatch,
    OutOfMemory,
    NoGpuArchitecture,
    Unrecognised,
}

/// The diagnosis of lower-cased CMake output. A terminated job surfaces as an abnormal exit
/// rather than as a compiler error, so that is looked at first.
pub open spec fn cmake_diagnosis(exit_code: Option<i32>, lowered: Seq<char>) -> CmakeDiagnosis {
    if exit_code is None || (exit_code == Some(1i32) && trim(lowered).len() == 0) {
        CmakeDiagnosis::Cancelled
    } else if contains(lowered, "no cuda toolset found"@) || contains(lowered, "cannot find cuda"@)
        || contains(lowered, "could not find cudatoolkit"@) {
        CmakeDiagnosis::CudaToolsetMissing
    } else if contains(lowered, "no cmake_cuda_compiler could be found"@) || (contains(
        lowered,
        "nvcc"@,
    ) && contains(lowered, "not found"@)) {
        CmakeDiagnosis::NvccMissing
    } else if contains(lowered, "no cmake_cxx_compiler could be found"@) || (contains(
        lowered,
        "cl.exe"@,
    ) && contains(lowered, "not found"@)) {
        CmakeDiagnosis::CxxCompilerMissing
    } else if contains(lowered, "generator"@) && contains(lowered, "does not match"@) {
        CmakeDiagnosis::GeneratorMismatch
    } else if contains(lowered, "out of memory"@) || contains(lowered, "c1060"@) || contains(
        lowered,
        "virtual memory"@,
    ) {
        CmakeDiagnosis::OutOfMemory
    } else if contains(lowered, "nvcc warning : cannot find valid gpu"@) {
        CmakeDiagnosis::NoGpuArchitecture
    } else {
        CmakeDiagnosis::Unrecognised
    }
}

pub open spec fn cmake_failure_code(requested: ErrorCode, d: CmakeDiagnosis) -> ErrorCode {
    match d {
        CmakeDiagnosis::Cancelled => ErrorCode::BuildCancelled,
        _ => requested,
    }
}

pub open spec fn cmake_failure_message(
    d: CmakeDiagnosis,
    fallback: Seq<char>,
    exit_code: Option<i32>,
) -> Seq<char> {
    match d {
        CmakeDiagnosis::Cancelled => "The build was cancelled."@,
        CmakeDiagnosis::CudaToolsetMissing =>
            "CUDA support was requested but the CUDA toolset was not found."@,
        CmakeDiagnosis::NvccMissing => "The CUDA compiler (nvcc) could not be found."@,
        CmakeDiagnosis::CxxCompilerMissing => "No C++ compiler was found."@,
        CmakeDiagnosis::GeneratorMismatch =>
            "The existing build directory was made with a different generator."@,
        CmakeDiagnosis::OutOfMemory => "The compiler ran out of memory."@,
        CmakeDiagnosis::NoGpuArchitecture => "nvcc could not detect a GPU architecture."@,
        CmakeDiagnosis::Unrecognised => fallback + " CMake exited with code "@ + exit_code_text(
            exit_code,
        ) + "."@,
    }
}

pub open spec fn cmake_failure_hint(d: CmakeDiagnosis) -> Option<Seq<char>> {
    match d {
        CmakeDiagnosis::Cancelled => None,
        CmakeDiagnosis::CudaToolsetMissing => Some(
            "Install the CUDA Toolkit. On Windows include Visual Studio integration; on Linux use a supported host compiler."@,
        ),
        CmakeDiagnosis::NvccMissing => Some(
            "Install the CUDA Toolkit, or set CMAKE_CUDA_COMPILER in additional arguments."@,
        ),
        CmakeDiagnosis::CxxCompilerMissing => Some(
            "Install a C++ compiler: Apple Command Line Tools on macOS, build-essential on Ubuntu, or Desktop development with C++ in Visual Studio on Windows."@,
        ),
        CmakeDiagnosis::GeneratorMismatch => Some("Use Clean build to recreate it."@),
        CmakeDiagnosis::OutOfMemory => Some(
            "Lower the parallel job count in Settings and try again."@,
        ),
        CmakeDiagnosis::NoGpuArchitecture => Some(
            "Set CUDA architectures explicitly, or turn off native optimizations."@,
        ),
        CmakeDiagnosis::Unrecognised => Some(
            "The full output is below; the first error line is usually the real cause."@,
        ),
    }
}

/// The error a failed CMake run is reported as, given its lower-cased output.
pub open spec fn cmake_failure_spec(
    requested: ErrorCode,
    fallback: Seq<char>,
    exit_code: Option<i32>,
    diagnostics: Seq<char>,
    lowered: Seq<char>,
    e: AppError,
) -> bool {
    let d = cmake_diagnosis(exit_code, lowered);
    &&& e.code == cmake_failure_code(requested, d)
    &&& e.message@ == cmake_failure_message(d, fallback, exit_code)
    &&& opt_text(e.hint) == cmake_failure_hint(d)
    &&& opt_text(e.details) == kept_details(None, diagnostics)
}

fn diagnose(exit_code: Option<i32>, lowered: &str) -> (d: CmakeDiagnosis)
    ensures
        d == cmake_diagnosis(exit_code, lowered@),
{
    let text = chars_of(lowered);
    let t = text.as_slice();
    if exit_code.is_none() || (exit_code == Some(1i32) && is_blank(t)) {
        CmakeDiagnosis::Cancelled
    } else if contains_any(
        t,
        &["no cuda toolset found", "cannot find cuda", "could not find cudatoolkit"],
    ) {
        CmakeDiagnosis::CudaToolsetMissing
    } else if contains_exec(t, lit("no cmake_cuda_compiler could be found").as_slice()) || (
    contains_exec(t, lit("nvcc").as_slice()) && contains_exec(t, lit("not found").as_slice())) {
        CmakeDiagnosis::NvccMissing
    } else if contains_exec(t, lit("no cmake_cxx_compiler could be found").as_slice()) || (
    contains_exec(t, lit("cl.exe").as_slice()) && contains_exec(t, lit("not found").as_slice())) {
        CmakeDiagnosis::CxxCompilerMissing
    } else if contains_exec(t, lit("generator").as_slice()) && contains_exec(
        t,
        lit("does not match").as_slice(),
    ) {
        CmakeDiagnosis::GeneratorMismatch
    } else if contains_any(t, &["out of memory", "c1060", "virtual memory"]) {
        CmakeDiagnosis::OutOfMemory
    } else if contains_exec(t, lit("nvcc warning : cannot find valid gpu").as_slice()) {
        CmakeDiagnosis::NoGpuArchitecture
    } else {
        CmakeDiagnosis::Unrecognised
    }
}

/// Turns lower-cased CMake or compiler output into a specific, actionable error. The raw log is
/// always attached unless blank; the message only ever adds a diagnosis on top of it.
pub fn classify_lowered_cmake_failure(
    code: ErrorCode,
    fallback: &str,
    exit_code: Option<i32>,
    diagnostics: &str,
    lowered: &str,
) -> (e: AppError)
    ensures
        cmake_failure_spec(code, fallback@, exit_code, diagnostics@, lowered@, e),
{
    let d = diagnose(exit_code, lowered);
    let error = match d {
        CmakeDiagnosis::Cancelled => AppError::new(
            ErrorCode::BuildCancelled,
            "The build was cancelled.",
        ),
        CmakeDiagnosis::CudaToolsetMissing => AppError::new(
            code,
            "CUDA support was requested but the CUDA toolset was not found.",
        ).with_hint(
            "Install the CUDA Toolkit. On Windows include Visual Studio integration; on Linux use a supported host compiler.",
        ),
        CmakeDiagnosis::NvccMissing => AppError::new(
            code,
            "The CUDA compiler (nvcc) could not be found.",
        ).with_hint(
            "Install the CUDA Toolkit, or set CMAKE_CUDA_COMPILER in additional arguments.",
        ),
        CmakeDiagnosis::CxxCompilerMissing => AppError::new(
            code,
            "No C++ compiler was found.",
        ).with_hint(
            "Install a C++ compiler: Apple Command Line Tools on macOS, build-essential on Ubuntu, or Desktop development with C++ in Visual Studio on Windows.",
        ),
        CmakeDiagnosis::GeneratorMismatch => AppError::new(
            code,
            "The existing build directory was made with a different generator.",
        ).with_hint("Use Clean build to recreate it."),
        CmakeDiagnosis::OutOfMemory => AppError::new(
            code,
            "The compiler ran out of memory.",
        ).with_hint("Lower the parallel job count in Settings and try again."),
        CmakeDiagnosis::NoGpuArchitecture => AppError::new(
            code,
            "nvcc could not detect a GPU architecture.",
        ).with_hint("Set CUDA architectures explicitly, or turn off native optimizations."),
        CmakeDiagnosis::Unrecognised => {
            let exit = exit_code_string(exit_code);
            let message = concat_text(
                concat_text(
                    concat_text(fallback, " CMake exited with code ").as_str(),
                    exit.as_str(),
                ).as_str(),
                ".",
            );
            AppError::new(code, message.as_str()).with_hint(
                "The full output is below; the first error line is usually the real cause.",
            )
        },
    };
    error.with_details(diagnostics)
}

/// Classifies a failed CMake run from its captured output.
pub fn classify_cmake_failure(code: ErrorCode, fallback: &str, output: &CommandOutput) -> (e:
    AppError)
    ensures
        ({
            let diagnostics = diagnostics_spec(output.stdout@, output.stderr@);
            cmake_failure_spec(
                code,
                fallback@,
                output.exit_code,
                diagnostics,
                unicode_lowercase(diagnostics),
                e,
            )
        }),
{
    let diagnostics = output.diagnostics();
    let lowered = to_lowercase(diagnostics.as_str());
    classify_lowered_cmake_failure(
        code,
        fallback,
        output.exit_code,
        diagnostics.as_str(),
        lowered.as_str(),
    )
}

/// The two CMake steps of a build.
#[derive(Debug, Clone, Copy, PartialEq, Eq, Structural)]
pub enum BuildStep {
    Configure,
    Compile,
}

pub open spec fn step_code(step: BuildStep) -> ErrorCode {
    match step {
        BuildStep::Configure => ErrorCode::ConfigureFailed,
        BuildStep::Compile => ErrorCode::BuildFailed,
    }
}

pub open spec fn step_fallback(step: BuildStep) -> Seq<char> {
    match step {
        BuildStep::Configure => "CMake could not configure the build."@,
        BuildStep::Compile => "The build failed to compile."@,
    }
}

/// What one CMake step's outcome means for the build: nothing when it succeeded; cancellation
/// when the build's process group had been terminated; else the classified failure.
pub fn step_failure(step: BuildStep, terminated: bool, output: &CommandOutput) -> (r: Option<
    AppError,
>)
    ensures
        output.exit_code == Some(0i32) <==> r is None,
        r matches Some(e) ==> ({
            let diagnostics = diagnostics_spec(output.stdout@, output.stderr@);
            if terminated {
                &&& e.code == ErrorCode::BuildCancelled
                &&& e.message@ == "The build was cancelled."@
                &&& e.hint is None
                &&& opt_text(e.details) == kept_details(None, diagnostics)
            } else {
                cmake_failure_spec(
                    step_code(step),
                    step_fallback(step),
                    output.exit_code,
                    diagnostics,
                    unicode_lowercase(diagnostics),
                    e,
                )
            }
        }),
{
    if output.succeeded() {
        return None;
    }
    if terminated {
        let diagnostics = output.diagnostics();
        return Some(
            AppError::new(ErrorCode::BuildCancelled, "The build was cancelled.").with_details(
                diagnostics.as_str(),
            ),
        );
    }
    match step {
        BuildStep::Configure => Some(
            classify_cmake_failure(
                ErrorCode::ConfigureFailed,
                "CMake could not configure the build.",
                output,
            ),
        ),
        BuildStep::Compile => Some(
            classify_cmake_failure(ErrorCode::BuildFailed, "The build failed to compile.", output),
        ),
    }
}

// ---------------------------------------------------------------------------------------------
// Deciding what a build needs
// ---------------------------------------------------------------------------------------------

/// Whether the tool is listed and found.
pub open spec fn tool_found(tools: Seq<ToolStatus>, id: ToolId) -> bool {
    let k = tool_index(tools, id, 0);
    k < tools.len() && tools[k].found
}

/// Whether the tool is listed and missing.
pub open spec fn tool_missing(tools: Seq<ToolStatus>, id: ToolId) -> bool {
    let k = tool_index(tools, id, 0);
    k < tools.len() && !tools[k].found
}

/// With no generator chosen on a platform other than Windows, a machine that has Ninja but no
/// Make builds with Ninja; otherwise the profile is left as it is.
pub fn prefer_available_generator(profile: BuildProfile, toolchain: &Toolchain, windows: bool) -> (p:
    BuildProfile)
    ensures
        if !windows && profile.generator is None && tool_missing(toolchain.tools@, ToolId::Make)
            && tool_found(toolchain.tools@, ToolId::Ninja) {
            opt_text(p.generator) == Some("Ninja"@)
        } else {
            p.generator == profile.generator
        },
        p.backend == profile.backend,
        p.configuration == profile.configuration,
        p.parallel_jobs == profile.parallel_jobs,
        p.native_optimizations == profile.native_optimizations,
        p.cuda_architectures == profile.cuda_architectures,
        p.additional_cmake_args == profile.additional_cmake_args,
{
    let mut profile = profile;
    if !windows && profile.generator.is_none() {
        let make_missing = match toolchain.tool(ToolId::Make) {
            Some(tool) => !tool.found,
            None => false,
        };
        let ninja_found = match toolchain.tool(ToolId::Ninja) {
            Some(tool) => tool.found,
            None => false,
        };
        if make_missing && ninja_found {
            profile.generator = Some("Ninja".to_string());
        }
    }
    profile
}

/// Refuses a backend the platform does not offer, or one whose required tools are missing.
pub fn check_build_tools(
    toolchain: &Toolchain,
    supported: &[BuildBackend],
    backend: BuildBackend,
) -> (r: AppResult<()>)
    ensures
        r is Ok <==> (supported@.contains(backend) && all_found(
            toolchain.tools@,
            ToolRequirement::Required,
        ) && (backend == BuildBackend::Cuda ==> all_found(
            toolchain.tools@,
            ToolRequirement::RequiredForCuda,
        ))),
        match r {
            Ok(()) => true,
            Err(e) => {
                &&& e.code == ErrorCode::ConfigureFailed
                &&& e.details is None
                &&& if !supported@.contains(backend) {
                    e.message@ == "This backend is not supported on this platform."@
                        && e.hint is None
                } else {
                    &&& e.message@ == "The selected backend is missing required build tools."@
                    &&& opt_text(e.hint) == Some(
                        "Open Build and follow the toolchain instructions, then re-detect."@,
                    )
                }
            },
        },
{
    let mut listed = false;
    let mut i: usize = 0;
    while i < supported.len()
        invariant
            i <= supported@.len(),
            listed == exists|j: int| 0 <= j < i && supported@[j] == backend,
        decreases supported.len() - i,
    {
        if supported[i] == backend {
            listed = true;
        }
        i += 1;
    }
    if !listed {
        return Err(
            AppError::new(
                ErrorCode::ConfigureFailed,
                "This backend is not supported on this platform.",
            ),
        );
    }
    let cuda = match backend {
        BuildBackend::Cuda => true,
        BuildBackend::Cpu => false,
    };
    if !toolchain.can_build_cpu() || (cuda && !toolchain.can_build_cuda()) {
        return Err(
            AppError::new(
                ErrorCode::ConfigureFailed,
                "The selected backend is missing required build tools.",
            ).with_hint("Open Build and follow the toolchain instructions, then re-detect."),
        );
    }
    Ok(())
}

/// A cache made by a different generator cannot be reused, and CMake's own error for this is
/// opaque: the change is detected when both the cached and the requested generator are known.
pub fn generator_changed(cached: &Option<String>, requested: &Option<String>) -> (r: bool)
    ensures
        r == match (opt_text(*cached), opt_text(*requested)) {
            (Some(c), Some(q)) => c != q,
            _ => false,
        },
{
    match (cached, requested) {
        (Some(c), Some(q)) => {
            let a = chars_of(c.as_str());
            let b = chars_of(q.as_str());
            !crate::text::chars_equal(a.as_slice(), b.as_slice())
        },
        _ => false,
    }
}

/// Whether the configure step runs: on a clean build, a changed generator, or a tree that was
/// never configured.
pub fn needs_reconfigure(clean: bool, generator_changed: bool, configured: bool) -> (r: bool)
    ensures
        r == (clean || generator_changed || !configured),
{
    clean || generator_changed || !configured
}

/// The generator a runtime records: the chosen one, or the words for CMake's own choice.
pub fn recorded_generator(generator: &Option<String>) -> (r: String)
    ensures
        r@ == match opt_text(*generator) {
            Some(g) => g,
            None => "CMake default"@,
        },
{
    match generator {
        Some(g) => g.clone(),
        None => "CMake default".to_string(),
    }
}

// ---------------------------------------------------------------------------------------------
// One build at a time
// ---------------------------------------------------------------------------------------------

/// The one build allowed at a time. Cancelling marks it but keeps the slot until the task that
/// holds it finishes, so an old task can never clear a newer build.
#[derive(Debug)]
pub struct BuildSupervisor {
    pub active: Option<ActiveRun>,
}

/// Proof of holding the build slot.
#[derive(Debug, Clone, Copy, PartialEq, Eq, Structural)]
pub struct BuildPermit {
    pub id: u128,
}

impl Default for BuildSupervisor {
    fn default() -> (s: Self)
        ensures
            s.active is None,
    {
        BuildSupervisor { active: None }
    }
}

impl BuildSupervisor {
    /// Takes the slot, or refuses while another build holds it.
    pub fn begin(&mut self) -> (r: AppResult<BuildPermit>)
        ensures
            match r {
                Ok(p) => old(self).active is None && final(self).active == Some(
                    ActiveRun { id: p.id, cancelled: false },
                ),
                Err(e) => {
                    &&& old(self).active is Some
                    &&& final(self).active == old(self).active
                    &&& e.code == ErrorCode::BuildInProgress
                    &&& e.message@ == "A build is already running."@
                    &&& opt_text(e.hint) == Some("Wait for it to finish, or cancel it first."@)
                    &&& e.details is None
                },
            },
    {
        if self.active.is_some() {
            return Err(
                AppError::new(ErrorCode::BuildInProgress, "A build is already running.").with_hint(
                    "Wait for it to finish, or cancel it first.",
                ),
            );
        }
        let id = fresh_run_id();
        self.active = Some(ActiveRun { id, cancelled: false });
        Ok(BuildPermit { id })
    }

    /// Marks the running build as cancelled; `false` when nothing was running.
    pub fn cancel(&mut self) -> (r: bool)
        ensures
            r == old(self).active is Some,
            final(self).active == slot_after_cancel(old(self).active),
    {
        match self.active {
            Some(a) => {
                self.active = Some(ActiveRun { id: a.id, cancelled: true });
                true
            },
            None => false,
        }
    }

    pub fn is_running(&self) -> (r: bool)
        ensures
            r == self.active is Some,
    {
        self.active.is_some()
    }

    /// Releases the slot, if `permit` still holds it.
    pub fn finish(&mut self, permit: BuildPermit)
        ensures
            final(self).active == slot_after_finish(old(self).active, permit.id),
    {
        if let Some(a) = self.active {
            if a.id == permit.id {
                self.active = None;
            }
        }
    }

    /// Fails once the build that `permit` holds has been cancelled.
    pub fn ensure_not_cancelled(&self, permit: BuildPermit) -> (r: AppResult<()>)
        ensures
            r is Err <==> run_cancelled(self.active, permit.id),
            r matches Err(e) ==> e.code == ErrorCode::BuildCancelled && e.message@
                == "The build was cancelled."@ && e.hint is None && e.details is None,
    {
        match self.active {
            Some(a) => if a.id == permit.id && a.cancelled {
                Err(AppError::new(ErrorCode::BuildCancelled, "The build was cancelled."))
            } else {
                Ok(())
            },
            None => Ok(()),
        }
    }
}

} // verus!
