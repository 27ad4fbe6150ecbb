//! The CMake command lines a build profile turns into.
//!
//! Planning is a pure function of the profile, which is what makes the argument construction
//! checkable without CMake, a source tree or a GPU.
use vstd::prelude::*;

use crate::build::profile::{configuration_cmake_name, generator_text, BuildBackend, BuildProfile};
use crate::build::toolchain::{is_multi_config, multi_config_spec};
use crate::config::paths::{join_path, joined, plain_component, relative_part};
use crate::text::{chars_of, concat_text, decimal_string, decimal_text, is_blank, lemma_texts_push, string_of, texts, trim, trimmed};

verus! {

/// The llama.cpp CMake target that produces the server binary.
pub const SERVER_TARGET: &'static str = "llama-server";

/// Everything needed to run a build.
#[derive(Debug, Clone, PartialEq, Eq)]
pub struct BuildPlan {
    pub build_directory: String,
    pub configure_args: Vec<String>,
    pub build_args: Vec<String>,
    pub multi_config: bool,
}

/// Whether the build takes its configuration at build time: decided by the generator, or, with
/// none set, by whether the platform's default generator is a multi-config one.
pub open spec fn plan_multi_config(p: BuildProfile, default_multi_config: bool) -> bool {
    match generator_text(p) {
        Some(g) => multi_config_spec(g),
        None => default_multi_config,
    }
}

/// `-D<key>=<value>`.
pub open spec fn definition_arg(key: Seq<char>, value: Seq<char>) -> Seq<char> {
    "-D"@ + key + "="@ + value
}

pub open spec fn cuda_switch(backend: BuildBackend) -> Seq<char> {
    match backend {
        BuildBackend::Cpu => "OFF"@,
        BuildBackend::Cuda => "ON"@,
    }
}

/// `-G <generator>` for a generator that is set and not blank.
pub open spec fn generator_args(p: BuildProfile) -> Seq<Seq<char>> {
    match generator_text(p) {
        Some(g) => if trim(g).len() == 0 {
            seq![]
        } else {
            seq!["-G"@, g]
        },
        None => seq![],
    }
}

/// The CUDA architectures, trimmed, when set and not blank.
pub open spec fn cuda_architecture_args(p: BuildProfile) -> Seq<Seq<char>> {
    match p.cuda_architectures {
        Some(a) => if trim(a@).len() == 0 {
            seq![]
        } else {
            seq!["-DCMAKE_CUDA_ARCHITECTURES="@ + trim(a@)]
        },
        None => seq![],
    }
}

/// The extra arguments, each trimmed, with the blank ones left out.
pub open spec fn extra_args(ts: Seq<Seq<char>>) -> Seq<Seq<char>>
    decreases ts.len(),
{
    if ts.len() == 0 {
        seq![]
    } else {
        let rest = extra_args(ts.drop_last());
        if trim(ts.last()).len() == 0 {
            rest
        } else {
            rest.push(trim(ts.last()))
        }
    }
}

pub open spec fn fixed_configure_args() -> Seq<Seq<char>> {
    seq![
        "-DBUILD_SHARED_LIBS=OFF"@,
        "-DCMAKE_BUILD_RPATH_USE_ORIGIN=ON"@,
        "-DLLAMA_BUILD_SERVER=ON"@,
        "-DLLAMA_BUILD_TESTS=OFF"@,
        "-DLLAMA_BUILD_EXAMPLES=OFF"@,
    ]
}

pub open spec fn configure_args_spec(
    source: Seq<char>,
    build: Seq<char>,
    p: BuildProfile,
    multi_config: bool,
) -> Seq<Seq<char>> {
    seq!["-S"@, source, "-B"@, build] + generator_args(p) + build_type_args(p, multi_config)
        + definition_args(p) + native_args(p) + cuda_architecture_args(p) + fixed_configure_args()
        + extra_args(texts(p.additional_cmake_args@))
}

pub open spec fn build_args_spec(build: Seq<char>, p: BuildProfile, multi_config: bool) -> Seq<
    Seq<char>,
> {
    seq!["--build"@, build] + (if multi_config {
        seq!["--config"@, configuration_cmake_name(p.configuration)]
    } else {
        seq![]
    }) + seq!["--target"@, SERVER_TARGET@, "--parallel"@] + match p.parallel_jobs {
        Some(j) => if j > 0 {
            seq![decimal_text(j as nat)]
        } else {
            seq![]
        },
        None => seq![],
    }
}

/// The plan for `profile`, with the platform's default generator kind given.
pub open spec fn plan_spec(
    source: Seq<char>,
    build: Seq<char>,
    p: BuildProfile,
    default_multi_config: bool,
    plan: BuildPlan,
) -> bool {
    let mc = plan_multi_config(p, default_multi_config);
    &&& plan.build_directory@ == build
    &&& plan.multi_config == mc
    &&& texts(plan.configure_args@) == configure_args_spec(source, build, p, mc)
    &&& texts(plan.build_args@) == build_args_spec(build, p, mc)
}

fn push_text(v: &mut Vec<String>, s: String)
    ensures
        texts(final(v)@) == texts(old(v)@).push(s@),
{
    proof {
        lemma_texts_push(old(v)@, s);
    }
    v.push(s);
}

fn push_texts(v: &mut Vec<String>, w: Vec<String>)
    ensures
        texts(final(v)@) == texts(old(v)@) + texts(w@),
{
    let ghost start = texts(v@);
    let mut i: usize = 0;
    while i < w.len()
        invariant
            i <= w@.len(),
            texts(v@) == start + texts(w@).take(i as int),
        decreases w.len() - i,
    {
        let s = w[i].clone();
        push_text(v, s);
        proof {
            assert(texts(w@).take(i + 1) =~= texts(w@).take(i as int).push(w@[i as int]@));
            assert(start + texts(w@).take(i + 1) =~= (start + texts(w@).take(i as int)).push(
                w@[i as int]@,
            ));
        }
        i += 1;
    }
    assert(texts(w@).take(w@.len() as int) =~= texts(w@));
}

/// The trimmed, non-blank extra arguments.
fn extra_args_exec(args: &Vec<String>) -> (r: Vec<String>)
    ensures
        texts(r@) == extra_args(texts(args@)),
{
    let mut out: Vec<String> = Vec::new();
    let mut i: usize = 0;
    while i < args.len()
        invariant
            i <= args@.len(),
            texts(out@) == extra_args(texts(args@).take(i as int)),
        decreases args.len() - i,
    {
        let t = trimmed(chars_of(args[i].as_str()).as_slice());
        proof {
            let ts = texts(args@).take(i + 1);
            assert(ts.drop_last() =~= texts(args@).take(i as int));
            assert(ts.last() == args@[i as int]@);
        }
        if t.len() > 0 {
            push_text(&mut out, string_of(t.as_slice()));
        }
        i += 1;
    }
    assert(texts(args@).take(args@.len() as int) =~= texts(args@));
    out
}

pub open spec fn build_type_args(p: BuildProfile, multi_config: bool) -> Seq<Seq<char>> {
    if multi_config {
        seq![]
    } else {
        seq!["-DCMAKE_BUILD_TYPE="@ + configuration_cmake_name(p.configuration)]
    }
}

pub open spec fn definition_args(p: BuildProfile) -> Seq<Seq<char>> {
    seq![definition_arg("GGML_CUDA"@, cuda_switch(p.backend)), definition_arg("GGML_METAL"@, "OFF"@)]
}

pub open spec fn native_args(p: BuildProfile) -> Seq<Seq<char>> {
    if p.native_optimizations {
        seq![]
    } else {
        seq!["-DGGML_NATIVE=OFF"@]
    }
}

fn push_head(v: &mut Vec<String>, source: &str, build: &str)
    ensures
        texts(final(v)@) == texts(old(v)@) + seq!["-S"@, source@, "-B"@, build@],
{
    let ghost start = texts(v@);
    push_text(v, "-S".to_string());
    push_text(v, source.to_string());
    push_text(v, "-B".to_string());
    push_text(v, build.to_string());
    assert(texts(v@) =~= start + seq!["-S"@, source@, "-B"@, build@]);
}

fn push_generator(v: &mut Vec<String>, profile: &BuildProfile)
    ensures
        texts(final(v)@) == texts(old(v)@) + generator_args(*profile),
{
    let ghost start = texts(v@);
    if let Some(g) = &profile.generator {
        if !is_blank(chars_of(g.as_str()).as_slice()) {
            push_text(v, "-G".to_string());
            push_text(v, g.clone());
        }
    }
    assert(texts(v@) =~= start + generator_args(*profile));
}

fn push_build_type(v: &mut Vec<String>, profile: &BuildProfile, multi_config: bool)
    ensures
        texts(final(v)@) == texts(old(v)@) + build_type_args(*profile, multi_config),
{
    let ghost start = texts(v@);
    if !multi_config {
        push_text(v, concat_text("-DCMAKE_BUILD_TYPE=", profile.configuration.cmake_name()));
    }
    assert(texts(v@) =~= start + build_type_args(*profile, multi_config));
}

fn definition_text(key: &str, value: &str) -> (r: String)
    ensures
        r@ == definition_arg(key@, value@),
{
    concat_text(concat_text(concat_text("-D", key).as_str(), "=").as_str(), value)
}

fn push_definitions(v: &mut Vec<String>, profile: &BuildProfile)
    ensures
        texts(final(v)@) == texts(old(v)@) + definition_args(*profile),
{
    let ghost start = texts(v@);
    let definitions = profile.backend.definitions();
    push_text(v, definition_text(definitions[0].0, definitions[0].1));
    push_text(v, definition_text(definitions[1].0, definitions[1].1));
    assert(texts(v@) =~= start + definition_args(*profile));
}

fn push_native(v: &mut Vec<String>, profile: &BuildProfile)
    ensures
        texts(final(v)@) == texts(old(v)@) + native_args(*profile),
{
    let ghost start = texts(v@);
    if !profile.native_optimizations {
        push_text(v, "-DGGML_NATIVE=OFF".to_string());
    }
    assert(texts(v@) =~= start + native_args(*profile));
}

fn push_cuda_architectures(v: &mut Vec<String>, profile: &BuildProfile)
    ensures
        texts(final(v)@) == texts(old(v)@) + cuda_architecture_args(*profile),
{
    let ghost start = texts(v@);
    if let Some(a) = &profile.cuda_architectures {
        let t = trimmed(chars_of(a.as_str()).as_slice());
        if t.len() > 0 {
            let text = string_of(t.as_slice());
            push_text(v, concat_text("-DCMAKE_CUDA_ARCHITECTURES=", text.as_str()));
        }
    }
    assert(texts(v@) =~= start + cuda_architecture_args(*profile));
}

fn push_fixed(v: &mut Vec<String>)
    ensures
        texts(final(v)@) == texts(old(v)@) + fixed_configure_args(),
{
    let ghost start = texts(v@);
    push_text(v, "-DBUILD_SHARED_LIBS=OFF".to_string());
    push_text(v, "-DCMAKE_BUILD_RPATH_USE_ORIGIN=ON".to_string());
    push_text(v, "-DLLAMA_BUILD_SERVER=ON".to_string());
    push_text(v, "-DLLAMA_BUILD_TESTS=OFF".to_string());
    push_text(v, "-DLLAMA_BUILD_EXAMPLES=OFF".to_string());
    assert(texts(v@) =~= start + fixed_configure_args());
}

fn configure_args_exec(source: &str, build: &str, profile: &BuildProfile, multi_config: bool) -> (r:
    Vec<String>)
    ensures
        texts(r@) == configure_args_spec(source@, build@, *profile, multi_config),
{
    let mut v: Vec<String> = Vec::new();
    push_head(&mut v, source, build);
    push_generator(&mut v, profile);
    push_build_type(&mut v, profile, multi_config);
    push_definitions(&mut v, profile);
    push_native(&mut v, profile);
    push_cuda_architectures(&mut v, profile);
    push_fixed(&mut v);
    let extra = extra_args_exec(&profile.additional_cmake_args);
    push_texts(&mut v, extra);
    proof {
        assert(texts(v@) =~= configure_args_spec(source@, build@, *profile, multi_config));
    }
    v
}

fn build_args_exec(build: &str, profile: &BuildProfile, multi_config: bool) -> (r: Vec<String>)
    ensures
        texts(r@) == build_args_spec(build@, *profile, multi_config),
{
    let mut v: Vec<String> = Vec::new();
    push_text(&mut v, "--build".to_string());
    push_text(&mut v, build.to_string());
    if multi_config {
        push_text(&mut v, "--config".to_string());
        push_text(&mut v, profile.configuration.cmake_name().to_string());
    }
    push_text(&mut v, "--target".to_string());
    push_text(&mut v, SERVER_TARGET.to_string());
    push_text(&mut v, "--parallel".to_string());
    if let Some(jobs) = profile.parallel_jobs {
        if jobs > 0 {
            push_text(&mut v, decimal_string(jobs as u64));
        }
    }
    assert(texts(v@) =~= build_args_spec(build@, *profile, multi_config));
    v
}

/// The decisions of [`plan_build`], with the platform's default generator kind given.
pub fn plan_build_with_default(
    source_directory: &str,
    build_directory: &str,
    profile: &BuildProfile,
    default_multi_config: bool,
) -> (plan: BuildPlan)
    ensures
        plan_spec(source_directory@, build_directory@, *profile, default_multi_config, plan),
{
    let multi_config = match &profile.generator {
        Some(g) => is_multi_config(g.as_str()),
        None => default_multi_config,
    };
    BuildPlan {
        build_directory: build_directory.to_string(),
        configure_args: configure_args_exec(
            source_directory,
            build_directory,
            profile,
            multi_config,
        ),
        build_args: build_args_exec(build_directory, profile, multi_config),
        multi_config,
    }
}


/// Plans a build. With no generator set CMake picks the platform default, which is a Visual
/// Studio generator, and therefore multi-config, on Windows: the one platform whose main path
/// separator is a backslash.
pub fn plan_build(source_directory: &str, build_directory: &str, profile: &BuildProfile) -> (plan:
    BuildPlan)
    ensures
        exists|default_multi_config: bool|
            plan_spec(source_directory@, build_directory@, *profile, default_multi_config, plan),
        profile.generator is Some ==> plan_spec(
            source_directory@,
            build_directory@,
            *profile,
            false,
            plan,
        ),
{
    let windows = crate::config::paths::main_separator() == '\\';
    plan_build_with_default(source_directory, build_directory, profile, windows)
}

/// Where the built binary lands: llama.cpp puts it under `<build>/bin`, and multi-config
/// generators add the configuration below that, searched first.
pub fn artifact_directories(plan: &BuildPlan, configuration: &str) -> (r: Vec<String>)
    ensures
        r@.len() == if plan.multi_config {
            2int
        } else {
            1int
        },
        joined(plan.build_directory@, "bin"@, r@.last()@),
        plan.multi_config && relative_part(configuration@) ==> joined(
            r@[1]@,
            configuration@,
            r@[0]@,
        ),
{
    proof {
        reveal_strlit("bin");
        assert(plain_component("bin"@));
    }
    let bin = join_path(plan.build_directory.as_str(), "bin");
    if plan.multi_config {
        let nested = join_path(bin.as_str(), configuration);
        vec![nested, bin]
    } else {
        vec![bin]
    }
}

} // verus!
