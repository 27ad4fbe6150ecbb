//! What a llama-server binary advertises on its command line, and the registry of options the
//! application knows how to present.
use vstd::prelude::*;

use crate::error::opt_text;
use crate::text::{chars_equal, chars_of, is_blank, string_of, texts, trim, trim_end, trim_end_vec};
use crate::text_map::{keys_sorted, TextMap};

verus! {

pub const CAPABILITIES_SCHEMA_VERSION: u32 = 1;

#[derive(Debug, Clone, Copy, PartialEq, Eq, Structural)]
pub enum LlamaOptionCategory {
    Context,
    Batching,
    Gpu,
    Memory,
    Parallelism,
    Templates,
    Reasoning,
    Speculative,
    Advanced,
}

#[derive(Debug, Clone)]
pub struct LlamaOption {
    /// The preferred long flag, or the first advertised flag when no long spelling exists.
    pub flag: String,
    /// Every spelling advertised by this exact runtime, including the canonical one.
    pub aliases: Vec<String>,
    pub value_hint: Option<String>,
    /// The untouched description reconstructed from the runtime's help text.
    pub description: String,
    /// The upstream help section, retained even when the option is not in the known registry.
    pub section: String,
    pub category: LlamaOptionCategory,
    pub known_key: Option<String>,
    pub display_name: String,
    /// Stable explanatory copy for important concepts; unknown flags have none.
    pub summary: Option<String>,
}

/// An option as plain values.
pub struct OptionModel {
    pub flag: Seq<char>,
    pub aliases: Seq<Seq<char>>,
    pub value_hint: Option<Seq<char>>,
    pub description: Seq<char>,
    pub section: Seq<char>,
    pub category: LlamaOptionCategory,
    pub known_key: Option<Seq<char>>,
    pub display_name: Seq<char>,
    pub summary: Option<Seq<char>>,
}

impl View for LlamaOption {
    type V = OptionModel;

    open spec fn view(&self) -> OptionModel {
        OptionModel {
            flag: self.flag@,
            aliases: texts(self.aliases@),
            value_hint: opt_text(self.value_hint),
            description: self.description@,
            section: self.section@,
            category: self.category,
            known_key: opt_text(self.known_key),
            display_name: self.display_name@,
            summary: opt_text(self.summary),
        }
    }
}

#[derive(Debug, Clone)]
pub struct LlamaDevice {
    pub id: String,
    pub name: String,
    pub backend: Option<String>,
    pub memory_total_mib: Option<u64>,
    pub memory_free_mib: Option<u64>,
    pub raw: String,
}

/// Parsed, runtime-specific description of the command-line surface of llama-server.
#[derive(Debug, Clone)]
pub struct LlamaCapabilities {
    pub schema_version: u32,
    pub version: String,
    pub commit: Option<String>,
    pub options: TextMap<LlamaOption>,
    pub speculative_types: Vec<String>,
    pub devices: Vec<LlamaDevice>,
}

#[derive(Debug, Clone)]
pub struct RuntimeCapabilitySummary {
    pub inspection_id: String,
    pub inspected_at: String,
    pub version: String,
    pub commit: Option<String>,
    pub option_count: usize,
    pub known_option_count: usize,
    pub device_count: usize,
    pub speculative_type_count: usize,
}

#[derive(Debug, Clone)]
pub struct RawCommandOutput {
    pub stdout: String,
    pub stderr: String,
}

#[derive(Debug, Clone)]
pub struct LlamaRawOutputs {
    pub version: RawCommandOutput,
    pub help: RawCommandOutput,
    pub devices: RawCommandOutput,
}

#[derive(Debug, Clone)]
pub struct RuntimeInspection {
    pub capabilities: LlamaCapabilities,
    pub raw: LlamaRawOutputs,
}

/// Both streams, each without trailing whitespace, stdout first, joined by a newline; a blank
/// stream is left out.
pub open spec fn combined_spec(stdout: Seq<char>, stderr: Seq<char>) -> Seq<char> {
    let out_blank = trim(stdout).len() == 0;
    let err_blank = trim(stderr).len() == 0;
    if !out_blank && !err_blank {
        trim_end(stdout) + seq!['\n'] + trim_end(stderr)
    } else if !out_blank {
        trim_end(stdout)
    } else if !err_blank {
        trim_end(stderr)
    } else {
        seq![]
    }
}

impl RawCommandOutput {
    pub fn combined(&self) -> (r: String)
        ensures
            r@ == combined_spec(self.stdout@, self.stderr@),
    {
        let out = chars_of(self.stdout.as_str());
        let err = chars_of(self.stderr.as_str());
        let out_blank = is_blank(out.as_slice());
        let err_blank = is_blank(err.as_slice());
        if !out_blank && !err_blank {
            let mut v = trim_end_vec(out.as_slice());
            v.push('\n');
            let tail = trim_end_vec(err.as_slice());
            crate::text::append_chars(&mut v, tail.as_slice());
            string_of(v.as_slice())
        } else if !out_blank {
            string_of(trim_end_vec(out.as_slice()).as_slice())
        } else if !err_blank {
            string_of(trim_end_vec(err.as_slice()).as_slice())
        } else {
            assert(seq![] =~= combined_spec(self.stdout@, self.stderr@));
            String::new()
        }
    }
}

// ---------------------------------------------------------------------------------------------
// The known-option registry
// ---------------------------------------------------------------------------------------------

/// A concept the profile editors present. It only becomes active when one of its flags is
/// present in the selected binary's help output.
#[derive(Debug, Clone, Copy)]
pub struct KnownOptionDefinition {
    pub key: &'static str,
    pub label: &'static str,
    pub summary: &'static str,
    pub category: LlamaOptionCategory,
    pub flags: &'static [&'static str],
}

/// The registry, in lookup order.
pub open spec fn known_registry() -> Seq<KnownOptionDefinition> {
    seq![
        KnownOptionDefinition {
            key: "contextSize",
            label: "Context size",
            summary: "Maximum context window used by the model.",
            category: LlamaOptionCategory::Context,
            flags: &["-c", "--ctx-size"],
        },
        KnownOptionDefinition {
            key: "batchSize",
            label: "Logical batch size",
            summary: "Maximum number of tokens processed in one logical batch.",
            category: LlamaOptionCategory::Batching,
            flags: &["-b", "--batch-size"],
        },
        KnownOptionDefinition {
            key: "microBatchSize",
            label: "Physical batch size",
            summary: "Maximum number of tokens processed in one physical micro-batch.",
            category: LlamaOptionCategory::Batching,
            flags: &["-ub", "--ubatch-size"],
        },
        KnownOptionDefinition {
            key: "gpuLayers",
            label: "GPU layers",
            summary: "Number of model layers offloaded to accelerator devices.",
            category: LlamaOptionCategory::Gpu,
            flags: &["-ngl", "--gpu-layers", "--n-gpu-layers"],
        },
        KnownOptionDefinition {
            key: "device",
            label: "Devices",
            summary: "Ordered accelerator devices used for model offload.",
            category: LlamaOptionCategory::Gpu,
            flags: &["-dev", "--device"],
        },
        KnownOptionDefinition {
            key: "splitMode",
            label: "Split mode",
            summary: "How model tensors are distributed across multiple devices.",
            category: LlamaOptionCategory::Gpu,
            flags: &["-sm", "--split-mode"],
        },
        KnownOptionDefinition {
            key: "tensorSplit",
            label: "Tensor split",
            summary: "Explicit per-device proportions for tensor placement.",
            category: LlamaOptionCategory::Gpu,
            flags: &["-ts", "--tensor-split"],
        },
        KnownOptionDefinition {
            key: "mainGpu",
            label: "Main GPU",
            summary: "Primary device used by split modes that require one.",
            category: LlamaOptionCategory::Gpu,
            flags: &["-mg", "--main-gpu"],
        },
        KnownOptionDefinition {
            key: "flashAttention",
            label: "Flash attention",
            summary: "Use the runtime's optimized flash-attention implementation.",
            category: LlamaOptionCategory::Gpu,
            flags: &["-fa", "--flash-attn", "--no-flash-attn"],
        },
        KnownOptionDefinition {
            key: "kvCacheTypeK",
            label: "K cache type",
            summary: "Data type used for key tensors in the KV cache.",
            category: LlamaOptionCategory::Memory,
            flags: &["-ctk", "--cache-type-k"],
        },
        KnownOptionDefinition {
            key: "kvCacheTypeV",
            label: "V cache type",
            summary: "Data type used for value tensors in the KV cache.",
            category: LlamaOptionCategory::Memory,
            flags: &["-ctv", "--cache-type-v"],
        },
        KnownOptionDefinition {
            key: "kvCacheOffload",
            label: "KV cache offload",
            summary: "Keep the KV cache on accelerator devices when supported.",
            category: LlamaOptionCategory::Memory,
            flags: &["-kvo", "--kv-offload", "-nkvo", "--no-kv-offload"],
        },
        KnownOptionDefinition {
            key: "kvUnified",
            label: "Unified KV buffer",
            summary: "Share one KV buffer across all server slots.",
            category: LlamaOptionCategory::Memory,
            flags: &["-kvu", "--kv-unified", "-no-kvu", "--no-kv-unified"],
        },
        KnownOptionDefinition {
            key: "swaFull",
            label: "Full SWA cache",
            summary: "Use a full-size cache for sliding-window attention layers.",
            category: LlamaOptionCategory::Memory,
            flags: &["--swa-full"],
        },
        KnownOptionDefinition {
            key: "fit",
            label: "Fit to memory",
            summary: "Ask llama.cpp to adjust parameters to available device memory.",
            category: LlamaOptionCategory::Memory,
            flags: &["-fit", "--fit", "-fitp", "--fit-print", "-fitt", "--fit-target", "-fitc", "--fit-ctx"],
        },
        KnownOptionDefinition {
            key: "parallel",
            label: "Parallel slots",
            summary: "Number of requests the server may process in parallel.",
            category: LlamaOptionCategory::Parallelism,
            flags: &["-np", "--parallel"],
        },
        KnownOptionDefinition {
            key: "jinja",
            label: "Jinja templates",
            summary: "Enable Jinja chat templates and tool-aware template features.",
            category: LlamaOptionCategory::Templates,
            flags: &["--jinja", "--no-jinja"],
        },
        KnownOptionDefinition {
            key: "reasoning",
            label: "Reasoning",
            summary: "Control extraction and presentation of model reasoning content.",
            category: LlamaOptionCategory::Reasoning,
            flags: &["-rea", "--reasoning", "--reasoning-format", "--reasoning-effort", "--reasoning-budget", "--reasoning-budget-message", "--reasoning-preserve"],
        },
        KnownOptionDefinition {
            key: "speculativeType",
            label: "Speculative decoding",
            summary: "Select one or more speculative decoding strategies advertised by this runtime.",
            category: LlamaOptionCategory::Speculative,
            flags: &["--spec-type"],
        },
        KnownOptionDefinition {
            key: "draftModel",
            label: "Draft model",
            summary: "Model used to draft candidate tokens for speculative decoding.",
            category: LlamaOptionCategory::Speculative,
            flags: &["--spec-draft-model", "-md", "--model-draft"],
        },
        KnownOptionDefinition {
            key: "draftDevice",
            label: "Draft devices",
            summary: "Devices used to offload the speculative draft model.",
            category: LlamaOptionCategory::Speculative,
            flags: &["--spec-draft-device", "-devd", "--device-draft"],
        },
        KnownOptionDefinition {
            key: "draftGpuLayers",
            label: "Draft GPU layers",
            summary: "Number of draft-model layers offloaded to accelerator devices.",
            category: LlamaOptionCategory::Speculative,
            flags: &["--spec-draft-gpu-layers", "--spec-draft-ngl", "-ngld", "--gpu-layers-draft", "--n-gpu-layers-draft"],
        },
        KnownOptionDefinition {
            key: "draftKvCacheTypeK",
            label: "Draft K cache type",
            summary: "Data type used for key tensors in the draft model's KV cache.",
            category: LlamaOptionCategory::Speculative,
            flags: &["--spec-draft-type-k", "-ctkd", "--cache-type-k-draft"],
        },
        KnownOptionDefinition {
            key: "draftKvCacheTypeV",
            label: "Draft V cache type",
            summary: "Data type used for value tensors in the draft model's KV cache.",
            category: LlamaOptionCategory::Speculative,
            flags: &["--spec-draft-type-v", "-ctvd", "--cache-type-v-draft"],
        },
        KnownOptionDefinition {
            key: "specDraftMaxTokens",
            label: "Maximum draft tokens",
            summary: "Maximum number of candidate tokens produced in one speculative step.",
            category: LlamaOptionCategory::Speculative,
            flags: &["--spec-draft-n-max"],
        },
        KnownOptionDefinition {
            key: "specDraftMinTokens",
            label: "Minimum draft tokens",
            summary: "Minimum accepted draft length before speculative verification is used.",
            category: LlamaOptionCategory::Speculative,
            flags: &["--spec-draft-n-min"],
        },
        KnownOptionDefinition {
            key: "specDraftSplitProbability",
            label: "Draft split probability",
            summary: "Probability threshold used when splitting speculative draft branches.",
            category: LlamaOptionCategory::Speculative,
            flags: &["--spec-draft-p-split", "--draft-p-split"],
        },
        KnownOptionDefinition {
            key: "specDraftMinProbability",
            label: "Minimum draft probability",
            summary: "Minimum token probability retained by greedy draft decoding.",
            category: LlamaOptionCategory::Speculative,
            flags: &["--spec-draft-p-min", "--draft-p-min"],
        },
        KnownOptionDefinition {
            key: "specDraftBackendSampling",
            label: "Draft backend sampling",
            summary: "Run supported draft-model samplers on the accelerator backend.",
            category: LlamaOptionCategory::Speculative,
            flags: &["--spec-draft-backend-sampling", "--no-spec-draft-backend-sampling"],
        },
        KnownOptionDefinition {
            key: "ngramModMinTokens",
            label: "ngram-mod minimum tokens",
            summary: "Minimum draft length produced by the ngram-mod strategy.",
            category: LlamaOptionCategory::Speculative,
            flags: &["--spec-ngram-mod-n-min"],
        },
        KnownOptionDefinition {
            key: "ngramModMaxTokens",
            label: "ngram-mod maximum tokens",
            summary: "Maximum draft length produced by the ngram-mod strategy.",
            category: LlamaOptionCategory::Speculative,
            flags: &["--spec-ngram-mod-n-max"],
        },
        KnownOptionDefinition {
            key: "ngramModMatchTokens",
            label: "ngram-mod match length",
            summary: "Lookup length used by the ngram-mod strategy.",
            category: LlamaOptionCategory::Speculative,
            flags: &["--spec-ngram-mod-n-match"],
        },
        KnownOptionDefinition {
            key: "ngramSimpleSizeN",
            label: "ngram-simple lookup length",
            summary: "Lookup n-gram length used by the ngram-simple strategy.",
            category: LlamaOptionCategory::Speculative,
            flags: &["--spec-ngram-simple-size-n"],
        },
        KnownOptionDefinition {
            key: "ngramSimpleSizeM",
            label: "ngram-simple draft length",
            summary: "Draft m-gram length used by the ngram-simple strategy.",
            category: LlamaOptionCategory::Speculative,
            flags: &["--spec-ngram-simple-size-m"],
        },
        KnownOptionDefinition {
            key: "ngramSimpleMinHits",
            label: "ngram-simple minimum hits",
            summary: "Minimum number of matching history entries required by ngram-simple.",
            category: LlamaOptionCategory::Speculative,
            flags: &["--spec-ngram-simple-min-hits"],
        },
        KnownOptionDefinition {
            key: "ngramMapKSizeN",
            label: "ngram-map-k lookup length",
            summary: "Lookup n-gram length used by the ngram-map-k strategy.",
            category: LlamaOptionCategory::Speculative,
            flags: &["--spec-ngram-map-k-size-n"],
        },
        KnownOptionDefinition {
            key: "ngramMapKSizeM",
            label: "ngram-map-k draft length",
            summary: "Draft m-gram length used by the ngram-map-k strategy.",
            category: LlamaOptionCategory::Speculative,
            flags: &["--spec-ngram-map-k-size-m"],
        },
        KnownOptionDefinition {
            key: "ngramMapKMinHits",
            label: "ngram-map-k minimum hits",
            summary: "Minimum number of matching history entries required by ngram-map-k.",
            category: LlamaOptionCategory::Speculative,
            flags: &["--spec-ngram-map-k-min-hits"],
        },
        KnownOptionDefinition {
            key: "ngramMapK4vSizeN",
            label: "ngram-map-k4v lookup length",
            summary: "Lookup n-gram length used by the ngram-map-k4v strategy.",
            category: LlamaOptionCategory::Speculative,
            flags: &["--spec-ngram-map-k4v-size-n"],
        },
        KnownOptionDefinition {
            key: "ngramMapK4vSizeM",
            label: "ngram-map-k4v draft length",
            summary: "Draft m-gram length used by the ngram-map-k4v strategy.",
            category: LlamaOptionCategory::Speculative,
            flags: &["--spec-ngram-map-k4v-size-m"],
        },
        KnownOptionDefinition {
            key: "ngramMapK4vMinHits",
            label: "ngram-map-k4v minimum hits",
            summary: "Minimum number of matching history entries required by ngram-map-k4v.",
            category: LlamaOptionCategory::Speculative,
            flags: &["--spec-ngram-map-k4v-min-hits"],
        },
    ]
}

/// Every known option, in lookup order.
pub fn known_options() -> (r: Vec<KnownOptionDefinition>)
    ensures
        r@ == known_registry(),
{
    let v = vec![
        KnownOptionDefinition {
            key: "contextSize",
            label: "Context size",
            summary: "Maximum context window used by the model.",
            category: LlamaOptionCategory::Context,
            flags: &["-c", "--ctx-size"],
        },
        KnownOptionDefinition {
            key: "batchSize",
            label: "Logical batch size",
            summary: "Maximum number of tokens processed in one logical batch.",
            category: LlamaOptionCategory::Batching,
            flags: &["-b", "--batch-size"],
        },
        KnownOptionDefinition {
            key: "microBatchSize",
            label: "Physical batch size",
            summary: "Maximum number of tokens processed in one physical micro-batch.",
            category: LlamaOptionCategory::Batching,
            flags: &["-ub", "--ubatch-size"],
        },
        KnownOptionDefinition {
            key: "gpuLayers",
            label: "GPU layers",
            summary: "Number of model layers offloaded to accelerator devices.",
            category: LlamaOptionCategory::Gpu,
            flags: &["-ngl", "--gpu-layers", "--n-gpu-layers"],
        },
        KnownOptionDefinition {
            key: "device",
            label: "Devices",
            summary: "Ordered accelerator devices used for model offload.",
            category: LlamaOptionCategory::Gpu,
            flags: &["-dev", "--device"],
        },
        KnownOptionDefinition {
            key: "splitMode",
            label: "Split mode",
            summary: "How model tensors are distributed across multiple devices.",
            category: LlamaOptionCategory::Gpu,
            flags: &["-sm", "--split-mode"],
        },
        KnownOptionDefinition {
            key: "tensorSplit",
            label: "Tensor split",
            summary: "Explicit per-device proportions for tensor placement.",
            category: LlamaOptionCategory::Gpu,
            flags: &["-ts", "--tensor-split"],
        },
        KnownOptionDefinition {
            key: "mainGpu",
            label: "Main GPU",
            summary: "Primary device used by split modes that require one.",
            category: LlamaOptionCategory::Gpu,
            flags: &["-mg", "--main-gpu"],
        },
        KnownOptionDefinition {
            key: "flashAttention",
            label: "Flash attention",
            summary: "Use the runtime's optimized flash-attention implementation.",
            category: LlamaOptionCategory::Gpu,
            flags: &["-fa", "--flash-attn", "--no-flash-attn"],
        },
        KnownOptionDefinition {
            key: "kvCacheTypeK",
            label: "K cache type",
            summary: "Data type used for key tensors in the KV cache.",
            category: LlamaOptionCategory::Memory,
            flags: &["-ctk", "--cache-type-k"],
        },
        KnownOptionDefinition {
            key: "kvCacheTypeV",
            label: "V cache type",
            summary: "Data type used for value tensors in the KV cache.",
            category: LlamaOptionCategory::Memory,
            flags: &["-ctv", "--cache-type-v"],
        },
        KnownOptionDefinition {
            key: "kvCacheOffload",
            label: "KV cache offload",
            summary: "Keep the KV cache on accelerator devices when supported.",
            category: LlamaOptionCategory::Memory,
            flags: &["-kvo", "--kv-offload", "-nkvo", "--no-kv-offload"],
        },
        KnownOptionDefinition {
            key: "kvUnified",
            label: "Unified KV buffer",
            summary: "Share one KV buffer across all server slots.",
            category: LlamaOptionCategory::Memory,
            flags: &["-kvu", "--kv-unified", "-no-kvu", "--no-kv-unified"],
        },
        KnownOptionDefinition {
            key: "swaFull",
            label: "Full SWA cache",
            summary: "Use a full-size cache for sliding-window attention layers.",
            category: LlamaOptionCategory::Memory,
            flags: &["--swa-full"],
        },
        KnownOptionDefinition {
            key: "fit",
            label: "Fit to memory",
            summary: "Ask llama.cpp to adjust parameters to available device memory.",
            category: LlamaOptionCategory::Memory,
            flags: &["-fit", "--fit", "-fitp", "--fit-print", "-fitt", "--fit-target", "-fitc", "--fit-ctx"],
        },
        KnownOptionDefinition {
            key: "parallel",
            label: "Parallel slots",
            summary: "Number of requests the server may process in parallel.",
            category: LlamaOptionCategory::Parallelism,
            flags: &["-np", "--parallel"],
        },
        KnownOptionDefinition {
            key: "jinja",
            label: "Jinja templates",
            summary: "Enable Jinja chat templates and tool-aware template features.",
            category: LlamaOptionCategory::Templates,
            flags: &["--jinja", "--no-jinja"],
        },
        KnownOptionDefinition {
            key: "reasoning",
            label: "Reasoning",
            summary: "Control extraction and presentation of model reasoning content.",
            category: LlamaOptionCategory::Reasoning,
            flags: &["-rea", "--reasoning", "--reasoning-format", "--reasoning-effort", "--reasoning-budget", "--reasoning-budget-message", "--reasoning-preserve"],
        },
        KnownOptionDefinition {
            key: "speculativeType",
            label: "Speculative decoding",
            summary: "Select one or more speculative decoding strategies advertised by this runtime.",
            category: LlamaOptionCategory::Speculative,
            flags: &["--spec-type"],
        },
        KnownOptionDefinition {
            key: "draftModel",
            label: "Draft model",
            summary: "Model used to draft candidate tokens for speculative decoding.",
            category: LlamaOptionCategory::Speculative,
            flags: &["--spec-draft-model", "-md", "--model-draft"],
        },
        KnownOptionDefinition {
            key: "draftDevice",
            label: "Draft devices",
            summary: "Devices used to offload the speculative draft model.",
            category: LlamaOptionCategory::Speculative,
            flags: &["--spec-draft-device", "-devd", "--device-draft"],
        },
        KnownOptionDefinition {
            key: "draftGpuLayers",
            label: "Draft GPU layers",
            summary: "Number of draft-model layers offloaded to accelerator devices.",
            category: LlamaOptionCategory::Speculative,
            flags: &["--spec-draft-gpu-layers", "--spec-draft-ngl", "-ngld", "--gpu-layers-draft", "--n-gpu-layers-draft"],
        },
        KnownOptionDefinition {
            key: "draftKvCacheTypeK",
            label: "Draft K cache type",
            summary: "Data type used for key tensors in the draft model's KV cache.",
            category: LlamaOptionCategory::Speculative,
            flags: &["--spec-draft-type-k", "-ctkd", "--cache-type-k-draft"],
        },
        KnownOptionDefinition {
            key: "draftKvCacheTypeV",
            label: "Draft V cache type",
            summary: "Data type used for value tensors in the draft model's KV cache.",
            category: LlamaOptionCategory::Speculative,
            flags: &["--spec-draft-type-v", "-ctvd", "--cache-type-v-draft"],
        },
        KnownOptionDefinition {
            key: "specDraftMaxTokens",
            label: "Maximum draft tokens",
            summary: "Maximum number of candidate tokens produced in one speculative step.",
            category: LlamaOptionCategory::Speculative,
            flags: &["--spec-draft-n-max"],
        },
        KnownOptionDefinition {
            key: "specDraftMinTokens",
            label: "Minimum draft tokens",
            summary: "Minimum accepted draft length before speculative verification is used.",
            category: LlamaOptionCategory::Speculative,
            flags: &["--spec-draft-n-min"],
        },
        KnownOptionDefinition {
            key: "specDraftSplitProbability",
            label: "Draft split probability",
            summary: "Probability threshold used when splitting speculative draft branches.",
            category: LlamaOptionCategory::Speculative,
            flags: &["--spec-draft-p-split", "--draft-p-split"],
        },
        KnownOptionDefinition {
            key: "specDraftMinProbability",
            label: "Minimum draft probability",
            summary: "Minimum token probability retained by greedy draft decoding.",
            category: LlamaOptionCategory::Speculative,
            flags: &["--spec-draft-p-min", "--draft-p-min"],
        },
        KnownOptionDefinition {
            key: "specDraftBackendSampling",
            label: "Draft backend sampling",
            summary: "Run supported draft-model samplers on the accelerator backend.",
            category: LlamaOptionCategory::Speculative,
            flags: &["--spec-draft-backend-sampling", "--no-spec-draft-backend-sampling"],
        },
        KnownOptionDefinition {
            key: "ngramModMinTokens",
            label: "ngram-mod minimum tokens",
            summary: "Minimum draft length produced by the ngram-mod strategy.",
            category: LlamaOptionCategory::Speculative,
            flags: &["--spec-ngram-mod-n-min"],
        },
        KnownOptionDefinition {
            key: "ngramModMaxTokens",
            label: "ngram-mod maximum tokens",
            summary: "Maximum draft length produced by the ngram-mod strategy.",
            category: LlamaOptionCategory::Speculative,
            flags: &["--spec-ngram-mod-n-max"],
        },
        KnownOptionDefinition {
            key: "ngramModMatchTokens",
            label: "ngram-mod match length",
            summary: "Lookup length used by the ngram-mod strategy.",
            category: LlamaOptionCategory::Speculative,
            flags: &["--spec-ngram-mod-n-match"],
        },
        KnownOptionDefinition {
            key: "ngramSimpleSizeN",
            label: "ngram-simple lookup length",
            summary: "Lookup n-gram length used by the ngram-simple strategy.",
            category: LlamaOptionCategory::Speculative,
            flags: &["--spec-ngram-simple-size-n"],
        },
        KnownOptionDefinition {
            key: "ngramSimpleSizeM",
            label: "ngram-simple draft length",
            summary: "Draft m-gram length used by the ngram-simple strategy.",
            category: LlamaOptionCategory::Speculative,
            flags: &["--spec-ngram-simple-size-m"],
        },
        KnownOptionDefinition {
            key: "ngramSimpleMinHits",
            label: "ngram-simple minimum hits",
            summary: "Minimum number of matching history entries required by ngram-simple.",
            category: LlamaOptionCategory::Speculative,
            flags: &["--spec-ngram-simple-min-hits"],
        },
        KnownOptionDefinition {
            key: "ngramMapKSizeN",
            label: "ngram-map-k lookup length",
            summary: "Lookup n-gram length used by the ngram-map-k strategy.",
            category: LlamaOptionCategory::Speculative,
            flags: &["--spec-ngram-map-k-size-n"],
        },
        KnownOptionDefinition {
            key: "ngramMapKSizeM",
            label: "ngram-map-k draft length",
            summary: "Draft m-gram length used by the ngram-map-k strategy.",
            category: LlamaOptionCategory::Speculative,
            flags: &["--spec-ngram-map-k-size-m"],
        },
        KnownOptionDefinition {
            key: "ngramMapKMinHits",
            label: "ngram-map-k minimum hits",
            summary: "Minimum number of matching history entries required by ngram-map-k.",
            category: LlamaOptionCategory::Speculative,
            flags: &["--spec-ngram-map-k-min-hits"],
        },
        KnownOptionDefinition {
            key: "ngramMapK4vSizeN",
            label: "ngram-map-k4v lookup length",
            summary: "Lookup n-gram length used by the ngram-map-k4v strategy.",
            category: LlamaOptionCategory::Speculative,
            flags: &["--spec-ngram-map-k4v-size-n"],
        },
        KnownOptionDefinition {
            key: "ngramMapK4vSizeM",
            label: "ngram-map-k4v draft length",
            summary: "Draft m-gram length used by the ngram-map-k4v strategy.",
            category: LlamaOptionCategory::Speculative,
            flags: &["--spec-ngram-map-k4v-size-m"],
        },
        KnownOptionDefinition {
            key: "ngramMapK4vMinHits",
            label: "ngram-map-k4v minimum hits",
            summary: "Minimum number of matching history entries required by ngram-map-k4v.",
            category: LlamaOptionCategory::Speculative,
            flags: &["--spec-ngram-map-k4v-min-hits"],
        },
    ];
    assert(v@ =~= known_registry());
    v
}

/// One of the definition's flags is among `flags`.
pub open spec fn defines_any(d: KnownOptionDefinition, flags: Seq<Seq<char>>) -> bool {
    exists|i: int, j: int|
        0 <= i < d.flags@.len() && 0 <= j < flags.len() && #[trigger] d.flags@[i]@ == #[trigger] flags[j]
}

/// Index of the first definition at or after `i` that defines one of `flags`.
pub open spec fn known_index(reg: Seq<KnownOptionDefinition>, flags: Seq<Seq<char>>, i: int) -> int
    decreases reg.len() - i,
{
    if i < 0 || i >= reg.len() {
        reg.len() as int
    } else if defines_any(reg[i], flags) {
        i
    } else {
        known_index(reg, flags, i + 1)
    }
}

/// The first registered definition that claims one of `flags`.
pub open spec fn known_option_spec(flags: Seq<Seq<char>>) -> Option<KnownOptionDefinition> {
    let k = known_index(known_registry(), flags, 0);
    if k < known_registry().len() {
        Some(known_registry()[k])
    } else {
        None
    }
}

fn claims(d: &KnownOptionDefinition, flags: &[String]) -> (r: bool)
    ensures
        r == defines_any(*d, texts(flags@)),
{
    let mut i: usize = 0;
    while i < d.flags.len()
        invariant
            i <= d.flags@.len(),
            forall|a: int, b: int|
                0 <= a < i && 0 <= b < flags@.len() ==> #[trigger] d.flags@[a]@ != #[trigger] texts(flags@)[b],
        decreases d.flags.len() - i,
    {
        let known = chars_of(d.flags[i]);
        let mut j: usize = 0;
        while j < flags.len()
            invariant
                i < d.flags@.len(),
                j <= flags@.len(),
                known@ == d.flags@[i as int]@,
                forall|a: int, b: int|
                    0 <= a < i && 0 <= b < flags@.len() ==> #[trigger] d.flags@[a]@ != #[trigger] texts(flags@)[b],
                forall|b: int| 0 <= b < j ==> d.flags@[i as int]@ != #[trigger] texts(flags@)[b],
            decreases flags.len() - j,
        {
            let actual = chars_of(flags[j].as_str());
            if chars_equal(known.as_slice(), actual.as_slice()) {
                assert(d.flags@[i as int]@ == texts(flags@)[j as int]);
                return true;
            }
            j += 1;
        }
        i += 1;
    }
    false
}

/// The first registered definition that claims one of `flags`.
pub fn known_option(flags: &[String]) -> (r: Option<KnownOptionDefinition>)
    ensures
        r == known_option_spec(texts(flags@)),
{
    let reg = known_options();
    let mut i: usize = 0;
    while i < reg.len()
        invariant
            i <= reg@.len(),
            reg@ == known_registry(),
            known_index(reg@, texts(flags@), 0) == known_index(reg@, texts(flags@), i as int),
        decreases reg.len() - i,
    {
        if claims(&reg[i], flags) {
            return Some(reg[i]);
        }
        i += 1;
    }
    None
}

// ---------------------------------------------------------------------------------------------
// Capabilities
// ---------------------------------------------------------------------------------------------

/// How many of the first `n` options map onto a known concept.
pub open spec fn known_count(entries: Seq<(String, LlamaOption)>, n: int) -> int
    decreases n,
{
    if n <= 0 {
        0
    } else {
        known_count(entries, n - 1) + if entries[n - 1].1.known_key is Some {
            1int
        } else {
            0int
        }
    }
}

proof fn lemma_known_count_bound(entries: Seq<(String, LlamaOption)>, n: int)
    requires
        0 <= n <= entries.len(),
    ensures
        0 <= known_count(entries, n) <= n,
    decreases n,
{
    if n > 0 {
        lemma_known_count_bound(entries, n - 1);
    }
}

/// The option after the current registry is applied: a claimed option takes the concept's
/// category, key, label and summary; everything the runtime advertised stays as it was.
pub open spec fn refreshed(o: LlamaOption, next: LlamaOption) -> bool {
    &&& next.flag@ == o.flag@
    &&& texts(next.aliases@) == texts(o.aliases@)
    &&& opt_text(next.value_hint) == opt_text(o.value_hint)
    &&& next.description@ == o.description@
    &&& next.section@ == o.section@
    &&& match known_option_spec(texts(o.aliases@)) {
        Some(d) => {
            &&& next.category == d.category
            &&& opt_text(next.known_key) == Some(d.key@)
            &&& next.display_name@ == d.label@
            &&& opt_text(next.summary) == Some(d.summary@)
        },
        None => {
            &&& next.category == o.category
            &&& opt_text(next.known_key) == opt_text(o.known_key)
            &&& next.display_name@ == o.display_name@
            &&& opt_text(next.summary) == opt_text(o.summary)
        },
    }
}

fn clone_texts(v: &Vec<String>) -> (r: Vec<String>)
    ensures
        texts(r@) == texts(v@),
{
    let mut out: Vec<String> = Vec::new();
    let mut i: usize = 0;
    while i < v.len()
        invariant
            i <= v@.len(),
            texts(out@) == texts(v@).take(i as int),
        decreases v.len() - i,
    {
        let s = v[i].clone();
        let ghost before = out@;
        out.push(s);
        proof {
            crate::text::lemma_texts_push(before, s);
            assert(texts(out@) =~= texts(v@).take(i + 1));
        }
        i += 1;
    }
    assert(texts(v@).take(v@.len() as int) =~= texts(v@));
    out
}

fn clone_opt(o: &Option<String>) -> (r: Option<String>)
    ensures
        opt_text(r) == opt_text(*o),
{
    match o {
        Some(s) => Some(s.clone()),
        None => None,
    }
}

fn refresh_option(o: &LlamaOption) -> (r: LlamaOption)
    ensures
        refreshed(*o, r),
{
    let known = known_option(o.aliases.as_slice());
    let mut next = LlamaOption {
        flag: o.flag.clone(),
        aliases: clone_texts(&o.aliases),
        value_hint: clone_opt(&o.value_hint),
        description: o.description.clone(),
        section: o.section.clone(),
        category: o.category,
        known_key: clone_opt(&o.known_key),
        display_name: o.display_name.clone(),
        summary: clone_opt(&o.summary),
    };
    if let Some(d) = known {
        next.category = d.category;
        next.known_key = Some(d.key.to_string());
        next.display_name = d.label.to_string();
        next.summary = Some(d.summary.to_string());
    }
    next
}

impl LlamaCapabilities {
    pub fn known_option_count(&self) -> (r: usize)
        ensures
            r == known_count(self.options.entries@, self.options.entries@.len() as int),
    {
        let entries = &self.options.entries;
        let mut count: usize = 0;
        let mut i: usize = 0;
        while i < entries.len()
            invariant
                i <= entries@.len(),
                count == known_count(entries@, i as int),
            decreases entries.len() - i,
        {
            proof {
                lemma_known_count_bound(entries@, i as int);
            }
            if entries[i].1.known_key.is_some() {
                count += 1;
            }
            i += 1;
        }
        count
    }

    /// Re-applies the current presentation registry to an inspection: the advertised flags
    /// remain the source of truth; this only lets newer versions recognise concepts in an older
    /// stored inspection.
    pub fn refresh_known_registry(&mut self)
        requires
            old(self).options.wf(),
        ensures
            final(self).options.wf(),
            final(self).options.entries@.len() == old(self).options.entries@.len(),
            forall|i: int|
                0 <= i < old(self).options.entries@.len() ==> #[trigger] final(self).options.entries@[i].0@
                    == old(self).options.entries@[i].0@ && refreshed(
                    old(self).options.entries@[i].1,
                    final(self).options.entries@[i].1,
                ),
            final(self).version == old(self).version,
            final(self).commit == old(self).commit,
            final(self).speculative_types == old(self).speculative_types,
            final(self).devices == old(self).devices,
            final(self).schema_version == old(self).schema_version,
    {
        let mut next: Vec<(String, LlamaOption)> = Vec::new();
        let mut i: usize = 0;
        while i < self.options.entries.len()
            invariant
                i <= self.options.entries@.len(),
                self.options.entries@ == old(self).options.entries@,
                next@.len() == i,
                forall|j: int|
                    0 <= j < i ==> #[trigger] next@[j].0@ == self.options.entries@[j].0@
                        && refreshed(self.options.entries@[j].1, next@[j].1),
            decreases self.options.entries.len() - i,
        {
            let key = self.options.entries[i].0.clone();
            let option = refresh_option(&self.options.entries[i].1);
            next.push((key, option));
            i += 1;
        }
        assert(keys_sorted(next@)) by {
            assert forall|a: int, b: int| 0 <= a < b < next@.len() implies crate::text_map::text_lt(
                #[trigger] next@[a].0@,
                #[trigger] next@[b].0@,
            ) by {
                assert(next@[a].0@ == old(self).options.entries@[a].0@);
                assert(next@[b].0@ == old(self).options.entries@[b].0@);
            }
        }
        self.options = TextMap { entries: next };
    }
}

impl RuntimeCapabilitySummary {
    pub fn from_capabilities(
        inspection_id: String,
        inspected_at: String,
        capabilities: &LlamaCapabilities,
    ) -> (s: Self)
        ensures
            s.inspection_id == inspection_id,
            s.inspected_at == inspected_at,
            s.version@ == capabilities.version@,
            opt_text(s.commit) == opt_text(capabilities.commit),
            s.option_count == capabilities.options.entries@.len(),
            s.known_option_count == known_count(
                capabilities.options.entries@,
                capabilities.options.entries@.len() as int,
            ),
            s.device_count == capabilities.devices@.len(),
            s.speculative_type_count == capabilities.speculative_types@.len(),
    {
        RuntimeCapabilitySummary {
            inspection_id,
            inspected_at,
            version: capabilities.version.clone(),
            commit: clone_opt(&capabilities.commit),
            option_count: capabilities.options.len(),
            known_option_count: capabilities.known_option_count(),
            device_count: capabilities.devices.len(),
            speculative_type_count: capabilities.speculative_types.len(),
        }
    }
}

} // verus!
