//! The performance plan shown to the user, and the benchmark records kept for them.
use vstd::prelude::*;

use crate::profiles::ProfileOptionSetting;
use crate::text_map::TextMap;

verus! {

pub const PERFORMANCE_SCHEMA_VERSION: u32 = 1;

/// How many benchmark results the history keeps.
pub const MAX_HISTORY_ENTRIES: usize = 100;

#[derive(Debug, Clone, Copy, PartialEq, Eq, Structural)]
pub enum PerformanceObjective {
    InteractiveCoding,
}

#[derive(Debug, Clone)]
pub struct PerformanceDevice {
    pub id: String,
    pub name: String,
    pub total_memory_mib: Option<u64>,
    pub free_memory_mib: Option<u64>,
    pub split_percent: u32,
}

#[derive(Debug, Clone)]
pub struct PerformanceCandidate {
    pub id: String,
    pub label: String,
    pub description: String,
    pub split_mode: String,
    pub experimental: bool,
    pub options: TextMap<ProfileOptionSetting>,
    pub reasons: Vec<String>,
    pub warnings: Vec<String>,
}

#[derive(Debug, Clone)]
pub struct PerformancePlan {
    pub profile_id: String,
    pub profile_name: String,
    pub runtime_id: String,
    pub runtime_label: String,
    pub model_id: String,
    pub model_name: String,
    pub model_size_bytes: Option<u64>,
    pub objective: PerformanceObjective,
    pub devices: Vec<PerformanceDevice>,
    pub total_free_memory_mib: u64,
    pub candidates: Vec<PerformanceCandidate>,
    pub recommended_candidate_id: Option<String>,
    pub warnings: Vec<String>,
}

#[derive(Debug, Clone, PartialEq, Eq)]
pub struct BenchmarkGpu {
    pub index: u32,
    pub name: String,
    pub total_memory_mib: u64,
    pub free_memory_mib: u64,
}

#[derive(Debug, Clone, Default, PartialEq, Eq)]
pub struct BenchmarkPlacement {
    pub devices: Option<String>,
    pub split_mode: Option<String>,
    pub tensor_split: Option<String>,
    pub gpu_layers: Option<String>,
}

/// Records a result in a newest-first history that keeps at most [`MAX_HISTORY_ENTRIES`].
pub fn record_newest<T>(results: &mut Vec<T>, item: T)
    ensures
        final(results)@ == (seq![item] + old(results)@).take(
            if old(results)@.len() + 1 > MAX_HISTORY_ENTRIES {
                MAX_HISTORY_ENTRIES as int
            } else {
                old(results)@.len() + 1int
            },
        ),
{
    results.insert(0, item);
    assert(results@ =~= seq![item] + old(results)@);
    if results.len() > MAX_HISTORY_ENTRIES {
        results.truncate(MAX_HISTORY_ENTRIES);
    }
    assert(results@ =~= (seq![item] + old(results)@).take(
        if old(results)@.len() + 1 > MAX_HISTORY_ENTRIES {
            MAX_HISTORY_ENTRIES as int
        } else {
            old(results)@.len() + 1int
        },
    ));
}

} // verus!
