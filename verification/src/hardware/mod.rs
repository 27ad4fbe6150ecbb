//! A point-in-time view of the machine, as context for sizing a model.
pub mod nvidia;

use vstd::prelude::*;

use crate::error::opt_text;
use crate::hardware::nvidia::GpuInfo;
use crate::text::{chars_of, string_of, trim, trimmed};

verus! {

#[derive(Debug, Clone)]
pub struct CpuInfo {
    pub brand: String,
    pub physical_cores: Option<usize>,
    pub logical_cores: usize,
}

#[derive(Debug, Clone, Copy)]
pub struct MemoryInfo {
    pub total_bytes: u64,
    pub available_bytes: u64,
}

#[derive(Debug, Clone)]
pub struct HardwareSnapshot {
    pub cpu: CpuInfo,
    pub memory: MemoryInfo,
    pub gpus: Vec<GpuInfo>,
    pub nvidia_driver: Option<String>,
    /// True when an NVIDIA GPU was detected. It does not imply the CUDA toolkit is installed,
    /// which toolchain detection reports separately.
    pub nvidia_present: bool,
    pub unified_memory: bool,
}

/// The brand the first CPU reports, trimmed, or `Unknown CPU` when there is none or it is blank.
pub fn cpu_brand(first: Option<&str>) -> (r: String)
    ensures
        r@ == match first {
            Some(b) => if trim(b@).len() > 0 {
                trim(b@)
            } else {
                "Unknown CPU"@
            },
            None => "Unknown CPU"@,
        },
{
    match first {
        Some(b) => {
            let t = trimmed(chars_of(b).as_slice());
            if t.len() > 0 {
                string_of(t.as_slice())
            } else {
                "Unknown CPU".to_string()
            }
        },
        None => "Unknown CPU".to_string(),
    }
}

pub const MIB: u64 = 1048576;

/// A GPU that shares the machine's memory, as reported on Apple silicon: its memory is the
/// machine's, in whole MiB.
pub fn unified_memory_gpu(position: usize, name: &str, memory: MemoryInfo) -> (g: GpuInfo)
    ensures
        g.index == position as u32,
        g.name@ == name@,
        g.total_memory_mib == memory.total_bytes / MIB,
        g.used_memory_mib == (if memory.total_bytes >= memory.available_bytes {
            (memory.total_bytes - memory.available_bytes) as u64
        } else {
            0u64
        }) / MIB,
        g.free_memory_mib == memory.available_bytes / MIB,
        g.driver_version is None,
{
    let used = if memory.total_bytes >= memory.available_bytes {
        memory.total_bytes - memory.available_bytes
    } else {
        0
    };
    GpuInfo {
        index: position as u32,
        name: name.to_string(),
        total_memory_mib: memory.total_bytes / MIB,
        used_memory_mib: used / MIB,
        free_memory_mib: memory.available_bytes / MIB,
        driver_version: None,
    }
}

/// Index of the first GPU at or after `i` that reports a driver version.
pub open spec fn driver_index(gpus: Seq<GpuInfo>, i: int) -> int
    decreases gpus.len() - i,
{
    if i < 0 || i >= gpus.len() {
        gpus.len() as int
    } else if gpus[i].driver_version is Some {
        i
    } else {
        driver_index(gpus, i + 1)
    }
}

/// Assembles the snapshot: the driver is the first one any GPU reports, and an NVIDIA GPU is
/// present when the machine has no unified memory and some GPU was listed.
pub fn assemble_snapshot(cpu: CpuInfo, memory: MemoryInfo, gpus: Vec<GpuInfo>, unified_memory: bool) -> (s:
    HardwareSnapshot)
    ensures
        s.gpus == gpus,
        s.unified_memory == unified_memory,
        s.nvidia_present == (!unified_memory && gpus@.len() > 0),
        opt_text(s.nvidia_driver) == ({
            let k = driver_index(gpus@, 0);
            if k < gpus@.len() {
                opt_text(gpus@[k].driver_version)
            } else {
                None
            }
        }),
        s.cpu == cpu,
        s.memory == memory,
{
    let mut i: usize = 0;
    while i < gpus.len() && gpus[i].driver_version.is_none()
        invariant
            i <= gpus@.len(),
            driver_index(gpus@, 0) == driver_index(gpus@, i as int),
        decreases gpus.len() - i,
    {
        i += 1;
    }
    let nvidia_driver = if i < gpus.len() {
        match &gpus[i].driver_version {
            Some(d) => Some(d.clone()),
            None => None,
        }
    } else {
        None
    };
    let nvidia_present = !unified_memory && gpus.len() > 0;
    HardwareSnapshot { cpu, memory, gpus, nvidia_driver, nvidia_present, unified_memory }
}

} // verus!
