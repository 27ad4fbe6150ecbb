//! Reading NVIDIA GPUs out of `nvidia-smi`'s CSV query output.
use vstd::prelude::*;

use crate::error::opt_text;
use crate::text::{chars_of, lines, lines_exec, parse_u32, parse_u32_exec, parse_u64, parse_u64_exec, split, split_exec, string_of, trim, trimmed, views};

verus! {

#[derive(Debug, Clone, PartialEq, Eq)]
pub struct GpuInfo {
    pub index: u32,
    pub name: String,
    pub total_memory_mib: u64,
    pub used_memory_mib: u64,
    pub free_memory_mib: u64,
    pub driver_version: Option<String>,
}

/// A GPU as plain values.
pub struct GpuModel {
    pub index: u32,
    pub name: Seq<char>,
    pub total_memory_mib: u64,
    pub used_memory_mib: u64,
    pub free_memory_mib: u64,
    pub driver_version: Option<Seq<char>>,
}

impl View for GpuInfo {
    type V = GpuModel;

    open spec fn view(&self) -> GpuModel {
        GpuModel {
            index: self.index,
            name: self.name@,
            total_memory_mib: self.total_memory_mib,
            used_memory_mib: self.used_memory_mib,
            free_memory_mib: self.free_memory_mib,
            driver_version: opt_text(self.driver_version),
        }
    }
}

pub open spec fn gpu_models(v: Seq<GpuInfo>) -> Seq<GpuModel> {
    Seq::new(v.len(), |i: int| v[i]@)
}

/// Fields requested from `nvidia-smi`, in the order the parser expects them.
pub const QUERY_FIELDS: &'static str =
    "index,name,memory.total,memory.used,memory.free,driver_version";

/// The `i`-th comma-separated field of a row, trimmed.
pub open spec fn field(fields: Seq<Seq<char>>, i: int) -> Seq<char> {
    trim(fields[i])
}

/// One row: index, name, total, used and free memory in MiB, and an optional driver version.
/// A row with fewer than five fields, an empty name or a number that does not parse is `None`.
pub open spec fn gpu_row(line: Seq<char>) -> Option<GpuModel> {
    let fields = split(line, ',');
    if fields.len() < 5 || field(fields, 1).len() == 0 {
        None
    } else {
        match (
            parse_u32(field(fields, 0)),
            parse_u64(field(fields, 2)),
            parse_u64(field(fields, 3)),
            parse_u64(field(fields, 4)),
        ) {
            (Some(index), Some(total), Some(used), Some(free)) => Some(
                GpuModel {
                    index,
                    name: field(fields, 1),
                    total_memory_mib: total,
                    used_memory_mib: used,
                    free_memory_mib: free,
                    driver_version: if fields.len() > 5 && field(fields, 5).len() > 0 {
                        Some(field(fields, 5))
                    } else {
                        None
                    },
                },
            ),
            _ => None,
        }
    }
}

/// The GPUs of the first `n` lines, skipping rows that do not parse.
pub open spec fn gpus_upto(ls: Seq<Seq<char>>, n: int) -> Seq<GpuModel>
    decreases n,
{
    if n <= 0 {
        seq![]
    } else {
        match gpu_row(ls[n - 1]) {
            Some(g) => gpus_upto(ls, n - 1).push(g),
            None => gpus_upto(ls, n - 1),
        }
    }
}

pub open spec fn gpu_query_spec(output: Seq<char>) -> Seq<GpuModel> {
    gpus_upto(lines(output), lines(output).len() as int)
}

fn parse_row(line: &[char]) -> (r: Option<GpuInfo>)
    ensures
        match (r, gpu_row(line@)) {
            (Some(g), Some(m)) => g@ == m,
            (None, None) => true,
            _ => false,
        },
{
    let raw = split_exec(line, ',');
    let ghost fields = split(line@, ',');
    if raw.len() < 5 {
        return None;
    }
    assert(raw@[1]@ == fields[1]);
    let name = trimmed(raw[1].as_slice());
    if name.len() == 0 {
        return None;
    }
    assert(raw@[0]@ == fields[0] && raw@[2]@ == fields[2] && raw@[3]@ == fields[3]
        && raw@[4]@ == fields[4]);
    let index = parse_u32_exec(trimmed(raw[0].as_slice()).as_slice());
    let total = parse_u64_exec(trimmed(raw[2].as_slice()).as_slice());
    let used = parse_u64_exec(trimmed(raw[3].as_slice()).as_slice());
    let free = parse_u64_exec(trimmed(raw[4].as_slice()).as_slice());
    match (index, total, used, free) {
        (Some(index), Some(total), Some(used), Some(free)) => {
            let mut driver_version: Option<String> = None;
            if raw.len() > 5 {
                assert(raw@[5]@ == fields[5]);
                let driver = trimmed(raw[5].as_slice());
                if driver.len() > 0 {
                    driver_version = Some(string_of(driver.as_slice()));
                }
            }
            Some(
                GpuInfo {
                    index,
                    name: string_of(name.as_slice()),
                    total_memory_mib: total,
                    used_memory_mib: used,
                    free_memory_mib: free,
                    driver_version,
                },
            )
        },
        _ => None,
    }
}

/// Parses `nvidia-smi --query-gpu=… --format=csv,noheader,nounits` output. Rows that do not parse
/// are skipped rather than failing the whole snapshot: a partially readable GPU list is more
/// useful than none.
pub fn parse_gpu_query(output: &str) -> (r: Vec<GpuInfo>)
    ensures
        gpu_models(r@) == gpu_query_spec(output@),
{
    let text = chars_of(output);
    let all = lines_exec(text.as_slice());
    let ghost ls = lines(output@);
    let mut out: Vec<GpuInfo> = Vec::new();
    let mut i: usize = 0;
    while i < all.len()
        invariant
            i <= all@.len(),
            views(all@) == ls,
            gpu_models(out@) == gpus_upto(ls, i as int),
        decreases all.len() - i,
    {
        assert(all@[i as int]@ == ls[i as int]);
        match parse_row(all[i].as_slice()) {
            Some(g) => {
                let ghost before = out@;
                out.push(g);
                assert(gpu_models(out@) =~= gpu_models(before).push(g@));
            },
            None => {},
        }
        i += 1;
    }
    out
}

} // verus!
