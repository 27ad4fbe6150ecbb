//! Placement candidates for one model on the GPUs a runtime reports, weighted by usable memory.
use vstd::prelude::*;

use crate::error::opt_text;
use crate::hardware::nvidia::GpuInfo;
use crate::llama::capabilities::{LlamaCapabilities, LlamaDevice, LlamaOption};
use crate::performance::model::{PerformanceCandidate, PerformanceDevice, PerformanceObjective, PerformancePlan};
use crate::profiles::{custom, LaunchProfile, ProfileInput, ProfileOptionSetting, SettingModel};
use crate::text::{chars_of, decimal_text, is_digit, lit, parse_u32, parse_u32_exec, split, split_exec, string_of, views, CharClass};
use crate::text_map::{entry_value, TextMap};

verus! {

/// Memory kept free on every GPU, at least: a twelfth of it, or this many MiB if that is more.
pub const MINIMUM_VRAM_RESERVE_MIB: u64 = 1024;

/// The memory a placement may plan on: the free memory (or the total when free is unknown, or
/// one MiB when both are) less a safety reserve, and never less than one MiB.
pub open spec fn usable_memory_spec(total: Option<u64>, free: Option<u64>) -> u64 {
    let available: u64 = match free {
        Some(f) => f,
        None => match total {
            Some(t) => t,
            None => 1,
        },
    };
    let reserve: u64 = match total {
        Some(t) => if t / 12 > MINIMUM_VRAM_RESERVE_MIB {
            t / 12
        } else {
            MINIMUM_VRAM_RESERVE_MIB
        },
        None => MINIMUM_VRAM_RESERVE_MIB,
    };
    if available > reserve && available - reserve > 1 {
        (available - reserve) as u64
    } else {
        1
    }
}

/// A GPU's usable memory comes from its free memory whenever that is known: the free MiB less a
/// reserve of a twelfth of the total (at least 1024 MiB, and 1024 MiB when the total is unknown),
/// never below 1 MiB. Only when the free memory is unknown does the total stand in for it.
pub proof fn usable_memory_follows_free_memory(total: Option<u64>, free: Option<u64>)
    ensures
        ({
            let reserve: int = match total {
                Some(t) => if t as int / 12 > 1024 {
                    t as int / 12
                } else {
                    1024
                },
                None => 1024,
            };
            let base: int = match free {
                Some(f) => f as int,
                None => match total {
                    Some(t) => t as int,
                    None => 1,
                },
            };
            &&& usable_memory_spec(total, free) == if base - reserve > 1 {
                base - reserve
            } else {
                1
            }
            &&& free matches Some(f) ==> (f - reserve > 1 ==> usable_memory_spec(total, free)
                == f - reserve)
            &&& usable_memory_spec(total, free) >= 1
        }),
{
}

pub fn usable_memory(total: Option<u64>, free: Option<u64>) -> (r: u64)
    ensures
        r == usable_memory_spec(total, free),
{
    let available: u64 = match free {
        Some(f) => f,
        None => match total {
            Some(t) => t,
            None => 1,
        },
    };
    let reserve: u64 = match total {
        Some(t) => if t / 12 > MINIMUM_VRAM_RESERVE_MIB {
            t / 12
        } else {
            MINIMUM_VRAM_RESERVE_MIB
        },
        None => MINIMUM_VRAM_RESERVE_MIB,
    };
    if available > reserve && available - reserve > 1 {
        available - reserve
    } else {
        1
    }
}

/// Sum of the first `n` values.
pub open spec fn total_upto(ws: Seq<u64>, n: int) -> int
    decreases n,
{
    if n <= 0 {
        0
    } else {
        total_upto(ws, n - 1) + ws[n - 1]
    }
}

/// Sum of the first `n` percentages.
pub open spec fn percent_total_upto(ps: Seq<u32>, n: int) -> int
    decreases n,
{
    if n <= 0 {
        0
    } else {
        percent_total_upto(ps, n - 1) + ps[n - 1]
    }
}

/// `w` out of `total` as a whole percentage, halves rounded up.
pub open spec fn rounded_share(w: int, total: int) -> int {
    (100 * w) / total + if 2 * ((100 * w) % total) >= total {
        1int
    } else {
        0int
    }
}

/// Position of the last largest weight among the first `n`.
pub open spec fn largest_upto(ws: Seq<u64>, n: int) -> int
    decreases n,
{
    if n <= 1 {
        0
    } else if ws[n - 1] >= ws[largest_upto(ws, n - 1)] {
        n - 1
    } else {
        largest_upto(ws, n - 1)
    }
}

/// The rounded shares before the correction.
pub open spec fn raw_shares(ws: Seq<u64>) -> Seq<u32> {
    let total = if total_upto(ws, ws.len() as int) > 1 {
        total_upto(ws, ws.len() as int)
    } else {
        1
    };
    Seq::new(ws.len(), |i: int| rounded_share(ws[i] as int, total) as u32)
}

/// Takes `excess` points off the shares from position `i` on, in order, each share giving as many
/// as it has.
pub open spec fn take_excess(ps: Seq<u32>, excess: int, i: int) -> Seq<u32>
    decreases ps.len() - i,
{
    if excess <= 0 || i < 0 || i >= ps.len() {
        ps
    } else {
        let cut = if ps[i] < excess {
            ps[i] as int
        } else {
            excess
        };
        take_excess(ps.update(i, (ps[i] - cut) as u32), excess - cut, i + 1)
    }
}

/// Each weight's share of the total as a whole percentage. The last largest weight absorbs the
/// rounding difference; an excess larger than its share is taken from the other shares in order,
/// so the shares always add up to one hundred.
pub open spec fn percentages_spec(ws: Seq<u64>) -> Seq<u32> {
    if ws.len() == 0 {
        seq![]
    } else {
        let raw = raw_shares(ws);
        let sum = percent_total_upto(raw, raw.len() as int);
        let k = largest_upto(ws, ws.len() as int);
        if sum == 100 {
            raw
        } else if sum < 100 {
            raw.update(k, (raw[k] + (100 - sum)) as u32)
        } else {
            let excess = sum - 100;
            let cut = if raw[k] < excess {
                raw[k] as int
            } else {
                excess
            };
            take_excess(raw.update(k, (raw[k] - cut) as u32), excess - cut, 0)
        }
    }
}

proof fn lemma_percent_total_monotonic(ps: Seq<u32>, a: int, b: int)
    requires
        0 <= a <= b <= ps.len(),
    ensures
        percent_total_upto(ps, a) <= percent_total_upto(ps, b),
    decreases b - a,
{
    if a < b {
        lemma_percent_total_monotonic(ps, a, b - 1);
    }
}

proof fn lemma_take_excess_total(ps: Seq<u32>, e: int, i: int)
    requires
        0 <= i <= ps.len(),
        0 <= e <= percent_total_upto(ps, ps.len() as int) - percent_total_upto(ps, i),
    ensures
        take_excess(ps, e, i).len() == ps.len(),
        percent_total_upto(take_excess(ps, e, i), ps.len() as int) == percent_total_upto(
            ps,
            ps.len() as int,
        ) - e,
    decreases ps.len() - i,
{
    let n = ps.len() as int;
    if e <= 0 || i >= n {
    } else {
        let cut = if ps[i] < e {
            ps[i] as int
        } else {
            e
        };
        let p2 = ps.update(i, (ps[i] - cut) as u32);
        lemma_percent_total_update(ps, n, i, (ps[i] - cut) as u32);
        lemma_percent_total_update(ps, i + 1, i, (ps[i] - cut) as u32);
        lemma_percent_total_monotonic(ps, i + 1, n);
        assert(percent_total_upto(ps, i + 1) == percent_total_upto(ps, i) + ps[i]);
        lemma_take_excess_total(p2, e - cut, i + 1);
    }
}

proof fn lemma_percent_total_update(ps: Seq<u32>, n: int, k: int, v: u32)
    requires
        0 <= k < n <= ps.len(),
    ensures
        percent_total_upto(ps.update(k, v), n) == percent_total_upto(ps, n) - ps[k] + v,
    decreases n,
{
    if n - 1 > k {
        lemma_percent_total_update(ps, n - 1, k, v);
    } else {
        lemma_percent_total_same(ps, ps.update(k, v), k);
    }
}

proof fn lemma_percent_total_same(a: Seq<u32>, b: Seq<u32>, n: int)
    requires
        0 <= n <= a.len(),
        n <= b.len(),
        forall|i: int| 0 <= i < n ==> a[i] == b[i],
    ensures
        percent_total_upto(a, n) == percent_total_upto(b, n),
    decreases n,
{
    if n > 0 {
        lemma_percent_total_same(a, b, n - 1);
    }
}

proof fn lemma_percent_total_nonneg(ps: Seq<u32>, n: int)
    requires
        0 <= n <= ps.len(),
    ensures
        percent_total_upto(ps, n) >= 0,
    decreases n,
{
    if n > 0 {
        lemma_percent_total_nonneg(ps, n - 1);
    }
}

/// The shares of any non-empty list of weights add up to exactly one hundred.
pub proof fn percentages_sum_to_one_hundred(ws: Seq<u64>)
    requires
        ws.len() > 0,
    ensures
        percentages_spec(ws).len() == ws.len(),
        percent_total_upto(percentages_spec(ws), ws.len() as int) == 100,
{
    let raw = raw_shares(ws);
    let n = ws.len() as int;
    let sum = percent_total_upto(raw, n);
    let k = largest_upto(ws, n);
    lemma_largest_bounds(ws, n);
    lemma_total_bounds(ws, n);
    let total = if total_upto(ws, n) > 1 {
        total_upto(ws, n)
    } else {
        1
    };
    lemma_share_bound(ws[k] as int, total);
    assert(raw[k] as int == rounded_share(ws[k] as int, total));
    lemma_percent_total_nonneg(raw, n);
    if sum != 100 {
        if sum < 100 {
            lemma_percent_total_update(raw, n, k, (raw[k] + (100 - sum)) as u32);
        } else {
            let excess = sum - 100;
            let cut = if raw[k] < excess {
                raw[k] as int
            } else {
                excess
            };
            let p1 = raw.update(k, (raw[k] - cut) as u32);
            lemma_percent_total_update(raw, n, k, (raw[k] - cut) as u32);
            lemma_take_excess_total(p1, excess - cut, 0);
        }
    }
}

proof fn lemma_total_bounds(ws: Seq<u64>, n: int)
    requires
        0 <= n <= ws.len(),
    ensures
        0 <= total_upto(ws, n) <= n * 18446744073709551615,
        forall|i: int| 0 <= i < n ==> ws[i] <= total_upto(ws, n),
    decreases n,
{
    if n > 0 {
        lemma_total_bounds(ws, n - 1);
    }
}

proof fn lemma_largest_bounds(ws: Seq<u64>, n: int)
    requires
        1 <= n <= ws.len(),
    ensures
        0 <= largest_upto(ws, n) < n,
    decreases n,
{
    if n > 1 {
        lemma_largest_bounds(ws, n - 1);
    }
}

proof fn lemma_share_bound(w: int, total: int)
    requires
        0 <= w <= total,
        total >= 1,
    ensures
        0 <= rounded_share(w, total) <= 100,
{
    let q = (100 * w) / total;
    let r = (100 * w) % total;
    assert(q * total + r == 100 * w && 0 <= r < total) by (nonlinear_arith)
        requires
            total >= 1,
            q == (100 * w) / total,
            r == (100 * w) % total,
    ;
    assert(0 <= q <= 100) by (nonlinear_arith)
        requires
            q * total + r == 100 * w,
            0 <= r < total,
            0 <= w <= total,
            total >= 1,
    ;
    if q == 100 {
        assert(r == 0) by (nonlinear_arith)
            requires
                100 * total + r == 100 * w,
                0 <= r,
                w <= total,
        ;
    }
}

proof fn lemma_percent_total_bounds(ps: Seq<u32>, n: int)
    requires
        0 <= n <= ps.len(),
        forall|i: int| 0 <= i < ps.len() ==> ps[i] <= 100,
    ensures
        0 <= percent_total_upto(ps, n) <= 100 * n,
    decreases n,
{
    if n > 0 {
        lemma_percent_total_bounds(ps, n - 1);
    }
}

pub fn percentages(weights: &[u64]) -> (r: Vec<u32>)
    ensures
        r@ == percentages_spec(weights@),
{
    if weights.len() == 0 {
        return Vec::new();
    }
    let n = weights.len();
    let mut sum: u128 = 0;
    let mut i: usize = 0;
    while i < n
        invariant
            n == weights@.len(),
            i <= n,
            sum == total_upto(weights@, i as int),
            sum <= i * 18446744073709551615,
        decreases n - i,
    {
        proof {
            lemma_total_bounds(weights@, i as int);
        }
        assert(sum + weights[i as int] <= (i + 1) * 18446744073709551615) by (nonlinear_arith)
            requires
                sum <= i * 18446744073709551615,
                weights[i as int] <= 18446744073709551615u64,
        ;
        assert((i + 1) * 18446744073709551615 < 340282366920938463463374607431768211455) by (
        nonlinear_arith)
            requires
                i + 1 <= 18446744073709551616,
        ;
        sum = sum + weights[i] as u128;
        i += 1;
    }
    let total: u128 = if sum > 1 {
        sum
    } else {
        1
    };
    proof {
        lemma_total_bounds(weights@, n as int);
    }
    let ghost raw = raw_shares(weights@);
    let mut result: Vec<u32> = Vec::new();
    let mut j: usize = 0;
    while j < n
        invariant
            n == weights@.len(),
            j <= n,
            total >= 1,
            total == if total_upto(weights@, n as int) > 1 {
                total_upto(weights@, n as int)
            } else {
                1
            },
            forall|i: int| 0 <= i < n ==> weights@[i] <= total,
            raw == raw_shares(weights@),
            result@ == raw.take(j as int),
        decreases n - j,
    {
        let w = weights[j] as u128;
        proof {
            lemma_share_bound(w as int, total as int);
        }
        let scaled: u128 = 100 * w;
        let q: u128 = scaled / total;
        let rem: u128 = scaled % total;
        let share: u128 = if rem >= total - rem {
            q + 1
        } else {
            q
        };
        assert(share == rounded_share(w as int, total as int));
        result.push(share as u32);
        assert(result@ =~= raw.take(j + 1));
        j += 1;
    }
    assert(result@ =~= raw);
    proof {
        assert forall|i: int| 0 <= i < raw.len() implies raw[i] <= 100 by {
            lemma_share_bound(weights@[i] as int, total as int);
        }
        lemma_percent_total_bounds(raw, n as int);
    }
    let mut got: u128 = 0;
    let mut k: usize = 0;
    while k < n
        invariant
            n == result@.len(),
            k <= n,
            result@ == raw,
            forall|i: int| 0 <= i < raw.len() ==> raw[i] <= 100,
            got == percent_total_upto(raw, k as int),
            got <= 100 * k,
        decreases n - k,
    {
        proof {
            lemma_percent_total_bounds(raw, k + 1);
        }
        got = got + result[k] as u128;
        k += 1;
    }
    let mut largest: usize = 0;
    let mut m: usize = 1;
    while m < n
        invariant
            n == weights@.len(),
            1 <= m <= n,
            largest == largest_upto(weights@, m as int),
            largest < m,
        decreases n - m,
    {
        if weights[m] >= weights[largest] {
            largest = m;
        }
        m += 1;
    }
    if got == 100 {
        return result;
    }
    if got < 100 {
        let bumped: u32 = result[largest] + (100 - got) as u32;
        result.set(largest, bumped);
    } else {
        let mut excess: u128 = got - 100;
        let current = result[largest] as u128;
        let cut = if current < excess {
            current
        } else {
            excess
        };
        result.set(largest, (current - cut) as u32);
        excess = excess - cut;
        let ghost start = result@;
        let ghost first_excess = excess as int;
        let mut i: usize = 0;
        while i < n && excess > 0
            invariant
                n == result@.len(),
                i <= n,
                take_excess(result@, excess as int, i as int) == take_excess(start, first_excess, 0),
            decreases n - i,
        {
            let value = result[i] as u128;
            let c = if value < excess {
                value
            } else {
                excess
            };
            result.set(i, (value - c) as u32);
            excess = excess - c;
            i += 1;
        }
    }
    result
}

/// Position of the last device with the most free memory (unknown counts as none).
pub open spec fn most_free_upto(ds: Seq<PerformanceDevice>, n: int) -> int
    decreases n,
{
    if n <= 1 {
        0
    } else if free_or_zero(ds[n - 1]) >= free_or_zero(ds[most_free_upto(ds, n - 1)]) {
        n - 1
    } else {
        most_free_upto(ds, n - 1)
    }
}

pub open spec fn free_or_zero(d: PerformanceDevice) -> u64 {
    match d.free_memory_mib {
        Some(f) => f,
        None => 0,
    }
}

/// The GPU that keeps intermediate work in row split: the one with the most free memory.
pub fn main_gpu_position(devices: &[PerformanceDevice]) -> (r: usize)
    ensures
        r == most_free_upto(devices@, devices@.len() as int),
{
    if devices.len() == 0 {
        return 0;
    }
    let mut best: usize = 0;
    let mut m: usize = 1;
    while m < devices.len()
        invariant
            1 <= m <= devices@.len(),
            best == most_free_upto(devices@, m as int),
            best < m,
        decreases devices.len() - m,
    {
        let current = match devices[m].free_memory_mib {
            Some(f) => f,
            None => 0,
        };
        let leader = match devices[best].free_memory_mib {
            Some(f) => f,
            None => 0,
        };
        if current >= leader {
            best = m;
        }
        m += 1;
    }
    best
}

/// The number a device id ends in, such as `1` in `CUDA1`.
pub open spec fn device_index_spec(id: Seq<char>) -> Option<u32> {
    let digits_start = digits_tail_start(id, id.len() as int);
    if digits_start < id.len() {
        parse_u32(id.skip(digits_start))
    } else {
        None
    }
}

/// Start of the run of ASCII digits that ends at `j`.
pub open spec fn digits_tail_start(id: Seq<char>, j: int) -> int
    decreases j,
{
    if j <= 0 || j > id.len() || !is_digit(id[j - 1]) {
        j
    } else {
        digits_tail_start(id, j - 1)
    }
}

pub fn device_index(id: &[char]) -> (r: Option<u32>)
    ensures
        r == device_index_spec(id@),
{
    let mut start: usize = id.len();
    while start > 0 && crate::text::is_ascii_digit(id[start - 1])
        invariant
            start <= id@.len(),
            digits_tail_start(id@, id@.len() as int) == digits_tail_start(id@, start as int),
        decreases start,
    {
        start -= 1;
    }
    if start < id.len() {
        let tail = crate::text::copy_range(id, start, id.len());
        assert(tail@ =~= id@.skip(start as int));
        parse_u32_exec(tail.as_slice())
    } else {
        None
    }
}

// ---------------------------------------------------------------------------------------------
// Devices
// ---------------------------------------------------------------------------------------------

/// The device as plain values, before its split is known.
pub struct DeviceModel {
    pub id: Seq<char>,
    pub name: Seq<char>,
    pub total_memory_mib: Option<u64>,
    pub free_memory_mib: Option<u64>,
}

/// Index of the first GPU at or after `i` with hardware index `index`.
pub open spec fn gpu_with_index(gpus: Seq<GpuInfo>, index: u32, i: int) -> int
    decreases gpus.len() - i,
{
    if i < 0 || i >= gpus.len() {
        gpus.len() as int
    } else if gpus[i].index == index {
        i
    } else {
        gpu_with_index(gpus, index, i + 1)
    }
}

/// The hardware GPU a runtime device is: the one whose index the device id ends in, else the
/// one at the same position.
pub open spec fn matching_gpu(gpus: Seq<GpuInfo>, d: LlamaDevice, position: int) -> Option<GpuInfo> {
    let by_index = match device_index_spec(d.id@) {
        Some(ix) => {
            let k = gpu_with_index(gpus, ix, 0);
            if k < gpus.len() {
                Some(gpus[k])
            } else {
                None
            }
        },
        None => None,
    };
    match by_index {
        Some(g) => Some(g),
        None => if 0 <= position < gpus.len() {
            Some(gpus[position])
        } else {
            None
        },
    }
}

/// A runtime device completed with what the hardware reports: the hardware's memory figures
/// win, and a blank runtime name falls back to the hardware name, then to the id.
pub open spec fn device_spec(d: LlamaDevice, hardware: Option<GpuInfo>) -> DeviceModel {
    DeviceModel {
        id: d.id@,
        name: if crate::text::trim(d.name@).len() == 0 {
            match hardware {
                Some(g) => g.name@,
                None => d.id@,
            }
        } else {
            d.name@
        },
        total_memory_mib: match hardware {
            Some(g) => Some(g.total_memory_mib),
            None => d.memory_total_mib,
        },
        free_memory_mib: match hardware {
            Some(g) => Some(g.free_memory_mib),
            None => d.memory_free_mib,
        },
    }
}

/// The planned devices' weights: usable memory, at least one MiB.
pub open spec fn device_weights(ds: Seq<DeviceModel>) -> Seq<u64> {
    Seq::new(ds.len(), |i: int| usable_memory_spec(ds[i].total_memory_mib, ds[i].free_memory_mib))
}

pub open spec fn planned_devices(runtime: Seq<LlamaDevice>, gpus: Seq<GpuInfo>) -> Seq<DeviceModel> {
    Seq::new(runtime.len(), |i: int| device_spec(runtime[i], matching_gpu(gpus, runtime[i], i)))
}

/// The exec device agrees with the model and split.
pub open spec fn device_agrees(d: PerformanceDevice, m: DeviceModel, split: u32) -> bool {
    &&& d.id@ == m.id
    &&& d.name@ == m.name
    &&& d.total_memory_mib == m.total_memory_mib
    &&& d.free_memory_mib == m.free_memory_mib
    &&& d.split_percent == split
}

fn find_gpu(gpus: &[GpuInfo], index: u32) -> (r: usize)
    ensures
        r == gpu_with_index(gpus@, index, 0),
{
    let mut i: usize = 0;
    while i < gpus.len()
        invariant
            i <= gpus@.len(),
            gpu_with_index(gpus@, index, 0) == gpu_with_index(gpus@, index, i as int),
        decreases gpus.len() - i,
    {
        if gpus[i].index == index {
            return i;
        }
        i += 1;
    }
    i
}

fn hardware_for(gpus: &[GpuInfo], d: &LlamaDevice, position: usize) -> (r: Option<usize>)
    ensures
        match (r, matching_gpu(gpus@, *d, position as int)) {
            (Some(k), Some(g)) => k < gpus@.len() && gpus@[k as int] == g,
            (None, None) => true,
            _ => false,
        },
{
    let id = chars_of(d.id.as_str());
    match device_index(id.as_slice()) {
        Some(ix) => {
            let k = find_gpu(gpus, ix);
            if k < gpus.len() {
                return Some(k);
            }
        },
        None => {},
    }
    if position < gpus.len() {
        Some(position)
    } else {
        None
    }
}

/// The runtime's devices completed with hardware figures and weighted by usable memory.
pub fn performance_devices(runtime_devices: &[LlamaDevice], hardware_gpus: &[GpuInfo]) -> (r: Vec<
    PerformanceDevice,
>)
    ensures
        r@.len() == runtime_devices@.len(),
        forall|i: int|
            0 <= i < r@.len() ==> device_agrees(
                #[trigger] r@[i],
                planned_devices(runtime_devices@, hardware_gpus@)[i],
                percentages_spec(device_weights(planned_devices(runtime_devices@, hardware_gpus@)))[i],
            ),
{
    let ghost planned = planned_devices(runtime_devices@, hardware_gpus@);
    let mut devices: Vec<PerformanceDevice> = Vec::new();
    let mut weights: Vec<u64> = Vec::new();
    let mut i: usize = 0;
    while i < runtime_devices.len()
        invariant
            i <= runtime_devices@.len(),
            planned == planned_devices(runtime_devices@, hardware_gpus@),
            devices@.len() == i,
            weights@ == device_weights(planned).take(i as int),
            forall|j: int| 0 <= j < i ==> device_agrees(#[trigger] devices@[j], planned[j], 0),
        decreases runtime_devices.len() - i,
    {
        let d = &runtime_devices[i];
        let hw = hardware_for(hardware_gpus, d, i);
        let blank = crate::text::is_blank(chars_of(d.name.as_str()).as_slice());
        let name = if blank {
            match hw {
                Some(k) => hardware_gpus[k].name.clone(),
                None => d.id.clone(),
            }
        } else {
            d.name.clone()
        };
        let total = match hw {
            Some(k) => Some(hardware_gpus[k].total_memory_mib),
            None => d.memory_total_mib,
        };
        let free = match hw {
            Some(k) => Some(hardware_gpus[k].free_memory_mib),
            None => d.memory_free_mib,
        };
        let device = PerformanceDevice { id: d.id.clone(), name, total_memory_mib: total, free_memory_mib: free, split_percent: 0 };
        assert(device_agrees(device, planned[i as int], 0));
        weights.push(usable_memory(total, free));
        assert(weights@ =~= device_weights(planned).take(i + 1));
        devices.push(device);
        i += 1;
    }
    assert(weights@ =~= device_weights(planned));
    let shares = percentages(weights.as_slice());
    assert(shares@.len() == devices@.len()) by {
        assert(planned.len() == runtime_devices@.len());
        assert(weights@.len() == planned.len());
        if weights@.len() > 0 {
            percentages_sum_to_one_hundred(weights@);
        }
    }
    let mut out: Vec<PerformanceDevice> = Vec::new();
    let mut j: usize = 0;
    while j < devices.len()
        invariant
            j <= devices@.len(),
            shares@.len() == devices@.len(),
            shares@ == percentages_spec(device_weights(planned)),
            devices@.len() == planned.len(),
            forall|k: int| 0 <= k < devices@.len() ==> device_agrees(#[trigger] devices@[k], planned[k], 0),
            out@.len() == j,
            forall|k: int| 0 <= k < j ==> device_agrees(#[trigger] out@[k], planned[k], shares@[k]),
        decreases devices.len() - j,
    {
        let d = &devices[j];
        assert(device_agrees(devices@[j as int], planned[j as int], 0));
        out.push(
            PerformanceDevice {
                id: d.id.clone(),
                name: d.name.clone(),
                total_memory_mib: d.total_memory_mib,
                free_memory_mib: d.free_memory_mib,
                split_percent: shares[j],
            },
        );
        j += 1;
    }
    out
}

// ---------------------------------------------------------------------------------------------
// What the runtime supports
// ---------------------------------------------------------------------------------------------

/// Index, in flag order, of the first option that maps onto the concept `key`.
pub open spec fn known_key_index(entries: Seq<(String, LlamaOption)>, key: Seq<char>, i: int) -> int
    decreases entries.len() - i,
{
    if i < 0 || i >= entries.len() {
        entries.len() as int
    } else if opt_text(entries[i].1.known_key) == Some(key) {
        i
    } else {
        known_key_index(entries, key, i + 1)
    }
}

/// The runtime advertises a flag for the concept `key`.
pub open spec fn supports_spec(caps: LlamaCapabilities, key: Seq<char>) -> bool {
    known_key_index(caps.options.entries@, key, 0) < caps.options.entries@.len()
}

fn known_key_position(caps: &LlamaCapabilities, key: &str) -> (r: usize)
    ensures
        r == known_key_index(caps.options.entries@, key@, 0),
{
    let k = chars_of(key);
    let entries = &caps.options.entries;
    let mut i: usize = 0;
    while i < entries.len()
        invariant
            i <= entries@.len(),
            k@ == key@,
            entries@ == caps.options.entries@,
            known_key_index(entries@, key@, 0) == known_key_index(entries@, key@, i as int),
        decreases entries.len() - i,
    {
        let hit = match &entries[i].1.known_key {
            Some(known) => crate::text::chars_equal(chars_of(known.as_str()).as_slice(), k.as_slice()),
            None => false,
        };
        assert(hit == (opt_text(entries@[i as int].1.known_key) == Some(key@)));
        if hit {
            return i;
        }
        i += 1;
    }
    i
}

fn supports(caps: &LlamaCapabilities, key: &str) -> (r: bool)
    ensures
        r == supports_spec(*caps, key@),
{
    known_key_position(caps, key) < caps.options.entries.len()
}

/// The choices among `none`, `layer`, `row` and `tensor` a value such as `{none,layer,row}`
/// lists: separated by commas or bars, each the first word of its piece, stripped of punctuation
/// and lower-cased.
pub open spec fn choice_pieces(value: Seq<char>) -> Seq<Seq<char>> {
    let inner = crate::text::trim_class(crate::text::trim(value), CharClass::Bracket);
    split(Seq::new(inner.len(), |i: int| if inner[i] == '|' { ',' } else { inner[i] }), ',')
}

/// The choice a piece names, if any.
pub open spec fn piece_choice(piece: Seq<char>) -> Option<Seq<char>> {
    match crate::text::first_word(piece) {
        Some(w) => {
            let c = crate::text::ascii_lower(crate::text::trim_non_alnum(w));
            if c == "none"@ || c == "layer"@ || c == "row"@ || c == "tensor"@ {
                Some(c)
            } else {
                None
            }
        },
        None => None,
    }
}

/// The value lists the split mode `name`.
pub open spec fn lists_choice(value: Seq<char>, name: Seq<char>) -> bool {
    exists|i: int| 0 <= i < choice_pieces(value).len() && #[trigger] piece_choice(choice_pieces(value)[i]) == Some(name)
}

fn split_on_bars_and_commas(s: &[char]) -> (r: Vec<Vec<char>>)
    ensures
        views(r@) == split(Seq::new(s@.len(), |i: int| if s@[i] == '|' { ',' } else { s@[i] }), ','),
{
    let mut mapped: Vec<char> = Vec::new();
    let mut i: usize = 0;
    while i < s.len()
        invariant
            i <= s@.len(),
            mapped@ == Seq::new(i as nat, |k: int| if s@[k] == '|' { ',' } else { s@[k] }),
        decreases s.len() - i,
    {
        mapped.push(if s[i] == '|' { ',' } else { s[i] });
        i += 1;
        assert(mapped@ =~= Seq::new(i as nat, |k: int| if s@[k] == '|' { ',' } else { s@[k] }));
    }
    split_exec(mapped.as_slice(), ',')
}

fn piece_choice_exec(piece: &[char]) -> (r: Option<Vec<char>>)
    ensures
        match r {
            Some(c) => piece_choice(piece@) == Some(c@),
            None => piece_choice(piece@) is None,
        },
{
    let ws = crate::text::words_exec(piece);
    if ws.len() == 0 {
        return None;
    }
    assert(ws@[0]@ == crate::text::words(piece@)[0]);
    let c = crate::text::lower_all(crate::text::trim_non_alnum_exec(ws[0].as_slice()).as_slice());
    let t = c.as_slice();
    if crate::text::chars_equal(t, lit("none").as_slice()) || crate::text::chars_equal(t, lit("layer").as_slice())
        || crate::text::chars_equal(t, lit("row").as_slice()) || crate::text::chars_equal(t, lit("tensor").as_slice()) {
        Some(c)
    } else {
        None
    }
}

/// Which of the four split modes a value lists.
pub struct ModeSet {
    pub none: bool,
    pub layer: bool,
    pub row: bool,
    pub tensor: bool,
}

fn choices_in(value: &[char], modes: &mut ModeSet)
    ensures
        final(modes).none == (old(modes).none || lists_choice(value@, "none"@)),
        final(modes).layer == (old(modes).layer || lists_choice(value@, "layer"@)),
        final(modes).row == (old(modes).row || lists_choice(value@, "row"@)),
        final(modes).tensor == (old(modes).tensor || lists_choice(value@, "tensor"@)),
{
    let trimmed_value = crate::text::trimmed(value);
    let inner = crate::text::trim_class_exec(trimmed_value.as_slice(), CharClass::Bracket);
    let pieces = split_on_bars_and_commas(inner.as_slice());
    let ghost ps = choice_pieces(value@);
    assert(views(pieces@) == ps);
    let ghost start = *modes;
    let mut i: usize = 0;
    while i < pieces.len()
        invariant
            i <= pieces@.len(),
            views(pieces@) == ps,
            modes.none == (start.none || exists|j: int| 0 <= j < i && #[trigger] piece_choice(ps[j]) == Some("none"@)),
            modes.layer == (start.layer || exists|j: int| 0 <= j < i && #[trigger] piece_choice(ps[j]) == Some("layer"@)),
            modes.row == (start.row || exists|j: int| 0 <= j < i && #[trigger] piece_choice(ps[j]) == Some("row"@)),
            modes.tensor == (start.tensor || exists|j: int| 0 <= j < i && #[trigger] piece_choice(ps[j]) == Some("tensor"@)),
        decreases pieces.len() - i,
    {
        assert(pieces@[i as int]@ == ps[i as int]);
        match piece_choice_exec(pieces[i].as_slice()) {
            Some(c) => {
                let t = c.as_slice();
                if crate::text::chars_equal(t, lit("none").as_slice()) {
                    modes.none = true;
                }
                if crate::text::chars_equal(t, lit("layer").as_slice()) {
                    modes.layer = true;
                }
                if crate::text::chars_equal(t, lit("row").as_slice()) {
                    modes.row = true;
                }
                if crate::text::chars_equal(t, lit("tensor").as_slice()) {
                    modes.tensor = true;
                }
            },
            None => {},
        }
        i += 1;
    }
}

/// One description line lists `name` after an `allowed values:` or `one of:` marker.
pub open spec fn line_lists(line: Seq<char>, name: Seq<char>) -> bool {
    let lower = crate::text::ascii_lower(line);
    (match crate::text::split_once_seq(lower, "allowed values:"@) {
        Some((_, v)) => lists_choice(v, name),
        None => false,
    }) || (match crate::text::split_once_seq(lower, "one of:"@) {
        Some((_, v)) => lists_choice(v, name),
        None => false,
    })
}

/// The option lists the split mode `name`, in its value hint or its description.
pub open spec fn option_lists(o: LlamaOption, name: Seq<char>) -> bool {
    (match opt_text(o.value_hint) {
        Some(h) => lists_choice(h, name),
        None => false,
    }) || exists|l: int|
        0 <= l < crate::text::lines(o.description@).len() && line_lists(
            #[trigger] crate::text::lines(o.description@)[l],
            name,
        )
}

/// The split modes the runtime's split-mode option lists.
pub open spec fn mode_listed(caps: LlamaCapabilities, name: Seq<char>) -> bool {
    let k = known_key_index(caps.options.entries@, "splitMode"@, 0);
    k < caps.options.entries@.len() && option_lists(caps.options.entries@[k].1, name)
}

fn line_choices(line: &[char], modes: &mut ModeSet)
    ensures
        final(modes).none == (old(modes).none || line_lists(line@, "none"@)),
        final(modes).layer == (old(modes).layer || line_lists(line@, "layer"@)),
        final(modes).row == (old(modes).row || line_lists(line@, "row"@)),
        final(modes).tensor == (old(modes).tensor || line_lists(line@, "tensor"@)),
{
    let lower = crate::text::lower_all(line);
    match crate::text::split_once_seq_exec(lower.as_slice(), lit("allowed values:").as_slice()) {
        Some((_, v)) => choices_in(v.as_slice(), modes),
        None => {},
    }
    match crate::text::split_once_seq_exec(lower.as_slice(), lit("one of:").as_slice()) {
        Some((_, v)) => choices_in(v.as_slice(), modes),
        None => {},
    }
}

/// Which split modes the runtime lists for its split-mode option.
pub fn split_modes(caps: &LlamaCapabilities) -> (m: ModeSet)
    ensures
        m.none == mode_listed(*caps, "none"@),
        m.layer == mode_listed(*caps, "layer"@),
        m.row == mode_listed(*caps, "row"@),
        m.tensor == mode_listed(*caps, "tensor"@),
{
    let mut modes = ModeSet { none: false, layer: false, row: false, tensor: false };
    let k = known_key_position(caps, "splitMode");
    if k >= caps.options.entries.len() {
        return modes;
    }
    let option = &caps.options.entries[k].1;
    if let Some(hint) = &option.value_hint {
        choices_in(chars_of(hint.as_str()).as_slice(), &mut modes);
    }
    let ghost after_hint = modes;
    let description = chars_of(option.description.as_str());
    let all = crate::text::lines_exec(description.as_slice());
    let ghost ls = crate::text::lines(option.description@);
    let mut i: usize = 0;
    while i < all.len()
        invariant
            i <= all@.len(),
            views(all@) == ls,
            modes.none == (after_hint.none || exists|l: int| 0 <= l < i && line_lists(#[trigger] ls[l], "none"@)),
            modes.layer == (after_hint.layer || exists|l: int| 0 <= l < i && line_lists(#[trigger] ls[l], "layer"@)),
            modes.row == (after_hint.row || exists|l: int| 0 <= l < i && line_lists(#[trigger] ls[l], "row"@)),
            modes.tensor == (after_hint.tensor || exists|l: int| 0 <= l < i && line_lists(#[trigger] ls[l], "tensor"@)),
        decreases all.len() - i,
    {
        assert(all@[i as int]@ == ls[i as int]);
        line_choices(all[i].as_slice(), &mut modes);
        i += 1;
    }
    modes
}

/// A non-quantized KV cache type the option mentions, preferring `f16`, then `bf16`, then
/// `f32`.
pub open spec fn cache_type_spec(caps: LlamaCapabilities, key: Seq<char>) -> Option<Seq<char>> {
    let k = known_key_index(caps.options.entries@, key, 0);
    if k >= caps.options.entries@.len() {
        None
    } else {
        let o = caps.options.entries@[k].1;
        let combined = crate::text::ascii_lower(
            match opt_text(o.value_hint) {
                Some(h) => h,
                None => seq![],
            } + seq![' '] + o.description@,
        );
        if crate::text::contains(combined, "f16"@) {
            Some("f16"@)
        } else if crate::text::contains(combined, "bf16"@) {
            Some("bf16"@)
        } else if crate::text::contains(combined, "f32"@) {
            Some("f32"@)
        } else {
            None
        }
    }
}

fn cache_type(caps: &LlamaCapabilities, key: &str) -> (r: Option<&'static str>)
    ensures
        match r {
            Some(t) => cache_type_spec(*caps, key@) == Some(t@),
            None => cache_type_spec(*caps, key@) is None,
        },
{
    let k = known_key_position(caps, key);
    if k >= caps.options.entries.len() {
        return None;
    }
    let option = &caps.options.entries[k].1;
    let mut combined: Vec<char> = match &option.value_hint {
        Some(h) => chars_of(h.as_str()),
        None => Vec::new(),
    };
    let ghost head = combined@;
    assert(head == match opt_text(option.value_hint) {
        Some(h) => h,
        None => seq![],
    });
    combined.push(' ');
    crate::text::append_chars(&mut combined, chars_of(option.description.as_str()).as_slice());
    assert(combined@ =~= head + seq![' '] + option.description@);
    assert(option == caps.options.entries@[k as int].1);
    let lower = crate::text::lower_all(combined.as_slice());
    if crate::text::contains_exec(lower.as_slice(), lit("f16").as_slice()) {
        Some("f16")
    } else if crate::text::contains_exec(lower.as_slice(), lit("bf16").as_slice()) {
        Some("bf16")
    } else if crate::text::contains_exec(lower.as_slice(), lit("f32").as_slice()) {
        Some("f32")
    } else {
        None
    }
}

// ---------------------------------------------------------------------------------------------
// Candidates
// ---------------------------------------------------------------------------------------------

/// The option map holds exactly these explicit values.
pub open spec fn settings_match(m: TextMap<ProfileOptionSetting>, spec: Map<Seq<char>, Seq<char>>) -> bool {
    forall|q: Seq<char>|
        match #[trigger] m.value_of(q) {
            Some(s) => spec.contains_key(q) && s@ == SettingModel::Custom(spec[q]),
            None => !spec.contains_key(q),
        }
}

/// A candidate as plain values.
pub struct CandidateModel {
    pub id: Seq<char>,
    pub label: Seq<char>,
    pub description: Seq<char>,
    pub split_mode: Seq<char>,
    pub experimental: bool,
    pub options: Map<Seq<char>, Seq<char>>,
    pub reasons: Seq<Seq<char>>,
    pub warnings: Seq<Seq<char>>,
}

pub open spec fn candidate_agrees(c: PerformanceCandidate, m: CandidateModel) -> bool {
    &&& c.id@ == m.id
    &&& c.label@ == m.label
    &&& c.description@ == m.description
    &&& c.split_mode@ == m.split_mode
    &&& c.experimental == m.experimental
    &&& c.options.wf()
    &&& settings_match(c.options, m.options)
    &&& crate::text::texts(c.reasons@) == m.reasons
    &&& crate::text::texts(c.warnings@) == m.warnings
}

/// The device ids, comma-separated.
pub open spec fn device_value(ds: Seq<PerformanceDevice>) -> Seq<char> {
    crate::text::join(Seq::new(ds.len(), |i: int| ds[i].id@), ',')
}

/// The split percentages, comma-separated.
pub open spec fn split_value(ds: Seq<PerformanceDevice>) -> Seq<char> {
    crate::text::join(Seq::new(ds.len(), |i: int| decimal_text(ds[i].split_percent as nat)), ',')
}

/// `m` with `key` set to `value` when the runtime supports the concept.
pub open spec fn with_supported(
    caps: LlamaCapabilities,
    m: Map<Seq<char>, Seq<char>>,
    key: Seq<char>,
    value: Seq<char>,
) -> Map<Seq<char>, Seq<char>> {
    if supports_spec(caps, key) {
        m.insert(key, value)
    } else {
        m
    }
}

/// The options every candidate shares: the devices, full offload, the VRAM-weighted tensor
/// split on several GPUs, and flash attention, each when the runtime supports it.
pub open spec fn common_options(caps: LlamaCapabilities, ds: Seq<PerformanceDevice>) -> Map<Seq<char>, Seq<char>> {
    let m0 = Map::<Seq<char>, Seq<char>>::empty().insert("device"@, device_value(ds));
    let m1 = with_supported(caps, m0, "gpuLayers"@, "all"@);
    let m2 = if ds.len() > 1 {
        with_supported(caps, m1, "tensorSplit"@, split_value(ds))
    } else {
        m1
    };
    with_supported(caps, m2, "flashAttention"@, "true"@)
}

/// `m` with a non-quantized cache type for `key`, when the runtime mentions one.
pub open spec fn with_cache_type(caps: LlamaCapabilities, m: Map<Seq<char>, Seq<char>>, key: Seq<char>) -> Map<
    Seq<char>,
    Seq<char>,
> {
    match cache_type_spec(caps, key) {
        Some(t) => m.insert(key, t),
        None => m,
    }
}

pub open spec fn single_candidate(caps: LlamaCapabilities, ds: Seq<PerformanceDevice>) -> CandidateModel {
    CandidateModel {
        id: "single-gpu"@,
        label: "Single GPU baseline"@,
        description: "Offload the model to the detected accelerator and keep a repeatable baseline."@,
        split_mode: "none"@,
        experimental: false,
        options: if mode_listed(caps, "none"@) {
            common_options(caps, ds).insert("splitMode"@, "none"@)
        } else {
            common_options(caps, ds)
        },
        reasons: seq!["The runtime reported one usable accelerator."@],
        warnings: seq![],
    }
}

pub open spec fn layer_candidate(caps: LlamaCapabilities, ds: Seq<PerformanceDevice>) -> CandidateModel {
    CandidateModel {
        id: "all-gpus-layer"@,
        label: "All GPUs \u{b7} layer split"@,
        description: "Distribute model layers across every detected GPU in proportion to usable VRAM."@,
        split_mode: "layer"@,
        experimental: false,
        options: with_supported(caps, common_options(caps, ds), "splitMode"@, "layer"@),
        reasons: seq![
            "Uses every accelerator reported by this exact runtime."@,
            "VRAM-weighted placement starts at "@ + split_value(ds) + "."@,
            "Layer split is the safest multi-GPU baseline before measuring row or tensor modes."@,
        ],
        warnings: seq![],
    }
}

pub open spec fn row_candidate(caps: LlamaCapabilities, ds: Seq<PerformanceDevice>) -> CandidateModel {
    CandidateModel {
        id: "all-gpus-row"@,
        label: "All GPUs \u{b7} row split"@,
        description: "Split tensor rows between GPUs and keep intermediate work on the GPU with the most usable memory."@,
        split_mode: "row"@,
        experimental: false,
        options: with_supported(
            caps,
            common_options(caps, ds).insert("splitMode"@, "row"@),
            "mainGpu"@,
            decimal_text(most_free_upto(ds, ds.len() as int) as nat),
        ),
        reasons: seq![
            "Can improve parallel work when the PCIe topology and GPU pair are well matched."@,
            "Must be benchmarked against layer split on this machine."@,
        ],
        warnings: seq!["Row split can lose to layer split when inter-GPU traffic is expensive."@],
    }
}

pub open spec fn tensor_candidate(caps: LlamaCapabilities, ds: Seq<PerformanceDevice>) -> CandidateModel {
    let m1 = common_options(caps, ds).insert("splitMode"@, "tensor"@);
    let m2 = with_supported(caps, m1, "fit"@, "false"@);
    let m3 = with_supported(caps, m2, "kvCacheOffload"@, "true"@);
    let m4 = with_cache_type(caps, m3, "kvCacheTypeK"@);
    CandidateModel {
        id: "all-gpus-tensor"@,
        label: "All GPUs \u{b7} tensor parallel"@,
        description: "Use the runtime's experimental tensor-parallel path across all GPUs."@,
        split_mode: "tensor"@,
        experimental: true,
        options: with_cache_type(caps, m4, "kvCacheTypeV"@),
        reasons: seq![
            "Offers the strongest cross-GPU parallelism when the model architecture and backend support it."@,
            "The runtime explicitly advertises tensor mode."@,
        ],
        warnings: seq![
            "Requires Flash Attention and non-quantized KV cache, and may fail for unsupported model architectures."@,
            "Automatic memory fitting is disabled for this candidate."@,
        ],
    }
}

/// The candidates for the devices: none without devices or a device flag; one baseline for a
/// single GPU; else layer split (the safe baseline, offered unless the runtime lists split modes
/// without it), then row split and tensor parallelism where the runtime lists them.
pub open spec fn candidates_spec(caps: LlamaCapabilities, ds: Seq<PerformanceDevice>) -> Seq<CandidateModel> {
    if ds.len() == 0 || !supports_spec(caps, "device"@) {
        seq![]
    } else if ds.len() == 1 {
        seq![single_candidate(caps, ds)]
    } else {
        let no_modes = !mode_listed(caps, "none"@) && !mode_listed(caps, "layer"@) && !mode_listed(
            caps,
            "row"@,
        ) && !mode_listed(caps, "tensor"@);
        (if no_modes || mode_listed(caps, "layer"@) {
            seq![layer_candidate(caps, ds)]
        } else {
            seq![]
        }) + (if mode_listed(caps, "row"@) {
            seq![row_candidate(caps, ds)]
        } else {
            seq![]
        }) + (if mode_listed(caps, "tensor"@) {
            seq![tensor_candidate(caps, ds)]
        } else {
            seq![]
        })
    }
}

fn put(m: &mut TextMap<ProfileOptionSetting>, spec: Ghost<Map<Seq<char>, Seq<char>>>, key: &str, value: &str) -> (r: Ghost<Map<Seq<char>, Seq<char>>>)
    requires
        old(m).wf(),
        settings_match(*old(m), spec@),
    ensures
        final(m).wf(),
        r@ == spec@.insert(key@, value@),
        settings_match(*final(m), r@),
{
    m.insert(key.to_string(), custom(value));
    let ghost next = spec@.insert(key@, value@);
    assert forall|q: Seq<char>|
        match #[trigger] m.value_of(q) {
            Some(s) => next.contains_key(q) && s@ == SettingModel::Custom(next[q]),
            None => !next.contains_key(q),
        } by {
        assert(old(m).value_of(q) == old(m).value_of(q));
    }
    Ghost(next)
}

fn put_if_supported(
    caps: &LlamaCapabilities,
    m: &mut TextMap<ProfileOptionSetting>,
    spec: Ghost<Map<Seq<char>, Seq<char>>>,
    key: &str,
    value: &str,
) -> (r: Ghost<Map<Seq<char>, Seq<char>>>)
    requires
        old(m).wf(),
        settings_match(*old(m), spec@),
    ensures
        final(m).wf(),
        r@ == with_supported(*caps, spec@, key@, value@),
        settings_match(*final(m), r@),
{
    if supports(caps, key) {
        put(m, spec, key, value)
    } else {
        spec
    }
}

fn join_ids(devices: &[PerformanceDevice]) -> (r: String)
    ensures
        r@ == device_value(devices@),
{
    let mut parts: Vec<Vec<char>> = Vec::new();
    let mut i: usize = 0;
    while i < devices.len()
        invariant
            i <= devices@.len(),
            views(parts@) == Seq::new(devices@.len(), |k: int| devices@[k].id@).take(i as int),
        decreases devices.len() - i,
    {
        let c = chars_of(devices[i].id.as_str());
        proof {
            crate::text::lemma_views_push(parts@, c);
        }
        parts.push(c);
        assert(views(parts@) =~= Seq::new(devices@.len(), |k: int| devices@[k].id@).take(i + 1));
        i += 1;
    }
    assert(Seq::new(devices@.len(), |k: int| devices@[k].id@).take(devices@.len() as int) =~= Seq::new(devices@.len(), |k: int| devices@[k].id@));
    string_of(crate::text::join_exec(&parts, ',').as_slice())
}

fn join_splits(devices: &[PerformanceDevice]) -> (r: String)
    ensures
        r@ == split_value(devices@),
{
    let ghost want = Seq::new(devices@.len(), |k: int| decimal_text(devices@[k].split_percent as nat));
    let mut parts: Vec<Vec<char>> = Vec::new();
    let mut i: usize = 0;
    while i < devices.len()
        invariant
            i <= devices@.len(),
            want == Seq::new(devices@.len(), |k: int| decimal_text(devices@[k].split_percent as nat)),
            views(parts@) == want.take(i as int),
        decreases devices.len() - i,
    {
        let mut c: Vec<char> = Vec::new();
        crate::text::push_decimal(&mut c, devices[i].split_percent as u64);
        assert(c@ =~= decimal_text(devices@[i as int].split_percent as nat));
        proof {
            crate::text::lemma_views_push(parts@, c);
        }
        parts.push(c);
        assert(views(parts@) =~= want.take(i + 1));
        i += 1;
    }
    assert(want.take(devices@.len() as int) =~= want);
    string_of(crate::text::join_exec(&parts, ',').as_slice())
}

fn common_options_exec(caps: &LlamaCapabilities, devices: &[PerformanceDevice]) -> (r: TextMap<ProfileOptionSetting>)
    ensures
        r.wf(),
        settings_match(r, common_options(*caps, devices@)),
{
    let mut m: TextMap<ProfileOptionSetting> = TextMap::new();
    let ghost empty = Map::<Seq<char>, Seq<char>>::empty();
    assert(settings_match(m, empty)) by {
        assert forall|q: Seq<char>|
            match #[trigger] m.value_of(q) {
                Some(s) => empty.contains_key(q) && s@ == SettingModel::Custom(empty[q]),
                None => !empty.contains_key(q),
            } by {
            crate::text_map::lemma_entry_value(m.entries@, q);
        }
    }
    let ids = join_ids(devices);
    let g = put(&mut m, Ghost(empty), "device", ids.as_str());
    let g = put_if_supported(caps, &mut m, g, "gpuLayers", "all");
    let g = if devices.len() > 1 {
        let splits = join_splits(devices);
        put_if_supported(caps, &mut m, g, "tensorSplit", splits.as_str())
    } else {
        g
    };
    let g = put_if_supported(caps, &mut m, g, "flashAttention", "true");
    assert(g@ == common_options(*caps, devices@));
    m
}

fn text_list(items: &[&str]) -> (r: Vec<String>)
    ensures
        crate::text::texts(r@) == Seq::new(items@.len(), |i: int| items@[i]@),
{
    let mut out: Vec<String> = Vec::new();
    let mut i: usize = 0;
    while i < items.len()
        invariant
            i <= items@.len(),
            crate::text::texts(out@) == Seq::new(items@.len(), |k: int| items@[k]@).take(i as int),
        decreases items.len() - i,
    {
        let s = items[i].to_string();
        let ghost before = out@;
        out.push(s);
        proof {
            crate::text::lemma_texts_push(before, s);
            assert(crate::text::texts(out@) =~= Seq::new(items@.len(), |k: int| items@[k]@).take(i + 1));
        }
        i += 1;
    }
    assert(Seq::new(items@.len(), |k: int| items@[k]@).take(items@.len() as int) =~= Seq::new(items@.len(), |k: int| items@[k]@));
    out
}

fn single_exec(caps: &LlamaCapabilities, devices: &[PerformanceDevice], modes: &ModeSet) -> (c: PerformanceCandidate)
    requires
        modes.none == mode_listed(*caps, "none"@),
    ensures
        candidate_agrees(c, single_candidate(*caps, devices@)),
{
    let mut options = common_options_exec(caps, devices);
    let ghost g0 = common_options(*caps, devices@);
    if modes.none {
        put(&mut options, Ghost(g0), "splitMode", "none");
    }
    let reasons = text_list(&["The runtime reported one usable accelerator."]);
    let warnings = text_list(&[]);
    assert(crate::text::texts(reasons@) =~= seq!["The runtime reported one usable accelerator."@]);
    assert(crate::text::texts(warnings@) =~= seq![]);
    PerformanceCandidate {
        id: "single-gpu".to_string(),
        label: "Single GPU baseline".to_string(),
        description: "Offload the model to the detected accelerator and keep a repeatable baseline.".to_string(),
        split_mode: "none".to_string(),
        experimental: false,
        options,
        reasons,
        warnings,
    }
}

fn layer_exec(caps: &LlamaCapabilities, devices: &[PerformanceDevice]) -> (c: PerformanceCandidate)
    ensures
        candidate_agrees(c, layer_candidate(*caps, devices@)),
{
    let mut options = common_options_exec(caps, devices);
    let ghost g0 = common_options(*caps, devices@);
    put_if_supported(caps, &mut options, Ghost(g0), "splitMode", "layer");
    let splits = join_splits(devices);
    let placement = crate::text::concat_text(
        crate::text::concat_text("VRAM-weighted placement starts at ", splits.as_str()).as_str(),
        ".",
    );
    let mut reasons: Vec<String> = Vec::new();
    reasons.push("Uses every accelerator reported by this exact runtime.".to_string());
    reasons.push(placement);
    reasons.push("Layer split is the safest multi-GPU baseline before measuring row or tensor modes.".to_string());
    assert(crate::text::texts(reasons@) =~= layer_candidate(*caps, devices@).reasons);
    let warnings = text_list(&[]);
    assert(crate::text::texts(warnings@) =~= seq![]);
    PerformanceCandidate {
        id: "all-gpus-layer".to_string(),
        label: "All GPUs \u{b7} layer split".to_string(),
        description: "Distribute model layers across every detected GPU in proportion to usable VRAM.".to_string(),
        split_mode: "layer".to_string(),
        experimental: false,
        options,
        reasons,
        warnings,
    }
}

fn row_exec(caps: &LlamaCapabilities, devices: &[PerformanceDevice]) -> (c: PerformanceCandidate)
    ensures
        candidate_agrees(c, row_candidate(*caps, devices@)),
{
    let mut options = common_options_exec(caps, devices);
    let ghost g0 = common_options(*caps, devices@);
    let g1 = put(&mut options, Ghost(g0), "splitMode", "row");
    let main = main_gpu_position(devices);
    let mut digits: Vec<char> = Vec::new();
    crate::text::push_decimal(&mut digits, main as u64);
    assert(digits@ =~= decimal_text(most_free_upto(devices@, devices@.len() as int) as nat));
    let position = string_of(digits.as_slice());
    put_if_supported(caps, &mut options, g1, "mainGpu", position.as_str());
    let reasons = text_list(
        &[
            "Can improve parallel work when the PCIe topology and GPU pair are well matched.",
            "Must be benchmarked against layer split on this machine.",
        ],
    );
    let warnings = text_list(&["Row split can lose to layer split when inter-GPU traffic is expensive."]);
    assert(crate::text::texts(reasons@) =~= row_candidate(*caps, devices@).reasons);
    assert(crate::text::texts(warnings@) =~= row_candidate(*caps, devices@).warnings);
    PerformanceCandidate {
        id: "all-gpus-row".to_string(),
        label: "All GPUs \u{b7} row split".to_string(),
        description: "Split tensor rows between GPUs and keep intermediate work on the GPU with the most usable memory.".to_string(),
        split_mode: "row".to_string(),
        experimental: false,
        options,
        reasons,
        warnings,
    }
}

fn put_cache_type(
    caps: &LlamaCapabilities,
    m: &mut TextMap<ProfileOptionSetting>,
    spec: Ghost<Map<Seq<char>, Seq<char>>>,
    key: &str,
) -> (r: Ghost<Map<Seq<char>, Seq<char>>>)
    requires
        old(m).wf(),
        settings_match(*old(m), spec@),
    ensures
        final(m).wf(),
        r@ == with_cache_type(*caps, spec@, key@),
        settings_match(*final(m), r@),
{
    match cache_type(caps, key) {
        Some(t) => put(m, spec, key, t),
        None => spec,
    }
}

fn tensor_exec(caps: &LlamaCapabilities, devices: &[PerformanceDevice]) -> (c: PerformanceCandidate)
    ensures
        candidate_agrees(c, tensor_candidate(*caps, devices@)),
{
    let mut options = common_options_exec(caps, devices);
    let ghost g0 = common_options(*caps, devices@);
    let g = put(&mut options, Ghost(g0), "splitMode", "tensor");
    let g = put_if_supported(caps, &mut options, g, "fit", "false");
    let g = put_if_supported(caps, &mut options, g, "kvCacheOffload", "true");
    let g = put_cache_type(caps, &mut options, g, "kvCacheTypeK");
    put_cache_type(caps, &mut options, g, "kvCacheTypeV");
    let reasons = text_list(
        &[
            "Offers the strongest cross-GPU parallelism when the model architecture and backend support it.",
            "The runtime explicitly advertises tensor mode.",
        ],
    );
    let warnings = text_list(
        &[
            "Requires Flash Attention and non-quantized KV cache, and may fail for unsupported model architectures.",
            "Automatic memory fitting is disabled for this candidate.",
        ],
    );
    assert(crate::text::texts(reasons@) =~= tensor_candidate(*caps, devices@).reasons);
    assert(crate::text::texts(warnings@) =~= tensor_candidate(*caps, devices@).warnings);
    PerformanceCandidate {
        id: "all-gpus-tensor".to_string(),
        label: "All GPUs \u{b7} tensor parallel".to_string(),
        description: "Use the runtime's experimental tensor-parallel path across all GPUs.".to_string(),
        split_mode: "tensor".to_string(),
        experimental: true,
        options,
        reasons,
        warnings,
    }
}

/// The candidates to measure for these devices.
pub fn candidates(caps: &LlamaCapabilities, devices: &[PerformanceDevice]) -> (r: Vec<PerformanceCandidate>)
    ensures
        r@.len() == candidates_spec(*caps, devices@).len(),
        forall|i: int| 0 <= i < r@.len() ==> candidate_agrees(#[trigger] r@[i], candidates_spec(*caps, devices@)[i]),
{
    if devices.len() == 0 || !supports(caps, "device") {
        return Vec::new();
    }
    let modes = split_modes(caps);
    if devices.len() == 1 {
        let only = single_exec(caps, devices, &modes);
        let mut r: Vec<PerformanceCandidate> = Vec::new();
        r.push(only);
        return r;
    }
    let ghost want = candidates_spec(*caps, devices@);
    let mut r: Vec<PerformanceCandidate> = Vec::new();
    let no_modes = !modes.none && !modes.layer && !modes.row && !modes.tensor;
    let ghost part1 = if no_modes || modes.layer {
        seq![layer_candidate(*caps, devices@)]
    } else {
        seq![]
    };
    let ghost part2 = if modes.row {
        seq![row_candidate(*caps, devices@)]
    } else {
        seq![]
    };
    let ghost part3 = if modes.tensor {
        seq![tensor_candidate(*caps, devices@)]
    } else {
        seq![]
    };
    assert(want == part1 + part2 + part3);
    if no_modes || modes.layer {
        r.push(layer_exec(caps, devices));
    }
    assert(r@.len() == part1.len());
    assert(forall|i: int| 0 <= i < r@.len() ==> candidate_agrees(#[trigger] r@[i], (part1 + part2 + part3)[i]));
    if modes.row {
        r.push(row_exec(caps, devices));
    }
    assert(r@.len() == part1.len() + part2.len());
    assert(forall|i: int| 0 <= i < r@.len() ==> candidate_agrees(#[trigger] r@[i], (part1 + part2 + part3)[i]));
    if modes.tensor {
        r.push(tensor_exec(caps, devices));
    }
    r
}

// ---------------------------------------------------------------------------------------------
// The plan
// ---------------------------------------------------------------------------------------------

/// Sum of the known free memory of the first `n` devices.
pub open spec fn free_total_upto(ds: Seq<PerformanceDevice>, n: int) -> int
    decreases n,
{
    if n <= 0 {
        0
    } else {
        free_total_upto(ds, n - 1) + match ds[n - 1].free_memory_mib {
            Some(f) => f as int,
            None => 0int,
        }
    }
}

/// Sum of the usable memory of the first `n` devices.
pub open spec fn usable_total_upto(ds: Seq<PerformanceDevice>, n: int) -> int
    decreases n,
{
    if n <= 0 {
        0
    } else {
        usable_total_upto(ds, n - 1) + usable_memory_spec(ds[n - 1].total_memory_mib, ds[n - 1].free_memory_mib) as int
    }
}

/// A total, capped at the largest `u64`.
pub open spec fn capped(x: int) -> u64 {
    if x > u64::MAX {
        u64::MAX
    } else {
        x as u64
    }
}

/// Whole MiB, rounded up.
pub open spec fn mib_ceiling(bytes: u64) -> int {
    (bytes as int + 1048575) / 1048576
}

pub open spec fn plan_warnings_spec(
    ds: Seq<PerformanceDevice>,
    model_size_bytes: Option<u64>,
    candidate_count: int,
) -> Seq<Seq<char>> {
    let usable = capped(usable_total_upto(ds, ds.len() as int));
    let first = if ds.len() == 0 {
        seq!["The selected runtime reported no accelerator devices. Inspect a CUDA runtime before generating a GPU plan."@]
    } else if ds.len() == 1 {
        seq!["Only one accelerator is available. The plan can tune GPU offload, but cannot compare multi-GPU placement."@]
    } else {
        seq![]
    };
    let second = match model_size_bytes {
        Some(b) => if usable > 0 && mib_ceiling(b) > usable {
            seq![
                "The model is about "@ + decimal_text(mib_ceiling(b) as nat) + " MiB, while the GPUs have about "@
                    + decimal_text(usable as nat)
                    + " MiB available after safety reserves. Context and KV cache may require CPU fallback or a smaller quantization."@,
            ]
        } else {
            seq![]
        },
        None => seq![],
    };
    let third = if ds.len() > 0 && candidate_count == 0 {
        seq!["This runtime does not advertise the placement flags required to build a controlled multi-GPU candidate."@]
    } else {
        seq![]
    };
    first + second + third
}

fn totals(devices: &[PerformanceDevice]) -> (r: (u64, u64))
    ensures
        r.0 == capped(free_total_upto(devices@, devices@.len() as int)),
        r.1 == capped(usable_total_upto(devices@, devices@.len() as int)),
{
    let mut free: u64 = 0;
    let mut usable: u64 = 0;
    let mut i: usize = 0;
    while i < devices.len()
        invariant
            i <= devices@.len(),
            free == capped(free_total_upto(devices@, i as int)),
            usable == capped(usable_total_upto(devices@, i as int)),
            free_total_upto(devices@, i as int) >= 0,
            usable_total_upto(devices@, i as int) >= 0,
        decreases devices.len() - i,
    {
        let f = match devices[i].free_memory_mib {
            Some(f) => f,
            None => 0,
        };
        free = free.saturating_add(f);
        usable = usable.saturating_add(usable_memory(devices[i].total_memory_mib, devices[i].free_memory_mib));
        i += 1;
    }
    (free, usable)
}

fn text_with_two_numbers(a: &str, n: u64, b: &str, m: u64, c: &str) -> (r: String)
    ensures
        r@ == a@ + decimal_text(n as nat) + b@ + decimal_text(m as nat) + c@,
{
    let mut v = chars_of(a);
    crate::text::push_decimal(&mut v, n);
    crate::text::append_chars(&mut v, chars_of(b).as_slice());
    crate::text::push_decimal(&mut v, m);
    crate::text::append_chars(&mut v, chars_of(c).as_slice());
    string_of(v.as_slice())
}

/// The plan for a profile: the runtime's devices completed with hardware figures, the
/// candidates, the first of which is recommended, and warnings about what cannot be compared.
pub fn build_plan(
    profile: &LaunchProfile,
    capabilities: &LlamaCapabilities,
    hardware_gpus: &[GpuInfo],
    model_size_bytes: Option<u64>,
) -> (plan: PerformancePlan)
    ensures
        plan.profile_id@ == profile.id@,
        plan.profile_name@ == profile.name@,
        plan.runtime_id@ == profile.runtime_id@,
        plan.runtime_label@ == profile.runtime_label@,
        plan.model_id@ == profile.model_id@,
        plan.model_name@ == profile.model_name@,
        plan.model_size_bytes == model_size_bytes,
        plan.objective == PerformanceObjective::InteractiveCoding,
        plan.devices@.len() == capabilities.devices@.len(),
        forall|i: int|
            0 <= i < plan.devices@.len() ==> device_agrees(
                #[trigger] plan.devices@[i],
                planned_devices(capabilities.devices@, hardware_gpus@)[i],
                percentages_spec(device_weights(planned_devices(capabilities.devices@, hardware_gpus@)))[i],
            ),
        plan.total_free_memory_mib == capped(free_total_upto(plan.devices@, plan.devices@.len() as int)),
        plan.candidates@.len() == candidates_spec(*capabilities, plan.devices@).len(),
        forall|i: int|
            0 <= i < plan.candidates@.len() ==> candidate_agrees(
                #[trigger] plan.candidates@[i],
                candidates_spec(*capabilities, plan.devices@)[i],
            ),
        opt_text(plan.recommended_candidate_id) == if plan.candidates@.len() > 0 {
            Some(plan.candidates@[0].id@)
        } else {
            None
        },
        crate::text::texts(plan.warnings@) == plan_warnings_spec(
            plan.devices@,
            model_size_bytes,
            plan.candidates@.len() as int,
        ),
{
    let devices = performance_devices(capabilities.devices.as_slice(), hardware_gpus);
    let (total_free, usable) = totals(devices.as_slice());
    let found = candidates(capabilities, devices.as_slice());
    let mut warnings: Vec<String> = Vec::new();
    if devices.len() == 0 {
        warnings.push(
            "The selected runtime reported no accelerator devices. Inspect a CUDA runtime before generating a GPU plan.".to_string(),
        );
    } else if devices.len() == 1 {
        warnings.push(
            "Only one accelerator is available. The plan can tune GPU offload, but cannot compare multi-GPU placement.".to_string(),
        );
    }
    let ghost w1 = crate::text::texts(warnings@);
    if let Some(bytes) = model_size_bytes {
        let mib: u64 = bytes / 1048576 + if bytes % 1048576 != 0 {
            1
        } else {
            0
        };
        assert(mib == mib_ceiling(bytes));
        if usable > 0 && mib > usable {
            let ghost before = warnings@;
            let message = text_with_two_numbers(
                "The model is about ",
                mib,
                " MiB, while the GPUs have about ",
                usable,
                " MiB available after safety reserves. Context and KV cache may require CPU fallback or a smaller quantization.",
            );
            warnings.push(message);
            proof {
                crate::text::lemma_texts_push(before, message);
            }
        }
    }
    let ghost w2 = crate::text::texts(warnings@);
    if devices.len() > 0 && found.len() == 0 {
        let ghost before = warnings@;
        let message =
            "This runtime does not advertise the placement flags required to build a controlled multi-GPU candidate.".to_string();
        warnings.push(message);
        proof {
            crate::text::lemma_texts_push(before, message);
        }
    }
    assert(crate::text::texts(warnings@) =~= plan_warnings_spec(devices@, model_size_bytes, found@.len() as int));
    let recommended = if found.len() > 0 {
        Some(found[0].id.clone())
    } else {
        None
    };
    PerformancePlan {
        profile_id: profile.id.clone(),
        profile_name: profile.name.clone(),
        runtime_id: profile.runtime_id.clone(),
        runtime_label: profile.runtime_label.clone(),
        model_id: profile.model_id.clone(),
        model_name: profile.model_name.clone(),
        model_size_bytes,
        objective: PerformanceObjective::InteractiveCoding,
        devices,
        total_free_memory_mib: total_free,
        candidates: found,
        recommended_candidate_id: recommended,
        warnings,
    }
}

// ---------------------------------------------------------------------------------------------
// Applying a candidate
// ---------------------------------------------------------------------------------------------

/// The placement options a candidate owns: they are cleared before a candidate is applied, so
/// no strategy-specific flag leaks from one measurement into the next.
pub open spec fn managed_key(q: Seq<char>) -> bool {
    q == "device"@ || q == "gpuLayers"@ || q == "tensorSplit"@ || q == "splitMode"@ || q
        == "mainGpu"@ || q == "flashAttention"@ || q == "fit"@ || q == "kvCacheOffload"@ || q
        == "kvCacheTypeK"@ || q == "kvCacheTypeV"@
}

/// A setting, by its view.
pub open spec fn setting_view(o: Option<ProfileOptionSetting>) -> Option<SettingModel> {
    match o {
        Some(s) => Some(s@),
        None => None,
    }
}

/// What a profile holds under `q` once the candidate is applied.
pub open spec fn applied_setting(
    input: TextMap<ProfileOptionSetting>,
    candidate: TextMap<ProfileOptionSetting>,
    q: Seq<char>,
) -> Option<SettingModel> {
    if candidate.value_of(q) is Some {
        setting_view(candidate.value_of(q))
    } else if managed_key(q) {
        None
    } else {
        setting_view(input.value_of(q))
    }
}

fn clone_setting_value(s: &ProfileOptionSetting) -> (r: ProfileOptionSetting)
    ensures
        r@ == s@,
{
    match s {
        ProfileOptionSetting::Default => ProfileOptionSetting::Default,
        ProfileOptionSetting::Auto => ProfileOptionSetting::Auto,
        ProfileOptionSetting::Custom { value } => ProfileOptionSetting::Custom { value: value.clone() },
    }
}

/// Every field of the two inputs but the options is the same.
pub open spec fn same_but_options(a: ProfileInput, b: ProfileInput) -> bool {
    &&& a.name == b.name
    &&& a.description == b.description
    &&& a.runtime_id == b.runtime_id
    &&& a.model_id == b.model_id
    &&& a.projector_path == b.projector_path
    &&& a.host == b.host
    &&& a.port == b.port
    &&& a.auto_select_port == b.auto_select_port
    &&& a.environment == b.environment
    &&& a.additional_arguments == b.additional_arguments
}

/// Builds a candidate's profile from the same clean placement baseline every time: the managed
/// options are cleared, then the candidate's are set; everything else is kept.
pub fn apply_candidate(input: ProfileInput, candidate: &PerformanceCandidate) -> (r: ProfileInput)
    requires
        input.options.wf(),
        candidate.options.wf(),
    ensures
        r.options.wf(),
        forall|q: Seq<char>|
            #[trigger] setting_view(r.options.value_of(q)) == applied_setting(
                input.options,
                candidate.options,
                q,
            ),
        r.name == input.name,
        r.description == input.description,
        r.runtime_id == input.runtime_id,
        r.model_id == input.model_id,
        r.projector_path == input.projector_path,
        r.host == input.host,
        r.port == input.port,
        r.auto_select_port == input.auto_select_port,
        r.environment == input.environment,
        r.additional_arguments == input.additional_arguments,
{
    let ghost given = input;
    let mut input = input;
    let ghost original = input.options;
    let keys: [&str; 10] = [
        "device",
        "gpuLayers",
        "tensorSplit",
        "splitMode",
        "mainGpu",
        "flashAttention",
        "fit",
        "kvCacheOffload",
        "kvCacheTypeK",
        "kvCacheTypeV",
    ];
    let mut k: usize = 0;
    while k < 10
        invariant
            k <= 10,
            same_but_options(input, given),
            input.options.wf(),
            keys@ == seq!["device", "gpuLayers", "tensorSplit", "splitMode", "mainGpu", "flashAttention", "fit", "kvCacheOffload", "kvCacheTypeK", "kvCacheTypeV"],
            forall|q: Seq<char>|
                #[trigger] input.options.value_of(q) == if exists|j: int| 0 <= j < k && keys@[j]@ == q {
                    None
                } else {
                    original.value_of(q)
                },
        decreases 10 - k,
    {
        input.options.remove(keys[k]);
        k += 1;
    }
    assert forall|q: Seq<char>| managed_key(q) <==> exists|j: int| 0 <= j < 10 && keys@[j]@ == q by {
        if managed_key(q) {
            if q == "device"@ { assert(keys@[0]@ == q); }
            else if q == "gpuLayers"@ { assert(keys@[1]@ == q); }
            else if q == "tensorSplit"@ { assert(keys@[2]@ == q); }
            else if q == "splitMode"@ { assert(keys@[3]@ == q); }
            else if q == "mainGpu"@ { assert(keys@[4]@ == q); }
            else if q == "flashAttention"@ { assert(keys@[5]@ == q); }
            else if q == "fit"@ { assert(keys@[6]@ == q); }
            else if q == "kvCacheOffload"@ { assert(keys@[7]@ == q); }
            else if q == "kvCacheTypeK"@ { assert(keys@[8]@ == q); }
            else { assert(keys@[9]@ == q); }
        }
    }
    let ghost cleared = input.options;
    let entries = &candidate.options.entries;
    let mut i: usize = 0;
    while i < entries.len()
        invariant
            i <= entries@.len(),
            entries@ == candidate.options.entries@,
            crate::text_map::keys_sorted(entries@),
            same_but_options(input, given),
            input.options.wf(),
            forall|q: Seq<char>|
                #[trigger] setting_view(input.options.value_of(q)) == if entry_value(entries@.take(i as int), q) is Some {
                    setting_view(entry_value(entries@.take(i as int), q))
                } else {
                    setting_view(cleared.value_of(q))
                },
        decreases entries.len() - i,
    {
        let key = entries[i].0.clone();
        let value = clone_setting_value(&entries[i].1);
        let ghost kv = entries@[i as int].0@;
        input.options.insert(key, value);
        proof {
            let before = entries@.take(i as int);
            let after = entries@.take(i + 1);
            assert(crate::text_map::keys_sorted(before));
            assert(crate::text_map::keys_sorted(after));
            assert forall|q: Seq<char>|
                #[trigger] setting_view(input.options.value_of(q)) == if entry_value(after, q) is Some {
                    setting_view(entry_value(after, q))
                } else {
                    setting_view(cleared.value_of(q))
                } by {
                crate::text_map::lemma_entry_value(after, q);
                crate::text_map::lemma_entry_value(before, q);
                assert(after[i as int] == entries@[i as int]);
                if q == kv {
                    assert(after[i as int].0@ == q);
                } else {
                    if exists|j: int| 0 <= j < before.len() && #[trigger] before[j].0@ == q {
                        let j = choose|j: int| 0 <= j < before.len() && #[trigger] before[j].0@ == q;
                        assert(after[j] == before[j]);
                    } else {
                        assert forall|j: int| 0 <= j < after.len() implies #[trigger] after[j].0@ != q by {
                            if j < i {
                                assert(after[j] == before[j]);
                            }
                        }
                    }
                }
            }
        }
        i += 1;
    }
    assert(entries@.take(entries@.len() as int) =~= entries@);
    input
}

} // verus!
