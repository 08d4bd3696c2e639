//! Derivation of instantaneous percentage metrics from raw counter
//! snapshots.  A percentage is carried as an integer count of hundredths of
//! a percent, so `10_000` stands for 100%; that keeps the whole pipeline in
//! exact integer arithmetic.

use vstd::prelude::*;
use crate::models::{ContainerStats, GpuStats};

verus! {

/// Hundredths of a percent in one hundred percent.
pub const PERCENT_SCALE: u64 = 10000;

/// The CPU share of a container between two sampling instants, in hundredths
/// of a percent: the container's share of the system's CPU-time progress,
/// scaled by the number of online CPUs.
pub open spec fn cpu_percent_value(
    prev_total: int,
    cur_total: int,
    prev_sys: int,
    cur_sys: int,
    cpus: int,
) -> int {
    ((cur_total - prev_total) * (PERCENT_SCALE as int) * cpus) / (cur_sys - prev_sys)
}

/// The memory share of a container, in hundredths of a percent of its limit.
pub open spec fn mem_percent_value(usage: int, limit: int) -> int {
    (usage * (PERCENT_SCALE as int)) / limit
}

/// CPU percentage from two consecutive cumulative counter readings.
///
/// Nothing is derived when the system counter has not advanced (a clock
/// anomaly), when the container counter ran backwards, or when the value
/// would not fit.  A first observation, where the engine reports no previous
/// system counter at all, is rejected one level up, in `derive_cpu_spec`.
pub fn cpu_percent_bp(
    prev_total: u64,
    cur_total: u64,
    prev_sys: u64,
    cur_sys: u64,
    online_cpus: u32,
) -> (r: Option<u64>)
    ensures
        cur_sys <= prev_sys ==> r is None,
        cur_total < prev_total ==> r is None,
        prev_sys < cur_sys && prev_total <= cur_total ==> {
            let v = cpu_percent_value(
                prev_total as int,
                cur_total as int,
                prev_sys as int,
                cur_sys as int,
                online_cpus as int,
            );
            if v <= u64::MAX { r == Some(v as u64) } else { r is None }
        },
{
    if cur_sys <= prev_sys {
        return None;
    }
    if cur_total < prev_total {
        return None;
    }
    let cpu_delta: u128 = (cur_total - prev_total) as u128;
    let sys_delta: u128 = (cur_sys - prev_sys) as u128;
    proof {
        assert(cpu_delta * (PERCENT_SCALE as u128) <= 0xffff_ffff_ffff_ffffu128 * 10000) by (nonlinear_arith)
            requires
                cpu_delta <= 0xffff_ffff_ffff_ffffu128,
        ;
    }
    let scaled: u128 = cpu_delta * (PERCENT_SCALE as u128);
    proof {
        assert(scaled * (online_cpus as u128) <= 0xffff_ffff_ffff_ffffu128 * 10000
            * 0xffff_ffffu128) by (nonlinear_arith)
            requires
                scaled <= 0xffff_ffff_ffff_ffffu128 * 10000,
                online_cpus as u128 <= 0xffff_ffffu128,
        ;
    }
    let numer: u128 = scaled * (online_cpus as u128);
    let q: u128 = numer / sys_delta;
    if q > u64::MAX as u128 {
        None
    } else {
        Some(q as u64)
    }
}

/// Memory percentage from the usage and limit gauges; derived exactly when
/// both gauges are present, the limit is positive, and the value fits.
pub fn mem_percent_bp(usage: Option<u64>, limit: Option<u64>) -> (r: Option<u64>)
    ensures
        usage is None || limit is None || limit == Some(0u64) ==> r is None,
        usage is Some && limit is Some && limit->0 != 0 ==> {
            let v = mem_percent_value(usage->0 as int, limit->0 as int);
            if v <= u64::MAX { r == Some(v as u64) } else { r is None }
        },
{
    match (usage, limit) {
        (Some(u), Some(l)) => {
            if l == 0 {
                return None;
            }
            proof {
                assert((u as u128) * (PERCENT_SCALE as u128) <= 0xffff_ffff_ffff_ffffu128
                    * 10000) by (nonlinear_arith)
                    requires
                        u as u128 <= 0xffff_ffff_ffff_ffffu128,
                ;
            }
            let numer: u128 = (u as u128) * (PERCENT_SCALE as u128);
            let q: u128 = numer / (l as u128);
            if q > u64::MAX as u128 {
                None
            } else {
                Some(q as u64)
            }
        },
        _ => None,
    }
}

/// GPU percentage: the first reported device's utilization, a whole
/// percentage, rescaled to hundredths of a percent.  Nothing is derived when
/// no device is reported.
pub fn gpu_percent_bp(gpu: &Option<GpuStats>) -> (r: Option<u64>)
    ensures
        match gpu {
            None => r is None,
            Some(g) => {
                if g.devices@.len() == 0 {
                    r is None
                } else {
                    r == Some((g.devices@[0].utilization * 100) as u64)
                }
            },
        },
{
    match gpu {
        None => None,
        Some(g) => {
            if g.devices.len() == 0 {
                None
            } else {
                Some((g.devices[0].utilization as u64) * 100)
            }
        },
    }
}

/// What CPU derivation yields on one raw snapshot: the engine embeds the
/// previous period's readings, whose system counter it zeroes (reports as
/// absent) on the first observation of a container.  An absent previous
/// system counter therefore means there is no previous sample, and nothing
/// is derived.
pub open spec fn derive_cpu_spec(s: ContainerStats) -> Option<u64> {
    if s.cpu_stats.system_cpu_usage is None || s.cpu_stats.online_cpus is None
        || s.precpu_stats.system_cpu_usage is None {
        None
    } else {
        let cur_sys = s.cpu_stats.system_cpu_usage->0;
        let cpus = s.cpu_stats.online_cpus->0;
        let prev_sys = s.precpu_stats.system_cpu_usage->0;
        let prev_total = s.precpu_stats.cpu_usage.total_usage;
        let cur_total = s.cpu_stats.cpu_usage.total_usage;
        if cur_sys <= prev_sys || cur_total < prev_total {
            None
        } else {
            let v = cpu_percent_value(
                prev_total as int,
                cur_total as int,
                prev_sys as int,
                cur_sys as int,
                cpus as int,
            );
            if v <= u64::MAX { Some(v as u64) } else { None }
        }
    }
}

/// What memory derivation yields on one raw snapshot.
pub open spec fn derive_mem_spec(s: ContainerStats) -> Option<u64> {
    if s.memory_stats.usage is None || s.memory_stats.limit is None {
        None
    } else {
        let u = s.memory_stats.usage->0;
        let l = s.memory_stats.limit->0;
        if l == 0 {
            None
        } else {
            let v = mem_percent_value(u as int, l as int);
            if v <= u64::MAX { Some(v as u64) } else { None }
        }
    }
}

/// What GPU derivation yields on one raw snapshot.
pub open spec fn derive_gpu_spec(s: ContainerStats) -> Option<u64> {
    match s.gpu_stats {
        None => None,
        Some(g) => {
            if g.devices.len() == 0 {
                None
            } else {
                Some((g.devices[0].utilization * 100) as u64)
            }
        },
    }
}

impl ContainerStats {
    /// CPU percentage derived from this snapshot, in hundredths of a percent.
    /// The first observation of a container (no previous system counter)
    /// derives nothing.
    pub fn derive_cpu_bp(&self) -> (r: Option<u64>)
        ensures
            r == derive_cpu_spec(*self),
    {
        match (
            self.cpu_stats.system_cpu_usage,
            self.cpu_stats.online_cpus,
            self.precpu_stats.system_cpu_usage,
        ) {
            (Some(cur_sys), Some(cpus), Some(prev_sys)) => cpu_percent_bp(
                self.precpu_stats.cpu_usage.total_usage,
                self.cpu_stats.cpu_usage.total_usage,
                prev_sys,
                cur_sys,
                cpus,
            ),
            _ => None,
        }
    }

    /// Memory percentage derived from this snapshot, in hundredths of a
    /// percent of the limit.
    pub fn derive_mem_bp(&self) -> (r: Option<u64>)
        ensures
            r == derive_mem_spec(*self),
    {
        mem_percent_bp(self.memory_stats.usage, self.memory_stats.limit)
    }

    /// GPU percentage derived from this snapshot, in hundredths of a percent.
    pub fn derive_gpu_bp(&self) -> (r: Option<u64>)
        ensures
            r == derive_gpu_spec(*self),
    {
        gpu_percent_bp(&self.gpu_stats)
    }
}

/// Law: between two sampling instants whose system counter advanced and
/// whose container counter advanced by no more than the system counter did,
/// the derived CPU share lies between 0 and 100% times the online CPU count.
pub proof fn lemma_cpu_percent_range(
    prev_total: int,
    cur_total: int,
    prev_sys: int,
    cur_sys: int,
    cpus: int,
)
    requires
        prev_sys < cur_sys,
        prev_total <= cur_total,
        cur_total - prev_total <= cur_sys - prev_sys,
        0 <= cpus,
    ensures
        0 <= cpu_percent_value(prev_total, cur_total, prev_sys, cur_sys, cpus),
        cpu_percent_value(prev_total, cur_total, prev_sys, cur_sys, cpus) <= cpus * (
        PERCENT_SCALE as int),
{
    let d = cur_total - prev_total;
    let y = cur_sys - prev_sys;
    let s = PERCENT_SCALE as int;
    assert(0 <= d * s * cpus) by (nonlinear_arith)
        requires
            0 <= d,
            0 <= s,
            0 <= cpus,
    ;
    assert(d * s * cpus <= y * (s * cpus)) by (nonlinear_arith)
        requires
            0 <= d <= y,
            0 <= s,
            0 <= cpus,
    ;
    assert(0 <= (d * s * cpus) / y) by {
        vstd::arithmetic::div_mod::lemma_div_pos_is_pos(d * s * cpus, y);
    }
    assert((d * s * cpus) / y <= (y * (s * cpus)) / y) by {
        vstd::arithmetic::div_mod::lemma_div_is_ordered(d * s * cpus, y * (s * cpus), y);
    }
    assert((y * (s * cpus)) / y == s * cpus) by {
        vstd::arithmetic::div_mod::lemma_div_multiples_vanish(s * cpus, y);
    }
    assert(s * cpus == cpus * s) by (nonlinear_arith);
}

} // verus!
