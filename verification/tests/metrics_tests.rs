use cetacea::metrics::{cpu_percent_bp, gpu_percent_bp, mem_percent_bp};
use cetacea::models::{
    ContainerStats, CpuStats, CpuUsage, GpuDevice, GpuStats, MemoryStats, ThrottlingData,
};

fn cpu_usage(total: u64) -> CpuUsage {
    CpuUsage { total_usage: total, usage_in_kernelmode: 0, usage_in_usermode: 0 }
}

fn cpu_stats(total: u64, system: Option<u64>, cpus: Option<u32>) -> CpuStats {
    CpuStats {
        cpu_usage: cpu_usage(total),
        system_cpu_usage: system,
        online_cpus: cpus,
        throttling_data: ThrottlingData { periods: 0, throttled_periods: 0, throttled_time: 0 },
    }
}

fn stats(cur: CpuStats, prev: CpuStats, mem: MemoryStats, gpu: Option<GpuStats>) -> ContainerStats {
    ContainerStats {
        name: "test".to_string(),
        read: String::new(),
        preread: String::new(),
        cpu_stats: cur,
        memory_stats: mem,
        precpu_stats: prev,
        gpu_stats: gpu,
        num_procs: 0,
    }
}

#[test]
fn test_cpu_percent_scenario() {
    // previous total_usage=100, system=1000; current total_usage=150,
    // system=1200, online_cpus=4: (50/200) * 100% * 4 = 100.0%
    let r = cpu_percent_bp(100, 150, 1000, 1200, 4);
    assert_eq!(r, Some(10000));
    assert_eq!(r.unwrap() as f64 / 100.0, 100.0);
}

#[test]
fn test_cpu_percent_no_system_progress() {
    // Equal or regressing system counters yield no sample.
    assert_eq!(cpu_percent_bp(100, 150, 1000, 1000, 4), None);
    assert_eq!(cpu_percent_bp(100, 150, 1000, 900, 4), None);
}

#[test]
fn test_cpu_percent_counter_regression() {
    assert_eq!(cpu_percent_bp(150, 100, 1000, 1200, 4), None);
}

#[test]
fn test_cpu_percent_overflow_yields_nothing() {
    assert_eq!(cpu_percent_bp(0, u64::MAX, 0, 1, 4), None);
}

#[test]
fn test_cpu_percent_within_range() {
    // With the container's counter advancing no faster than the system's,
    // the derived share stays within [0, 100% * cpus].
    let cases = [(0u64, 50u64, 0u64, 100u64, 2u32), (10, 10, 5, 105, 8), (0, 100, 0, 100, 3)];
    for (pt, ct, ps, cs, cpus) in cases {
        let v = cpu_percent_bp(pt, ct, ps, cs, cpus).unwrap();
        assert!(v <= 10000 * cpus as u64);
    }
}

#[test]
fn test_cpu_percent_through_snapshot() {
    let s = stats(
        cpu_stats(150, Some(1200), Some(4)),
        cpu_stats(100, Some(1000), None),
        MemoryStats { usage: None, limit: None },
        None,
    );
    assert_eq!(s.derive_cpu_bp(), Some(10000));

    // Without an online CPU count nothing is derived.
    let s = stats(
        cpu_stats(150, Some(1200), None),
        cpu_stats(100, Some(1000), None),
        MemoryStats { usage: None, limit: None },
        None,
    );
    assert_eq!(s.derive_cpu_bp(), None);
}

#[test]
fn test_cpu_percent_first_observation() {
    // On the first observation of a container the engine zeroes the
    // previous-period block and reports its system counter as absent:
    // no sample may be derived.
    let s = stats(
        cpu_stats(150, Some(1200), Some(4)),
        cpu_stats(0, None, None),
        MemoryStats { usage: None, limit: None },
        None,
    );
    assert_eq!(s.derive_cpu_bp(), None);
}

#[test]
fn test_mem_percent_scenario() {
    // usage=500000000, limit=1000000000: 50.0%
    let r = mem_percent_bp(Some(500000000), Some(1000000000));
    assert_eq!(r, Some(5000));
    assert_eq!(r.unwrap() as f64 / 100.0, 50.0);
}

#[test]
fn test_mem_percent_missing_gauges() {
    assert_eq!(mem_percent_bp(None, Some(1000)), None);
    assert_eq!(mem_percent_bp(Some(1000), None), None);
    assert_eq!(mem_percent_bp(Some(1000), Some(0)), None);
}

#[test]
fn test_gpu_percent_first_device() {
    let gpu = Some(GpuStats {
        devices: vec![
            GpuDevice { memory_used: 10, memory_total: 100, utilization: 37 },
            GpuDevice { memory_used: 0, memory_total: 100, utilization: 99 },
        ],
    });
    assert_eq!(gpu_percent_bp(&gpu), Some(3700));

    assert_eq!(gpu_percent_bp(&None), None);
    assert_eq!(gpu_percent_bp(&Some(GpuStats { devices: vec![] })), None);
}
