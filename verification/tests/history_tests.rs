use cetacea::history::{DerivedMetric, HistoryStore, HistoryWindow};
use cetacea::models::{
    ContainerStats, CpuStats, CpuUsage, MemoryStats, ThrottlingData,
};
use cetacea::snapshot::build_snapshot;
use cetacea::models::Container;

fn metric(ts: u64, value: u64) -> DerivedMetric {
    DerivedMetric { timestamp_ms: ts, value_bp: value }
}

fn container(id: &str, name: &str) -> Container {
    Container {
        id: id.to_string(),
        names: vec![name.to_string()],
        image: "img".to_string(),
        command: "cmd".to_string(),
        created: 0,
        state: "running".to_string(),
        status: "Up".to_string(),
        ports: vec![],
        health: None,
    }
}

fn empty_cpu() -> CpuStats {
    CpuStats {
        cpu_usage: CpuUsage { total_usage: 0, usage_in_kernelmode: 0, usage_in_usermode: 0 },
        system_cpu_usage: None,
        online_cpus: None,
        throttling_data: ThrottlingData { periods: 0, throttled_periods: 0, throttled_time: 0 },
    }
}

fn mem_only_stats(usage: u64, limit: u64) -> ContainerStats {
    ContainerStats {
        name: String::new(),
        read: String::new(),
        preread: String::new(),
        cpu_stats: empty_cpu(),
        memory_stats: MemoryStats { usage: Some(usage), limit: Some(limit) },
        precpu_stats: empty_cpu(),
        gpu_stats: None,
        num_procs: 0,
    }
}

#[test]
fn test_window_keeps_most_recent_sixty() {
    let mut w = HistoryWindow::new();
    for n in 0..70u64 {
        w.push(metric(n, n * 10));
    }
    assert_eq!(w.len(), 60);
    // The oldest ten samples were dropped; the rest stay in arrival order.
    for i in 0..60usize {
        let m = w.get(i);
        assert_eq!(m.timestamp_ms, (i + 10) as u64);
        assert_eq!(m.value_bp, (i + 10) as u64 * 10);
    }
}

#[test]
fn test_window_short_series_kept_whole() {
    let mut w = HistoryWindow::new();
    for n in 0..5u64 {
        w.push(metric(n + 100, n));
    }
    assert_eq!(w.len(), 5);
    assert_eq!(w.get(0).timestamp_ms, 100);
    assert_eq!(w.get(4).timestamp_ms, 104);
}

#[test]
fn test_reconcile_idempotent_and_preserving() {
    let mut store = HistoryStore::new();
    let ids = vec!["a".to_string(), "b".to_string()];
    store.reconcile(&ids);

    // Record one memory sample for "a": 50%.
    store.record_stats("a", &mem_only_stats(1, 2), 1000);
    let before: Vec<DerivedMetric> = {
        let h = store.get("a").unwrap();
        (0..h.mem.len()).map(|i| h.mem.get(i)).collect()
    };
    assert_eq!(before.len(), 1);
    assert_eq!(before[0].value_bp, 5000);

    // Reconciling again with the same ids loses nothing.
    store.reconcile(&ids);
    store.reconcile(&ids);
    let h = store.get("a").unwrap();
    assert_eq!(h.mem.len(), 1);
    assert_eq!(h.mem.get(0), before[0]);
    assert!(store.get("b").is_some());
}

#[test]
fn test_reconcile_inserts_and_drops() {
    let mut store = HistoryStore::new();
    store.reconcile(&vec!["a".to_string()]);
    store.record_stats("a", &mem_only_stats(1, 4), 500);
    assert_eq!(store.get("a").unwrap().mem.len(), 1);

    // "a" disappears, "c" appears: a's windows are discarded, c starts empty.
    store.reconcile(&vec!["c".to_string()]);
    assert!(store.get("a").is_none());
    let c = store.get("c").unwrap();
    assert_eq!(c.mem.len(), 0);
    assert_eq!(c.cpu.len(), 0);
}

#[test]
fn test_reconcile_duplicate_ids_kept_once() {
    let mut store = HistoryStore::new();
    store.reconcile(&vec!["a".to_string(), "b".to_string(), "a".to_string()]);
    store.record_stats("a", &mem_only_stats(1, 2), 1000);
    let ids = store.ids();
    assert_eq!(ids.len(), 2);
    assert!(ids.contains(&"a".to_string()));
    assert!(ids.contains(&"b".to_string()));
    assert_eq!(store.get("a").unwrap().mem.len(), 1);
}

#[test]
fn test_record_stats_unknown_id_changes_nothing() {
    let mut store = HistoryStore::new();
    store.reconcile(&vec!["a".to_string()]);
    store.record_stats("ghostly", &mem_only_stats(1, 2), 1000);
    assert!(store.get("ghostly").is_none());
    assert_eq!(store.get("a").unwrap().mem.len(), 0);
}

#[test]
fn test_record_stats_stale_clock_skipped() {
    let mut store = HistoryStore::new();
    store.reconcile(&vec!["a".to_string()]);
    store.record_stats("a", &mem_only_stats(1, 2), 1000);
    // A second sample at the same clock reading is not appended.
    store.record_stats("a", &mem_only_stats(3, 4), 1000);
    assert_eq!(store.get("a").unwrap().mem.len(), 1);
    // A later one is.
    store.record_stats("a", &mem_only_stats(3, 4), 1001);
    let h = store.get("a").unwrap();
    assert_eq!(h.mem.len(), 2);
    assert_eq!(h.mem.get(1).value_bp, 7500);
}

#[test]
fn test_departed_container_absent_from_snapshot() {
    let mut store = HistoryStore::new();
    let first = vec![container("aaa", "one"), container("bbb", "two")];
    let mut ids: Vec<String> = first.iter().map(|c| c.id.clone()).collect();
    store.reconcile(&ids);
    store.record_stats("aaa", &mem_only_stats(1, 2), 1000);
    store.record_stats("bbb", &mem_only_stats(1, 4), 1000);

    // The newest list poll no longer holds "aaa".
    let second = vec![container("bbb", "two")];
    ids = second.iter().map(|c| c.id.clone()).collect();
    store.reconcile(&ids);

    let snap = build_snapshot(&second, &store);
    assert_eq!(snap.containers.len(), 1);
    assert_eq!(snap.histories.len(), 1);
    assert_eq!(snap.containers[0].id, "bbb");
    assert_eq!(snap.histories[0].mem.len(), 1);
    assert_eq!(snap.histories[0].mem.get(0).value_bp, 2500);
    assert!(store.get("aaa").is_none());
}

#[test]
fn test_snapshot_unknown_id_gets_empty_windows() {
    let store = HistoryStore::new();
    let list = vec![container("zzz", "new")];
    let snap = build_snapshot(&list, &store);
    assert_eq!(snap.histories.len(), 1);
    assert_eq!(snap.histories[0].cpu.len(), 0);
    assert_eq!(snap.histories[0].mem.len(), 0);
    assert_eq!(snap.histories[0].gpu.len(), 0);
}
