use std::collections::HashMap;
use std::sync::{Arc, Mutex};

use df_crash_miner::gen::WorldGenResult;
use df_crash_miner::repro::{build_repro_queue, ConfigError, ReproStats};

#[test]
fn queue_holds_every_record_num_times() {
    let q = build_repro_queue(2, 3).unwrap();
    assert_eq!(q.len(), 6);
    assert_eq!(q.capacity(), 6);
    let mut seen: HashMap<u64, u32> = HashMap::new();
    while let Some(v) = q.pop() {
        *seen.entry(v).or_insert(0) += 1;
    }
    assert_eq!(seen.get(&0), Some(&3));
    assert_eq!(seen.get(&1), Some(&3));
    assert_eq!(seen.len(), 2);
}

#[test]
fn empty_record_set_is_a_configuration_error() {
    let err = build_repro_queue(0, 4).unwrap_err();
    assert_eq!(err, ConfigError::NoCrashRecords);
    assert_eq!(err.message(), "No crashes in the crashes directory.");
}

#[test]
fn crash_and_success_update_their_own_counters() {
    let mut stats = ReproStats::new();
    stats.record(7, WorldGenResult::Crash, 120);
    stats.record(7, WorldGenResult::Crash, 80);
    stats.record(7, WorldGenResult::Success, 999);
    stats.record(7, WorldGenResult::Abort, 5);
    let e = stats.find(7).unwrap();
    assert_eq!(e.crashes, 2);
    assert_eq!(e.successes, 1);
    assert_eq!(e.crash_ms, 200);
    assert_eq!(e.avg_crash_ms(), Some(100));
    assert_eq!(stats.total(), 3);
    assert!(stats.find(8).is_none());
}

#[test]
fn average_is_unknown_without_a_crash() {
    let mut stats = ReproStats::new();
    stats.record(1, WorldGenResult::Success, 50);
    let e = stats.find(1).unwrap();
    assert_eq!(e.crashes, 0);
    assert_eq!(e.avg_crash_ms(), None);
}

#[test]
fn counted_totals_never_exceed_queue_multiplicity() {
    // Two records, each queued three times: six work items at most.
    let k: usize = 2;
    let num: usize = 3;
    let q = build_repro_queue(k, num).unwrap();
    let mut stats = ReproStats::new();
    let outcomes = [
        WorldGenResult::Crash,
        WorldGenResult::Success,
        WorldGenResult::Abort,
        WorldGenResult::Crash,
        WorldGenResult::Crash,
        WorldGenResult::Success,
    ];
    let mut executed: u64 = 0;
    let mut i = 0;
    while let Some(key) = q.pop() {
        let outcome = outcomes[i];
        stats.record(key, outcome, 10);
        if outcome != WorldGenResult::Abort {
            executed += 1;
        }
        i += 1;
    }
    assert_eq!(stats.total(), executed);
    assert_eq!(stats.total(), 5);
    assert!(stats.total() <= (k * num) as u64);
}

#[test]
fn concurrent_crashes_on_one_key_are_all_reflected() {
    let m = 1000;
    let stats = Arc::new(Mutex::new(ReproStats::new()));
    let rt = tokio::runtime::Builder::new_multi_thread()
        .worker_threads(2)
        .build()
        .unwrap();
    rt.block_on(async {
        let mut handles = vec![];
        for _ in 0..2 {
            let ours = Arc::clone(&stats);
            handles.push(tokio::spawn(async move {
                for _ in 0..m {
                    let mut guard = ours.lock().unwrap();
                    guard.record(42, WorldGenResult::Crash, 1);
                }
            }));
        }
        for h in handles {
            h.await.unwrap();
        }
    });
    let done = stats.lock().unwrap();
    let e = done.find(42).unwrap();
    assert_eq!(e.crashes, 2 * m);
    assert_eq!(e.successes, 0);
    assert_eq!(e.crash_ms, 2 * m);
}
