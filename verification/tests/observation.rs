use procmon::cpu::CpuUsage;
use procmon::ranker::{above_threshold, top_n, RankError};
use procmon::snapshot::{ProcessInfo, Snapshot};

fn proc(pid: u64, name: &str, cpu: CpuUsage) -> ProcessInfo {
    ProcessInfo { pid, name: name.to_string(), cpu }
}

fn sample_snapshot() -> Snapshot {
    Snapshot {
        procs: vec![
            proc(1, "a", CpuUsage::Centi(5000)),
            proc(2, "b", CpuUsage::Centi(9000)),
            proc(3, "c", CpuUsage::Centi(1000)),
        ],
    }
}

fn pids(v: &[ProcessInfo]) -> Vec<u64> {
    v.iter().map(|p| p.pid).collect()
}

#[test]
fn top_n_ranks_by_cpu_descending() {
    let s = sample_snapshot();
    let top = top_n(&s, 2).unwrap();
    assert_eq!(pids(&top), vec![2, 1]);
    assert_eq!(top[0].name, "b");
    assert_eq!(top[0].cpu, CpuUsage::Centi(9000));
    assert_eq!(top[1].name, "a");
}

#[test]
fn top_n_zero_yields_empty() {
    let s = sample_snapshot();
    let top = top_n(&s, 0).unwrap();
    assert!(top.is_empty());
}

#[test]
fn top_n_truncates_to_snapshot_size() {
    let s = sample_snapshot();
    let top = top_n(&s, 10).unwrap();
    assert_eq!(pids(&top), vec![2, 1, 3]);
}

#[test]
fn top_n_rejects_negative_count() {
    let s = sample_snapshot();
    assert!(matches!(top_n(&s, -1), Err(RankError::InvalidArgument)));
}

#[test]
fn top_n_on_empty_snapshot() {
    let s = Snapshot { procs: Vec::new() };
    assert!(top_n(&s, 5).unwrap().is_empty());
}

#[test]
fn top_n_is_stable_on_ties() {
    let s = Snapshot {
        procs: vec![
            proc(7, "first", CpuUsage::Centi(4000)),
            proc(8, "second", CpuUsage::Centi(4000)),
            proc(9, "third", CpuUsage::Centi(4000)),
        ],
    };
    let top = top_n(&s, 3).unwrap();
    assert_eq!(pids(&top), vec![7, 8, 9]);
}

#[test]
fn top_n_ranks_unordered_samples_last() {
    let s = Snapshot {
        procs: vec![
            proc(1, "nan", CpuUsage::Unordered),
            proc(2, "busy", CpuUsage::Centi(100)),
            proc(3, "idle", CpuUsage::Centi(0)),
        ],
    };
    let top = top_n(&s, 3).unwrap();
    assert_eq!(pids(&top), vec![2, 3, 1]);
}

#[test]
fn above_threshold_keeps_exceeding_entries_in_order() {
    let s = sample_snapshot();
    let hot = above_threshold(&s, 6000);
    assert_eq!(pids(&hot), vec![2]);
    assert_eq!(hot[0].name, "b");
}

#[test]
fn above_threshold_excludes_equal_samples() {
    let s = Snapshot {
        procs: vec![proc(1, "edge", CpuUsage::Centi(8000)), proc(2, "hot", CpuUsage::Centi(8001))],
    };
    let hot = above_threshold(&s, 8000);
    assert_eq!(pids(&hot), vec![2]);
}

#[test]
fn above_threshold_accepts_non_positive_thresholds() {
    let s = sample_snapshot();
    let hot = above_threshold(&s, -1);
    assert_eq!(pids(&hot), vec![1, 2, 3]);
    let zero = above_threshold(&s, 0);
    assert_eq!(pids(&zero), vec![1, 2, 3]);
}

#[test]
fn above_threshold_never_keeps_unordered_samples() {
    let s = Snapshot {
        procs: vec![proc(1, "nan", CpuUsage::Unordered), proc(2, "busy", CpuUsage::Centi(50))],
    };
    assert_eq!(pids(&above_threshold(&s, -5)), vec![2]);
}

#[test]
fn observation_is_idempotent() {
    let s = sample_snapshot();
    let first = top_n(&s, 2).unwrap();
    let second = top_n(&s, 2).unwrap();
    assert_eq!(pids(&first), pids(&second));
    let hot_first = above_threshold(&s, 4000);
    let hot_second = above_threshold(&s, 4000);
    assert_eq!(pids(&hot_first), pids(&hot_second));
}

#[test]
fn lookup_finds_first_match() {
    let s = Snapshot {
        procs: vec![proc(5, "early", CpuUsage::Centi(10)), proc(5, "late", CpuUsage::Centi(20))],
    };
    let found = s.lookup(5).unwrap();
    assert_eq!(found.name, "early");
    assert!(s.lookup(6).is_none());
}
