use procmon::audit::{record_line, AuditLog, AuditSink, TerminationRecord};
use procmon::clock::{Clock, Timestamp};
use procmon::cpu::CpuUsage;
use procmon::snapshot::{ProcessInfo, Snapshot};
use procmon::terminate::{terminate, Confirmer, ProcessSource, TerminationError, TerminationOutcome};

fn proc(pid: u64, name: &str, cpu: CpuUsage) -> ProcessInfo {
    ProcessInfo { pid, name: name.to_string(), cpu }
}

struct FakeTable {
    procs: Vec<(u64, String, u64)>,
    kill_succeeds: bool,
    kills_sent: Vec<u64>,
    table_readable: bool,
}

impl FakeTable {
    fn with(procs: &[(u64, &str, u64)]) -> FakeTable {
        FakeTable {
            procs: procs.iter().map(|(p, n, c)| (*p, n.to_string(), *c)).collect(),
            kill_succeeds: true,
            kills_sent: Vec::new(),
            table_readable: true,
        }
    }
}

impl ProcessSource for FakeTable {
    fn snapshot(&mut self) -> Option<Snapshot> {
        if !self.table_readable {
            return None;
        }
        Some(Snapshot {
            procs: self
                .procs
                .iter()
                .map(|(p, n, c)| proc(*p, n, CpuUsage::Centi(*c)))
                .collect(),
        })
    }

    fn kill(&mut self, pid: u64) -> bool {
        self.kills_sent.push(pid);
        self.kill_succeeds
    }
}

struct ScriptedConfirmer {
    answer: bool,
    asked: Vec<(String, u64)>,
}

impl Confirmer for ScriptedConfirmer {
    fn ask(&mut self, name: &String, pid: u64) -> bool {
        self.asked.push((name.clone(), pid));
        self.answer
    }
}

struct PanickingConfirmer;

impl Confirmer for PanickingConfirmer {
    fn ask(&mut self, _name: &String, _pid: u64) -> bool {
        panic!("confirmation must not be requested for an absent target");
    }
}

struct FixedClock {
    t: Timestamp,
}

impl Clock for FixedClock {
    fn now(&mut self) -> Timestamp {
        let t = self.t;
        self.t = Timestamp { second: t.second + 1, ..t };
        t
    }
}

fn noon() -> Timestamp {
    Timestamp { year: 2024, month: 3, day: 7, hour: 12, minute: 0, second: 5 }
}

struct RefusingSink;

impl AuditSink for RefusingSink {
    fn append(&mut self, _line: &String) -> bool {
        false
    }
}

#[test]
fn absent_target_reports_process_not_found_without_prompting() {
    let mut table = FakeTable::with(&[(1, "a", 100), (2, "b", 200)]);
    let mut confirmer = PanickingConfirmer;
    let mut clock = FixedClock { t: noon() };
    let mut audit = AuditLog::new();
    let r = terminate(&mut table, &mut confirmer, &mut clock, &mut audit, 99);
    assert!(matches!(r, Err(TerminationError::ProcessNotFound)));
    assert!(table.kills_sent.is_empty());
    assert_eq!(audit.line_count(), 0);
}

#[test]
fn unreadable_table_reports_snapshot_unavailable() {
    let mut table = FakeTable::with(&[(1, "a", 100)]);
    table.table_readable = false;
    let mut confirmer = PanickingConfirmer;
    let mut clock = FixedClock { t: noon() };
    let mut audit = AuditLog::new();
    let r = terminate(&mut table, &mut confirmer, &mut clock, &mut audit, 1);
    assert!(matches!(r, Err(TerminationError::SnapshotUnavailable)));
    assert_eq!(audit.line_count(), 0);
}

#[test]
fn declined_confirmation_cancels_and_leaves_audit_unchanged() {
    let mut table = FakeTable::with(&[(42, "worker", 5000)]);
    let mut confirmer = ScriptedConfirmer { answer: false, asked: Vec::new() };
    let mut clock = FixedClock { t: noon() };
    let mut audit = AuditLog::new();
    let r = terminate(&mut table, &mut confirmer, &mut clock, &mut audit, 42);
    assert!(matches!(r, Err(TerminationError::Cancelled)));
    assert_eq!(confirmer.asked, vec![("worker".to_string(), 42)]);
    assert!(table.kills_sent.is_empty());
    assert_eq!(audit.line_count(), 0);
}

#[test]
fn refused_signal_reports_signal_failed_without_audit_entry() {
    let mut table = FakeTable::with(&[(42, "worker", 5000)]);
    table.kill_succeeds = false;
    let mut confirmer = ScriptedConfirmer { answer: true, asked: Vec::new() };
    let mut clock = FixedClock { t: noon() };
    let mut audit = AuditLog::new();
    let r = terminate(&mut table, &mut confirmer, &mut clock, &mut audit, 42);
    assert!(matches!(r, Err(TerminationError::SignalFailed)));
    assert_eq!(table.kills_sent, vec![42]);
    assert_eq!(audit.line_count(), 0);
}

#[test]
fn confirmed_kill_logs_one_matching_line() {
    let mut table = FakeTable::with(&[(42, "worker", 5000), (7, "other", 100)]);
    let mut confirmer = ScriptedConfirmer { answer: true, asked: Vec::new() };
    let mut clock = FixedClock { t: noon() };
    let mut audit = AuditLog::new();
    let r = terminate(&mut table, &mut confirmer, &mut clock, &mut audit, 42);
    match r {
        Ok(TerminationOutcome::Logged(rec)) => {
            assert_eq!(rec.pid, 42);
            assert_eq!(rec.name, "worker");
        }
        _ => panic!("expected a logged termination"),
    }
    assert_eq!(table.kills_sent, vec![42]);
    assert_eq!(audit.line_count(), 1);
    assert_eq!(
        audit.line_at(0),
        "[2024-03-07 12:00:05] Killed Process: worker (PID: 42)\n",
    );
}

#[test]
fn refusing_sink_reports_audit_write_failed_after_kill() {
    let mut table = FakeTable::with(&[(42, "worker", 5000)]);
    let mut confirmer = ScriptedConfirmer { answer: true, asked: Vec::new() };
    let mut clock = FixedClock { t: noon() };
    let mut audit = RefusingSink;
    let r = terminate(&mut table, &mut confirmer, &mut clock, &mut audit, 42);
    match r {
        Ok(TerminationOutcome::AuditWriteFailed(rec)) => {
            assert_eq!(rec.pid, 42);
            assert_eq!(rec.name, "worker");
        }
        _ => panic!("expected a kill with a failed audit write"),
    }
    assert_eq!(table.kills_sent, vec![42]);
}

#[test]
fn duplicate_pids_resolve_to_first_entry() {
    let mut table = FakeTable::with(&[(5, "early", 10), (5, "late", 20)]);
    let mut confirmer = ScriptedConfirmer { answer: true, asked: Vec::new() };
    let mut clock = FixedClock { t: noon() };
    let mut audit = AuditLog::new();
    let r = terminate(&mut table, &mut confirmer, &mut clock, &mut audit, 5);
    match r {
        Ok(TerminationOutcome::Logged(rec)) => assert_eq!(rec.name, "early"),
        _ => panic!("expected a logged termination"),
    }
    assert_eq!(confirmer.asked, vec![("early".to_string(), 5)]);
}

#[test]
fn audit_log_is_append_only_across_terminations() {
    let mut table = FakeTable::with(&[(1, "a", 100), (2, "b", 200), (3, "c", 300)]);
    let mut confirmer = ScriptedConfirmer { answer: true, asked: Vec::new() };
    let mut clock = FixedClock { t: noon() };
    let mut audit = AuditLog::new();

    assert!(terminate(&mut table, &mut confirmer, &mut clock, &mut audit, 1).is_ok());
    let first = audit.line_at(0).clone();
    assert!(terminate(&mut table, &mut confirmer, &mut clock, &mut audit, 2).is_ok());
    assert_eq!(audit.line_at(0), &first);
    let second = audit.line_at(1).clone();
    assert!(terminate(&mut table, &mut confirmer, &mut clock, &mut audit, 3).is_ok());

    assert_eq!(audit.line_count(), 3);
    assert_eq!(audit.line_at(0), &first);
    assert_eq!(audit.line_at(1), &second);
    assert_eq!(audit.line_at(0), "[2024-03-07 12:00:05] Killed Process: a (PID: 1)\n");
    assert_eq!(audit.line_at(1), "[2024-03-07 12:00:06] Killed Process: b (PID: 2)\n");
    assert_eq!(audit.line_at(2), "[2024-03-07 12:00:07] Killed Process: c (PID: 3)\n");
}

#[test]
fn record_line_has_the_fixed_format() {
    let rec = TerminationRecord {
        time: Timestamp { year: 987, month: 12, day: 31, hour: 0, minute: 9, second: 59 },
        pid: 0,
        name: "svc".to_string(),
    };
    assert_eq!(record_line(&rec), "[0987-12-31 00:09:59] Killed Process: svc (PID: 0)\n");
}
