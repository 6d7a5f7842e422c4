//! The termination controller: the confirm → signal → verify → log sequence
//! with its error semantics.

use vstd::prelude::*;

use crate::audit::{record_line, record_line_chars, AuditSink, TerminationRecord};
use crate::clock::Clock;
use crate::snapshot::{contains_pid, resolves_to, ProcView, Snapshot};

verus! {

/// Why a termination attempt did not kill. `ProcessNotFound` and `Cancelled`
/// are normal outcomes, not faults.
#[derive(Clone, Copy, PartialEq, Eq, Structural, Debug)]
pub enum TerminationError {
    /// The process table could not be read.
    SnapshotUnavailable,
    /// The target was absent from the fresh snapshot: it already exited.
    ProcessNotFound,
    /// The operator declined.
    Cancelled,
    /// The platform refused the signal, or the target vanished before it.
    SignalFailed,
}

/// A termination that went through. The kill itself is irreversible, so a
/// failed audit write is surfaced as a distinct warning, never conflated
/// with a failure of the kill.
pub enum TerminationOutcome {
    /// The process was killed and the audit line was recorded.
    Logged(TerminationRecord),
    /// The process was killed but the audit sink refused the line.
    AuditWriteFailed(TerminationRecord),
}

impl TerminationOutcome {
    /// The record of the kill, whether or not it was logged.
    pub open spec fn record(self) -> TerminationRecord {
        match self {
            TerminationOutcome::Logged(rec) => rec,
            TerminationOutcome::AuditWriteFailed(rec) => rec,
        }
    }

    /// Whether the audit line was recorded.
    pub open spec fn audit_written(self) -> bool {
        self is Logged
    }
}

/// The process-table capability: a fresh enumeration of the live processes
/// (or nothing, when the table cannot be read), and force-kill delivery.
/// Nothing is promised of either: the table and the signal belong to the
/// platform.
pub trait ProcessSource {
    fn snapshot(&mut self) -> Option<Snapshot>;

    fn kill(&mut self, pid: u64) -> bool;
}

/// The confirmation capability: asked once per resolved target, with the
/// target's current name and identifier; may suspend awaiting a decision.
/// Nothing is promised of the answer.
pub trait Confirmer {
    fn ask(&mut self, name: &String, pid: u64) -> bool;
}

/// The confirm → signal → log sequence against an already acquired snapshot.
///
/// A target absent from the snapshot always yields `ProcessNotFound`,
/// whatever the confirmer would have answered. On every outcome but a logged
/// kill the audit sink is left exactly as it was; a logged kill appends
/// exactly the one line of its record, whose name is the resolved target's
/// current name.
pub fn terminate_in_snapshot<S: ProcessSource, C: Confirmer, K: Clock, A: AuditSink>(
    snap: &Snapshot,
    source: &mut S,
    confirmer: &mut C,
    clock: &mut K,
    audit: &mut A,
    target_pid: u64,
) -> (r: Result<TerminationOutcome, TerminationError>)
    ensures
        !contains_pid(snap@, target_pid) <==> r == Err::<TerminationOutcome, TerminationError>(
            TerminationError::ProcessNotFound,
        ),
        r != Err::<TerminationOutcome, TerminationError>(TerminationError::SnapshotUnavailable),
        match r {
            Ok(out) => {
                &&& out.record()@.wf()
                &&& out.record()@.pid == target_pid
                &&& exists|p: ProcView|
                    #[trigger] resolves_to(snap@, target_pid, p) && out.record()@.name == p.name
                &&& out.audit_written() ==> final(audit).lines() == old(audit).lines().push(
                    record_line_chars(out.record()@),
                )
                &&& !out.audit_written() ==> final(audit).lines() == old(audit).lines()
            },
            Err(_) => final(audit).lines() == old(audit).lines(),
        },
{
    let info = match snap.lookup(target_pid) {
        Some(p) => p,
        None => {
            return Err(TerminationError::ProcessNotFound);
        },
    };
    let ghost resolved = info@;
    proof {
        let i = choose|i: int|
            {
                &&& 0 <= i < snap@.len()
                &&& #[trigger] snap@[i] == resolved
                &&& resolved.pid == target_pid
                &&& forall|j: int| 0 <= j < i ==> snap@[j].pid != target_pid
            };
        assert(0 <= i < snap@.len() && snap@[i].pid == target_pid);
        assert(contains_pid(snap@, target_pid));
    }
    if !confirmer.ask(&info.name, info.pid) {
        return Err(TerminationError::Cancelled);
    }
    if !source.kill(info.pid) {
        return Err(TerminationError::SignalFailed);
    }
    let time = clock.now();
    let rec = TerminationRecord { time, pid: info.pid, name: info.name };
    let line = record_line(&rec);
    proof {
        assert(resolves_to(snap@, target_pid, resolved) && rec@.name == resolved.name);
    }
    if audit.append(&line) {
        Ok(TerminationOutcome::Logged(rec))
    } else {
        Ok(TerminationOutcome::AuditWriteFailed(rec))
    }
}

/// The full termination sequence: re-acquires a fresh snapshot, re-resolves
/// the target in it, asks for confirmation, delivers the force-kill signal,
/// and records the kill.
///
/// Delivery success, not the target's eventual death, is the completion
/// criterion. On every outcome but a logged kill the audit sink is left
/// exactly as it was; a logged kill appends exactly the one line of its
/// record.
pub fn terminate<S: ProcessSource, C: Confirmer, K: Clock, A: AuditSink>(
    source: &mut S,
    confirmer: &mut C,
    clock: &mut K,
    audit: &mut A,
    target_pid: u64,
) -> (r: Result<TerminationOutcome, TerminationError>)
    ensures
        match r {
            Ok(out) => {
                &&& out.record()@.wf()
                &&& out.record()@.pid == target_pid
                &&& out.audit_written() ==> final(audit).lines() == old(audit).lines().push(
                    record_line_chars(out.record()@),
                )
                &&& !out.audit_written() ==> final(audit).lines() == old(audit).lines()
            },
            Err(_) => final(audit).lines() == old(audit).lines(),
        },
{
    let snap = match source.snapshot() {
        Some(s) => s,
        None => {
            return Err(TerminationError::SnapshotUnavailable);
        },
    };
    terminate_in_snapshot(&snap, source, confirmer, clock, audit, target_pid)
}

} // verus!
