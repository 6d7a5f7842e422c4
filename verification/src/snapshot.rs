//! Point-in-time process snapshots and identity lookup.

use vstd::prelude::*;

use crate::cpu::CpuUsage;

verus! {

/// A read-only, point-in-time fact about one process: its identifier, its
/// display name, and its CPU usage sample. It is only meaningful relative to
/// the snapshot that produced it.
pub struct ProcessInfo {
    pub pid: u64,
    pub name: String,
    pub cpu: CpuUsage,
}

/// The mathematical value of a `ProcessInfo`.
pub struct ProcView {
    pub pid: u64,
    pub name: Seq<char>,
    pub cpu: CpuUsage,
}

impl View for ProcessInfo {
    type V = ProcView;

    open spec fn view(&self) -> ProcView {
        ProcView { pid: self.pid, name: self.name@, cpu: self.cpu }
    }
}

impl Clone for ProcessInfo {
    /// A clone carries the same identifier, name and sample.
    fn clone(&self) -> (r: Self)
        ensures
            r@ == self@,
    {
        ProcessInfo { pid: self.pid, name: self.name.clone(), cpu: self.cpu }
    }
}

/// The mathematical values of a sequence of entries.
pub open spec fn views_of(s: Seq<ProcessInfo>) -> Seq<ProcView> {
    s.map_values(|p: ProcessInfo| p@)
}

/// An immutable enumeration of the processes visible at one instant. Later
/// snapshots supersede earlier ones; they never update them.
pub struct Snapshot {
    pub procs: Vec<ProcessInfo>,
}

impl View for Snapshot {
    type V = Seq<ProcView>;

    open spec fn view(&self) -> Seq<ProcView> {
        views_of(self.procs@)
    }
}

/// Some entry of the snapshot carries this process identifier.
pub open spec fn contains_pid(s: Seq<ProcView>, pid: u64) -> bool {
    exists|i: int| 0 <= i < s.len() && s[i].pid == pid
}

/// `p` is the first entry of `s` that carries `pid`.
pub open spec fn resolves_to(s: Seq<ProcView>, pid: u64, p: ProcView) -> bool {
    exists|i: int|
        {
            &&& 0 <= i < s.len()
            &&& #[trigger] s[i] == p
            &&& p.pid == pid
            &&& forall|j: int| 0 <= j < i ==> s[j].pid != pid
        }
}

/// Taking views commutes with appending an entry.
pub proof fn lemma_views_push(s: Seq<ProcessInfo>, p: ProcessInfo)
    ensures
        views_of(s.push(p)) == views_of(s).push(p@),
{
    assert(views_of(s.push(p)) =~= views_of(s).push(p@));
}

/// Taking views commutes with inserting an entry.
pub proof fn lemma_views_insert(s: Seq<ProcessInfo>, at: int, p: ProcessInfo)
    requires
        0 <= at <= s.len(),
    ensures
        views_of(s.insert(at, p)) == views_of(s).insert(at, p@),
{
    assert(views_of(s.insert(at, p)) =~= views_of(s).insert(at, p@));
}

/// Taking views commutes with taking a subrange.
pub proof fn lemma_views_subrange(s: Seq<ProcessInfo>, a: int, b: int)
    requires
        0 <= a <= b <= s.len(),
    ensures
        views_of(s.subrange(a, b)) == views_of(s).subrange(a, b),
{
    assert(views_of(s.subrange(a, b)) =~= views_of(s).subrange(a, b));
}

impl Snapshot {
    /// The number of entries.
    pub fn len(&self) -> (r: usize)
        ensures
            r == self@.len(),
    {
        self.procs.len()
    }

    /// Re-resolves a process identifier against this snapshot: hands back a
    /// copy of the first entry that carries `pid`, or `None` when no entry
    /// does.
    pub fn lookup(&self, pid: u64) -> (r: Option<ProcessInfo>)
        ensures
            match r {
                Some(p) => resolves_to(self@, pid, p@),
                None => !contains_pid(self@, pid),
            },
    {
        let n = self.procs.len();
        let mut i: usize = 0;
        while i < n
            invariant
                n == self.procs.len(),
                i <= n,
                forall|j: int| 0 <= j < i ==> self@[j].pid != pid,
            decreases n - i,
        {
            if self.procs[i].pid == pid {
                let found = self.procs[i].clone();
                proof {
                    assert(self@[i as int] == found@);
                }
                return Some(found);
            }
            i += 1;
        }
        None
    }
}

} // verus!
