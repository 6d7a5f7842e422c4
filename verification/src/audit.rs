//! Termination records, the fixed audit line format, and the append-only
//! audit log.

use vstd::prelude::*;
use vstd::string::StringExecFns;

use crate::clock::Timestamp;
use crate::text::{dec_digits, push_decimal, push_decimal_pad2, push_year, year_chars,
    zero_padded};

verus! {

/// Durable proof that one termination happened: created exactly once per
/// successful kill, appended to the audit log, never changed afterwards.
pub struct TerminationRecord {
    pub time: Timestamp,
    pub pid: u64,
    pub name: String,
}

/// The mathematical value of a `TerminationRecord`.
pub struct RecordView {
    pub time: Timestamp,
    pub pid: u64,
    pub name: Seq<char>,
}

impl View for TerminationRecord {
    type V = RecordView;

    open spec fn view(&self) -> RecordView {
        RecordView { time: self.time, pid: self.pid, name: self.name@ }
    }
}

impl RecordView {
    /// A record is well formed when its timestamp is.
    pub open spec fn wf(self) -> bool {
        self.time.wf()
    }
}

/// The fixed timestamp layout inside an audit line: `YYYY-MM-DD HH:MM:SS`,
/// every field zero-padded.
pub open spec fn timestamp_chars(t: Timestamp) -> Seq<char> {
    year_chars(t.year as int) + seq!['-'] + zero_padded(t.month as nat, 2) + seq!['-']
        + zero_padded(t.day as nat, 2) + seq![' '] + zero_padded(t.hour as nat, 2) + seq![':']
        + zero_padded(t.minute as nat, 2) + seq![':'] + zero_padded(t.second as nat, 2)
}

/// The fixed audit line layout, newline-terminated:
/// `[<timestamp>] Killed Process: <name> (PID: <id>)`.
pub open spec fn record_line_chars(r: RecordView) -> Seq<char> {
    seq!['['] + timestamp_chars(r.time) + "] Killed Process: "@ + r.name + " (PID: "@
        + dec_digits(r.pid as nat) + ")"@ + "\n"@
}

/// Appends the fixed timestamp layout of `t`.
#[verifier::rlimit(50)]
fn push_timestamp(s: &mut String, t: Timestamp)
    requires
        t.wf(),
    ensures
        final(s)@ == old(s)@ + timestamp_chars(t),
{
    push_year(s, t.year);
    s.append("-");
    push_decimal_pad2(s, t.month as u64);
    s.append("-");
    push_decimal_pad2(s, t.day as u64);
    s.append(" ");
    push_decimal_pad2(s, t.hour as u64);
    s.append(":");
    push_decimal_pad2(s, t.minute as u64);
    s.append(":");
    push_decimal_pad2(s, t.second as u64);
    proof {
        reveal_strlit("-");
        reveal_strlit(" ");
        reveal_strlit(":");
        assert("-"@ =~= seq!['-']);
        assert(" "@ =~= seq![' ']);
        assert(":"@ =~= seq![':']);
        assert(s@ =~= old(s)@ + timestamp_chars(t));
    }
}

/// Renders one record as its audit line, exactly as `record_line_chars` lays
/// it out.
#[verifier::rlimit(50)]
pub fn record_line(rec: &TerminationRecord) -> (r: String)
    requires
        rec@.wf(),
    ensures
        r@ == record_line_chars(rec@),
{
    let mut line = String::new();
    line.append("[");
    push_timestamp(&mut line, rec.time);
    line.append("] Killed Process: ");
    line.append(rec.name.as_str());
    line.append(" (PID: ");
    push_decimal(&mut line, rec.pid);
    line.append(")");
    line.append("\n");
    proof {
        reveal_strlit("[");
        assert("["@ =~= seq!['[']);
        assert(line@ =~= record_line_chars(rec@));
    }
    line
}

/// The audit sink capability: an append-only sequence of recorded lines.
/// One call to `append` either records exactly the given line at the end of
/// the log and reports true, or leaves the log unchanged and reports false;
/// it never disturbs what was recorded before.
pub trait AuditSink {
    /// The lines recorded so far. A sink that does not track its contents
    /// for reasoning may leave the default, which stands for no tracked
    /// lines.
    open spec fn lines(&self) -> Seq<Seq<char>> {
        Seq::empty()
    }

    fn append(&mut self, line: &String) -> (ok: bool)
        ensures
            ok ==> final(self).lines() == old(self).lines().push(line@),
            !ok ==> final(self).lines() == old(self).lines(),
    ;
}

/// The recorded lines of a sequence of entries.
pub open spec fn lines_of(entries: Seq<String>) -> Seq<Seq<char>> {
    entries.map_values(|line: String| line@)
}

/// An in-memory audit log: a vector of lines that only ever grows at the
/// end. Its `append` never fails.
pub struct AuditLog {
    entries: Vec<String>,
}

impl View for AuditLog {
    type V = Seq<Seq<char>>;

    closed spec fn view(&self) -> Seq<Seq<char>> {
        lines_of(self.entries@)
    }
}

impl AuditLog {
    /// An empty log.
    pub fn new() -> (r: AuditLog)
        ensures
            r@ == Seq::<Seq<char>>::empty(),
    {
        let r = AuditLog { entries: Vec::new() };
        proof {
            assert(r@ =~= Seq::<Seq<char>>::empty());
        }
        r
    }

    /// How many lines were recorded.
    pub fn line_count(&self) -> (r: usize)
        ensures
            r == self@.len(),
    {
        self.entries.len()
    }

    /// One recorded line.
    pub fn line_at(&self, i: usize) -> (r: &String)
        requires
            i < self@.len(),
        ensures
            r@ == self@[i as int],
    {
        &self.entries[i]
    }
}

impl AuditSink for AuditLog {
    open spec fn lines(&self) -> Seq<Seq<char>> {
        self@
    }

    fn append(&mut self, line: &String) -> (ok: bool) {
        let ghost before = self.entries@;
        self.entries.push(line.clone());
        proof {
            assert(lines_of(self.entries@) =~= lines_of(before).push(line@));
        }
        true
    }
}

/// Appending to an audit log is append-only: every line already recorded
/// keeps its place and content, exactly one line appears at the end, and the
/// flattened text of the log grows only by the new line — the characters
/// already written stay unchanged.
pub proof fn lemma_audit_append_only(before: Seq<Seq<char>>, line: Seq<char>)
    ensures
        before.push(line).len() == before.len() + 1,
        forall|i: int| 0 <= i < before.len() ==> #[trigger] before.push(line)[i] == before[i],
        before.push(line)[before.len() as int] == line,
        before.push(line).flatten() == before.flatten() + line,
{
    broadcast use Seq::lemma_flatten_push;

    assert(before.push(line).flatten() =~= before.flatten() + line);
}

} // verus!
