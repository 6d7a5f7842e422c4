//! Pure observations over a snapshot: top-N ranking and threshold
//! classification.

use vstd::multiset::Multiset;
use vstd::prelude::*;

use crate::cpu::{cpu_exceeds, cpu_ge, cpu_gt};
use crate::snapshot::{views_of, ProcView, ProcessInfo, Snapshot};

verus! {

/// An argument rejected before any work is done.
#[derive(Clone, Copy, PartialEq, Eq, Structural, Debug)]
pub enum RankError {
    InvalidArgument,
}

/// Every entry ranks at least as high as every later entry.
pub open spec fn sorted_desc(s: Seq<ProcView>) -> bool {
    forall|i: int, j: int|
        0 <= i < j < s.len() ==> cpu_ge(#[trigger] s[i].cpu, #[trigger] s[j].cpu)
}

/// Places `p` into an already ranked sequence: `p` goes in front of the first
/// entry that does not rank strictly higher, so an entry inserted later never
/// overtakes an equally ranked earlier one.
pub open spec fn rank_insert(p: ProcView, s: Seq<ProcView>) -> Seq<ProcView>
    decreases s.len(),
{
    if s.len() == 0 {
        seq![p]
    } else if cpu_gt(s[0].cpu, p.cpu) {
        seq![s[0]] + rank_insert(p, s.drop_first())
    } else {
        seq![p] + s
    }
}

/// Stable ranking of a snapshot by CPU usage, highest first: entries with
/// equal samples keep their snapshot order, and `Unordered` samples rank
/// below everything.
pub open spec fn rank_sort(s: Seq<ProcView>) -> Seq<ProcView>
    decreases s.len(),
{
    if s.len() == 0 {
        Seq::empty()
    } else {
        rank_insert(s[0], rank_sort(s.drop_first()))
    }
}

/// What `top_n` returns on a snapshot view: the ranked entries, cut down to
/// the first `n` of them.
pub open spec fn spec_top_n(s: Seq<ProcView>, n: int) -> Seq<ProcView> {
    if n <= s.len() {
        rank_sort(s).take(n)
    } else {
        rank_sort(s)
    }
}

/// What `above_threshold` returns on a snapshot view: exactly the entries
/// whose sample strictly exceeds the threshold, in snapshot order.
pub open spec fn spec_above_threshold(s: Seq<ProcView>, threshold: i64) -> Seq<ProcView> {
    s.filter(|p: ProcView| cpu_exceeds(p.cpu, threshold))
}

/// Inserting into a ranked sequence grows it by one entry, adds exactly the
/// inserted entry, invents no entry, and keeps it ranked.
pub proof fn lemma_rank_insert_props(p: ProcView, s: Seq<ProcView>)
    ensures
        rank_insert(p, s).len() == s.len() + 1,
        rank_insert(p, s).to_multiset() == s.to_multiset().insert(p),
        forall|k: int|
            0 <= k < rank_insert(p, s).len()
                ==> #[trigger] rank_insert(p, s)[k] == p || s.contains(rank_insert(p, s)[k]),
        sorted_desc(s) ==> sorted_desc(rank_insert(p, s)),
    decreases s.len(),
{
    broadcast use vstd::seq_lib::group_to_multiset_ensures;
    broadcast use vstd::seq_lib::lemma_multiset_commutative;

    let r = rank_insert(p, s);
    if s.len() == 0 {
        assert(seq![p] =~= Seq::<ProcView>::empty().push(p));
        assert(r.to_multiset() =~= s.to_multiset().insert(p));
    } else if cpu_gt(s[0].cpu, p.cpu) {
        let tail = s.drop_first();
        let rest = rank_insert(p, tail);
        lemma_rank_insert_props(p, tail);
        assert(r == seq![s[0]] + rest);
        // The inserted sequence holds exactly the old entries and `p`.
        assert(seq![s[0]].to_multiset() =~= Multiset::<ProcView>::empty().insert(s[0])) by {
            assert(seq![s[0]] =~= Seq::<ProcView>::empty().push(s[0]));
        }
        assert(s =~= seq![s[0]] + tail);
        assert(r.to_multiset() =~= s.to_multiset().insert(p));
        // No entry is invented.
        assert forall|k: int| 0 <= k < r.len() implies #[trigger] r[k] == p || s.contains(r[k]) by {
            if k > 0 {
                assert(r[k] == rest[k - 1]);
                if rest[k - 1] != p {
                    assert(tail.contains(rest[k - 1]));
                    let ti = choose|ti: int| 0 <= ti < tail.len() && tail[ti] == rest[k - 1];
                    assert(s[ti + 1] == rest[k - 1]);
                }
            } else {
                assert(s[0] == r[0]);
                assert(s.contains(r[0]));
            }
        }
        // Ranking is kept.
        if sorted_desc(s) {
            assert(sorted_desc(tail));
            assert(sorted_desc(rest));
            assert forall|i: int, j: int| 0 <= i < j < r.len() implies cpu_ge(
                #[trigger] r[i].cpu,
                #[trigger] r[j].cpu,
            ) by {
                if i == 0 {
                    // `s[0]` ranks above `p` and above every old tail entry.
                    assert(r[j] == rest[j - 1]);
                    if rest[j - 1] == p {
                        assert(cpu_ge(s[0].cpu, p.cpu));
                    } else {
                        assert(tail.contains(rest[j - 1]));
                        let ti = choose|ti: int| 0 <= ti < tail.len() && tail[ti] == rest[j - 1];
                        assert(s[ti + 1] == rest[j - 1]);
                        assert(cpu_ge(s[0].cpu, s[ti + 1].cpu));
                    }
                } else {
                    assert(r[i] == rest[i - 1] && r[j] == rest[j - 1]);
                    assert(cpu_ge(rest[i - 1].cpu, rest[j - 1].cpu));
                }
            }
        }
    } else {
        assert(r == seq![p] + s);
        assert(seq![p].to_multiset() =~= Multiset::<ProcView>::empty().insert(p)) by {
            assert(seq![p] =~= Seq::<ProcView>::empty().push(p));
        }
        assert(r.to_multiset() =~= s.to_multiset().insert(p));
        assert forall|k: int| 0 <= k < r.len() implies #[trigger] r[k] == p || s.contains(r[k]) by {
            if k > 0 {
                assert(r[k] == s[k - 1]);
                assert(s.contains(s[k - 1]));
            }
        }
        if sorted_desc(s) {
            // `p` ranks at least as high as the old head, hence as everything.
            assert(cpu_ge(p.cpu, s[0].cpu)) by {
                crate::cpu::lemma_cpu_order_total(p.cpu, s[0].cpu);
            }
            assert forall|i: int, j: int| 0 <= i < j < r.len() implies cpu_ge(
                #[trigger] r[i].cpu,
                #[trigger] r[j].cpu,
            ) by {
                if i == 0 {
                    assert(r[j] == s[j - 1]);
                    if j - 1 > 0 {
                        assert(cpu_ge(s[0].cpu, s[j - 1].cpu));
                    }
                    crate::cpu::lemma_cpu_order_transitive(p.cpu, s[0].cpu, s[j - 1].cpu);
                } else {
                    assert(r[i] == s[i - 1] && r[j] == s[j - 1]);
                }
            }
        }
    }
}

/// Ranking a snapshot reorders exactly its entries: same length, same
/// multiset of entries, and the result is ranked.
pub proof fn lemma_rank_sort_props(s: Seq<ProcView>)
    ensures
        rank_sort(s).len() == s.len(),
        rank_sort(s).to_multiset() == s.to_multiset(),
        sorted_desc(rank_sort(s)),
    decreases s.len(),
{
    broadcast use vstd::seq_lib::group_to_multiset_ensures;
    broadcast use vstd::seq_lib::lemma_multiset_commutative;

    if s.len() == 0 {
        assert(rank_sort(s).to_multiset() =~= s.to_multiset());
    } else {
        let tail = s.drop_first();
        lemma_rank_sort_props(tail);
        lemma_rank_insert_props(s[0], rank_sort(tail));
        assert(seq![s[0]].to_multiset() =~= Multiset::<ProcView>::empty().insert(s[0])) by {
            assert(seq![s[0]] =~= Seq::<ProcView>::empty().push(s[0]));
        }
        assert(s =~= seq![s[0]] + tail);
        assert(s.to_multiset() =~= seq![s[0]].to_multiset().add(tail.to_multiset()));
        assert(rank_sort(s).to_multiset() =~= s.to_multiset());
    }
}

/// Where the scan of a ranked prefix stopped is where `rank_insert` places
/// the entry: everything before index `at` ranks strictly higher, the entry
/// at `at` (if any) does not, so the spec insertion lands exactly there.
proof fn lemma_rank_insert_at(p: ProcView, s: Seq<ProcView>, at: int)
    requires
        0 <= at <= s.len(),
        forall|k: int| 0 <= k < at ==> cpu_gt(#[trigger] s[k].cpu, p.cpu),
        at < s.len() ==> !cpu_gt(s[at].cpu, p.cpu),
    ensures
        rank_insert(p, s) == s.insert(at, p),
    decreases at,
{
    if at == 0 {
        if s.len() == 0 {
            assert(rank_insert(p, s) =~= s.insert(0, p));
        } else {
            assert(!cpu_gt(s[0].cpu, p.cpu));
            assert(seq![p] + s =~= s.insert(0, p));
        }
    } else {
        let tail = s.drop_first();
        assert(cpu_gt(s[0].cpu, p.cpu));
        assert forall|k: int| 0 <= k < at - 1 implies cpu_gt(#[trigger] tail[k].cpu, p.cpu) by {
            assert(tail[k] == s[k + 1]);
        }
        assert(at - 1 < tail.len() ==> !cpu_gt(tail[at - 1].cpu, p.cpu));
        lemma_rank_insert_at(p, tail, at - 1);
        assert(seq![s[0]] + tail.insert(at - 1, p) =~= s.insert(at, p));
    }
}

/// Places one entry into an already ranked vector, keeping it ranked and
/// matching the spec insertion exactly.
fn insert_ranked(out: &mut Vec<ProcessInfo>, p: ProcessInfo)
    ensures
        views_of(final(out)@) == rank_insert(p@, views_of(old(out)@)),
{
    let ghost s = views_of(old(out)@);
    let n = out.len();
    let mut at: usize = 0;
    while at < n && out[at].cpu.gt(p.cpu)
        invariant
            n == out.len(),
            at <= n,
            out@ == old(out)@,
            s == views_of(old(out)@),
            forall|k: int| 0 <= k < at ==> cpu_gt(#[trigger] s[k].cpu, p@.cpu),
        decreases n - at,
    {
        proof {
            assert(s[at as int] == out@[at as int]@);
        }
        at += 1;
    }
    proof {
        assert(at < n ==> s[at as int] == out@[at as int]@);
        lemma_rank_insert_at(p@, s, at as int);
    }
    out.insert(at, p);
    proof {
        crate::snapshot::lemma_views_insert(old(out)@, at as int, p);
    }
}

/// Ranks the snapshot by CPU usage, highest first, and keeps the first `n`
/// entries (all of them when the snapshot has fewer). A negative `n` is
/// rejected before any work is done.
pub fn top_n(s: &Snapshot, n: i64) -> (r: Result<Vec<ProcessInfo>, RankError>)
    ensures
        match r {
            Ok(v) => n >= 0 && views_of(v@) == spec_top_n(s@, n as int),
            Err(e) => n < 0 && e == RankError::InvalidArgument,
        },
{
    if n < 0 {
        return Err(RankError::InvalidArgument);
    }
    let len = s.procs.len();
    let mut ranked: Vec<ProcessInfo> = Vec::new();
    proof {
        assert(s@.skip(len as int) =~= Seq::<ProcView>::empty());
        assert(views_of(ranked@) =~= Seq::<ProcView>::empty());
    }
    let mut i: usize = len;
    while i > 0
        invariant
            i <= len,
            len == s.procs.len(),
            views_of(ranked@) == rank_sort(s@.skip(i as int)),
        decreases i,
    {
        i -= 1;
        let p = s.procs[i].clone();
        proof {
            assert(p@ == s@[i as int]);
        }
        insert_ranked(&mut ranked, p);
        proof {
            let suffix = s@.skip(i as int);
            assert(suffix[0] == s@[i as int]);
            assert(suffix.drop_first() =~= s@.skip(i as int + 1));
        }
    }
    proof {
        assert(s@.skip(0) =~= s@);
        lemma_rank_sort_props(s@);
    }
    let total = ranked.len();
    if (n as u64) < (total as u64) {
        let keep = n as usize;
        let ghost before = ranked@;
        ranked.truncate(keep);
        proof {
            crate::snapshot::lemma_views_subrange(before, 0, keep as int);
        }
        Ok(ranked)
    } else {
        proof {
            if n as int == s@.len() {
                assert(rank_sort(s@).take(s@.len() as int) =~= rank_sort(s@));
            }
        }
        Ok(ranked)
    }
}

/// Hands back exactly the entries whose CPU sample strictly exceeds the
/// threshold (given in hundredths of a percent), in snapshot order. An entry
/// whose sample equals the threshold is excluded.
pub fn above_threshold(s: &Snapshot, threshold: i64) -> (r: Vec<ProcessInfo>)
    ensures
        views_of(r@) == spec_above_threshold(s@, threshold),
{
    let len = s.procs.len();
    let mut out: Vec<ProcessInfo> = Vec::new();
    proof {
        assert(s@.take(0) =~= Seq::<ProcView>::empty());
        assert(views_of(out@) =~= Seq::<ProcView>::empty());
        reveal(Seq::filter);
        assert(spec_above_threshold(s@.take(0), threshold) =~= Seq::<ProcView>::empty());
    }
    let mut i: usize = 0;
    while i < len
        invariant
            i <= len,
            len == s.procs.len(),
            views_of(out@) == spec_above_threshold(s@.take(i as int), threshold),
        decreases len - i,
    {
        let ghost taken = s@.take(i as int);
        let ghost taken_next = s@.take(i as int + 1);
        proof {
            reveal(Seq::filter);
            assert(taken_next.drop_last() =~= taken);
            assert(taken_next.last() == s@[i as int]);
            assert(s@[i as int] == s.procs@[i as int]@);
        }
        if s.procs[i].cpu.exceeds(threshold) {
            let p = s.procs[i].clone();
            let ghost before = out@;
            out.push(p);
            proof {
                reveal(Seq::filter);
                crate::snapshot::lemma_views_push(before, p);
                assert(spec_above_threshold(taken_next, threshold) == spec_above_threshold(
                    taken,
                    threshold,
                ).push(s@[i as int]));
            }
        } else {
            proof {
                reveal(Seq::filter);
                assert(spec_above_threshold(taken_next, threshold) == spec_above_threshold(
                    taken,
                    threshold,
                ));
            }
        }
        i += 1;
    }
    proof {
        assert(s@.take(len as int) =~= s@);
    }
    out
}

/// The ranked view of a snapshot, cut to `n`, has length `min(n, |S|)`, is
/// ranked non-increasingly by CPU usage, and neither invents an entry nor —
/// beyond the cut — drops one: with `n` at least the snapshot size it is a
/// permutation of the snapshot.
pub proof fn lemma_top_n_shape(s: Seq<ProcView>, n: int)
    requires
        0 <= n,
    ensures
        spec_top_n(s, n).len() == if n <= s.len() { n } else { s.len() as int },
        sorted_desc(spec_top_n(s, n)),
        forall|k: int|
            0 <= k < spec_top_n(s, n).len() ==> s.contains(#[trigger] spec_top_n(s, n)[k]),
        n >= s.len() ==> spec_top_n(s, n).to_multiset() == s.to_multiset(),
{
    broadcast use vstd::seq_lib::group_to_multiset_ensures;

    lemma_rank_sort_props(s);
    let full = rank_sort(s);
    let r = spec_top_n(s, n);
    assert forall|k: int| 0 <= k < r.len() implies s.contains(#[trigger] r[k]) by {
        assert(r[k] == full[k]);
        assert(full.contains(full[k]));
        assert(full.to_multiset().count(full[k]) > 0);
        assert(s.to_multiset().count(full[k]) > 0);
        assert(s.contains(full[k]));
    }
    if n >= s.len() {
        assert(r =~= full);
    }
}

/// Threshold classification keeps exactly the exceeding entries: every kept
/// entry exceeds the threshold, and every snapshot entry that exceeds it is
/// kept.
pub proof fn lemma_above_threshold_exact(s: Seq<ProcView>, threshold: i64)
    ensures
        forall|k: int|
            0 <= k < spec_above_threshold(s, threshold).len()
                ==> cpu_exceeds(#[trigger] spec_above_threshold(s, threshold)[k].cpu, threshold),
        forall|i: int|
            0 <= i < s.len() && cpu_exceeds(s[i].cpu, threshold)
                ==> spec_above_threshold(s, threshold).contains(#[trigger] s[i]),
{
    broadcast use vstd::seq_lib::group_filter_ensures;
}

/// Observation is idempotent: the contracts of `top_n` and `above_threshold`
/// pin their results down as functions of the snapshot view alone, so two
/// results obtained from the same snapshot and arguments are equal.
pub proof fn lemma_observation_idempotent(
    s: Seq<ProcView>,
    n: int,
    threshold: i64,
    r1: Seq<ProcView>,
    r2: Seq<ProcView>,
    a1: Seq<ProcView>,
    a2: Seq<ProcView>,
)
    requires
        r1 == spec_top_n(s, n),
        r2 == spec_top_n(s, n),
        a1 == spec_above_threshold(s, threshold),
        a2 == spec_above_threshold(s, threshold),
    ensures
        r1 == r2,
        a1 == a2,
{
}

} // verus!
