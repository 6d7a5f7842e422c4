//! CPU usage samples and the total order used to rank them.

use vstd::prelude::*;

verus! {

/// A point-in-time CPU usage sample for one process, in hundredths of a
/// percent (so `Centi(12345)` is 123.45%; totals above 100% are possible on
/// multi-core hosts). A platform may hand back a reading that admits no
/// ordered interpretation; such a sample is `Unordered` and ranks below
/// every `Centi` reading, so that ranking never fails on it.
#[derive(Clone, Copy, PartialEq, Eq, Structural, Debug)]
pub enum CpuUsage {
    Unordered,
    Centi(u64),
}

/// `a` ranks at least as high as `b`: `Unordered` is the bottom of the order.
pub open spec fn cpu_ge(a: CpuUsage, b: CpuUsage) -> bool {
    match (a, b) {
        (CpuUsage::Centi(x), CpuUsage::Centi(y)) => x >= y,
        (CpuUsage::Centi(_), CpuUsage::Unordered) => true,
        (CpuUsage::Unordered, CpuUsage::Centi(_)) => false,
        (CpuUsage::Unordered, CpuUsage::Unordered) => true,
    }
}

/// `a` ranks strictly higher than `b`.
pub open spec fn cpu_gt(a: CpuUsage, b: CpuUsage) -> bool {
    cpu_ge(a, b) && !cpu_ge(b, a)
}

/// The sample strictly exceeds a threshold given in hundredths of a percent.
/// An `Unordered` sample exceeds no threshold, not even a negative one.
pub open spec fn cpu_exceeds(c: CpuUsage, threshold: i64) -> bool {
    match c {
        CpuUsage::Unordered => false,
        CpuUsage::Centi(x) => x > threshold,
    }
}

impl CpuUsage {
    /// Decides `cpu_ge` on concrete samples.
    pub fn ge(self, other: CpuUsage) -> (r: bool)
        ensures
            r == cpu_ge(self, other),
    {
        match (self, other) {
            (CpuUsage::Centi(x), CpuUsage::Centi(y)) => x >= y,
            (CpuUsage::Centi(_), CpuUsage::Unordered) => true,
            (CpuUsage::Unordered, CpuUsage::Centi(_)) => false,
            (CpuUsage::Unordered, CpuUsage::Unordered) => true,
        }
    }

    /// Decides `cpu_gt` on concrete samples.
    pub fn gt(self, other: CpuUsage) -> (r: bool)
        ensures
            r == cpu_gt(self, other),
    {
        self.ge(other) && !other.ge(self)
    }

    /// Decides `cpu_exceeds` on a concrete sample and threshold.
    pub fn exceeds(self, threshold: i64) -> (r: bool)
        ensures
            r == cpu_exceeds(self, threshold),
    {
        match self {
            CpuUsage::Unordered => false,
            CpuUsage::Centi(x) => threshold < 0 || x > (threshold as u64),
        }
    }
}

/// The ranking order is total: any two samples are comparable.
pub proof fn lemma_cpu_order_total(a: CpuUsage, b: CpuUsage)
    ensures
        cpu_ge(a, b) || cpu_ge(b, a),
{
}

/// The ranking order is transitive.
pub proof fn lemma_cpu_order_transitive(a: CpuUsage, b: CpuUsage, c: CpuUsage)
    ensures
        cpu_ge(a, b) && cpu_ge(b, c) ==> cpu_ge(a, c),
{
}

} // verus!
