//! Wall-clock timestamps broken into calendar fields.

use vstd::prelude::*;

verus! {

/// A local wall-clock reading, broken into calendar fields so that the audit
/// formatting can be reasoned about. Well-formedness bounds every field the
/// way a calendar does; the year carries no tighter bound than the range the
/// platform clock can report.
#[derive(Clone, Copy, PartialEq, Eq, Structural, Debug)]
pub struct Timestamp {
    pub year: i64,
    pub month: u32,
    pub day: u32,
    pub hour: u32,
    pub minute: u32,
    pub second: u32,
}

impl Timestamp {
    /// Calendar bounds on every field.
    pub open spec fn wf(self) -> bool {
        &&& -2147483648 <= self.year <= 2147483647
        &&& 1 <= self.month <= 12
        &&& 1 <= self.day <= 31
        &&& self.hour <= 23
        &&& self.minute <= 59
        &&& self.second <= 59
    }
}

/// Relies on `chrono::Local::now` and chrono's `Datelike` / `Timelike`
/// accessors: `month()` ranges over 1..=12, `day()` over 1..=31, `hour()`
/// over 0..=23, `minute()` and `second()` over 0..=59, and `year()` is an
/// `i32`. Nothing more is assumed: the reading itself depends on the
/// machine's clock.
#[verifier::external_body]
fn local_now_fields() -> (t: Timestamp)
    ensures
        t.wf(),
{
    let now = chrono::Local::now();
    Timestamp {
        year: chrono::Datelike::year(&now) as i64,
        month: chrono::Datelike::month(&now),
        day: chrono::Datelike::day(&now),
        hour: chrono::Timelike::hour(&now),
        minute: chrono::Timelike::minute(&now),
        second: chrono::Timelike::second(&now),
    }
}

/// The clock capability handed to the termination controller: every reading
/// is a well-formed calendar timestamp.
pub trait Clock {
    fn now(&mut self) -> (t: Timestamp)
        ensures
            t.wf(),
    ;
}

/// The machine's local wall clock.
pub struct SystemClock;

impl Clock for SystemClock {
    fn now(&mut self) -> (t: Timestamp) {
        local_now_fields()
    }
}

} // verus!
