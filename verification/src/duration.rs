//! Spans of time.
use vstd::prelude::*;

verus! {

/// A span of time in whole seconds and nanoseconds.
#[derive(Debug, Clone, Copy, PartialEq, Eq, Structural)]
pub struct Duration {
    /// Whole seconds.
    pub secs: u64,
    /// Nanoseconds after the last whole second.
    pub nanos: u32,
}

impl Duration {
    /// Whether the nanoseconds stay below one second.
    pub open spec fn wf(self) -> bool {
        self.nanos < 1_000_000_000
    }

    /// The length of the span in nanoseconds.
    pub open spec fn total_nanos(self) -> int {
        self.secs * 1_000_000_000 + self.nanos
    }

    /// A span of whole seconds.
    pub fn from_secs(secs: u64) -> (r: Duration)
        ensures
            r.wf(),
            r == (Duration { secs, nanos: 0 }),
            r.total_nanos() == secs * 1_000_000_000,
    {
        Duration { secs, nanos: 0 }
    }

    /// A span of whole milliseconds.
    pub fn from_millis(millis: u64) -> (r: Duration)
        ensures
            r.wf(),
            r.total_nanos() == millis * 1_000_000,
    {
        Duration { secs: millis / 1000, nanos: ((millis % 1000) as u32) * 1_000_000 }
    }

    /// The whole milliseconds in the span, at most `u64::MAX`.
    pub fn saturating_millis(&self) -> (r: u64)
        requires
            self.wf(),
        ensures
            r == if self.total_nanos() / 1_000_000 <= u64::MAX {
                self.total_nanos() / 1_000_000
            } else {
                u64::MAX as int
            },
    {
        let whole: u128 = self.secs as u128 * 1000 + (self.nanos / 1_000_000) as u128;
        assert(whole == self.total_nanos() / 1_000_000);
        if whole <= u64::MAX as u128 {
            whole as u64
        } else {
            u64::MAX
        }
    }
}

/// Spans are as long as they are said to be, and the whole milliseconds of one are
/// those that it holds.
pub proof fn law_spans_keep_their_length(
    secs: u64,
    millis: u64,
    from_secs: Duration,
    from_millis: Duration,
    span: Duration,
    whole: u64,
)
    requires
        call_ensures(Duration::from_secs, (secs,), from_secs),
        call_ensures(Duration::from_millis, (millis,), from_millis),
        call_ensures(Duration::saturating_millis, (&span,), whole),
        span.nanos < 1_000_000_000,
    ensures
        from_secs.secs == secs,
        from_secs.nanos == 0,
        from_millis.nanos < 1_000_000_000,
        from_millis.secs * 1_000_000_000 + from_millis.nanos == millis * 1_000_000,
        whole * 1_000_000 <= span.secs * 1_000_000_000 + span.nanos,
        whole < u64::MAX ==> span.secs * 1_000_000_000 + span.nanos < (whole + 1) * 1_000_000,
{
}

} // verus!
