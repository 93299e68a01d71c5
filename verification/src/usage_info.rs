//! Usage statistics of a state backend.

use core::time::Duration;
use vstd::prelude::*;

verus! {

/// Measured count of operations and total bytes.
#[derive(Debug)]
pub struct UsageUnit {
    /// Number of operations.
    pub ops: u64,
    /// Number of bytes.
    pub bytes: u64,
}

impl UsageUnit {
    /// Whether nothing was counted.
    pub open spec fn is_zero(self) -> bool {
        self.ops == 0 && self.bytes == 0
    }
}

impl Clone for UsageUnit {
    fn clone(&self) -> (copy: Self)
        ensures
            copy == *self,
    {
        UsageUnit { ops: self.ops, bytes: self.bytes }
    }
}

impl Default for UsageUnit {
    fn default() -> (unit: Self)
        ensures
            unit.is_zero(),
    {
        UsageUnit { ops: 0, bytes: 0 }
    }
}

/// Usage statistics for state backend.
#[derive(Debug)]
pub struct UsageInfo {
    /// Read statistics (total).
    pub reads: UsageUnit,
    /// Write statistics.
    pub writes: UsageUnit,
    /// Cache read statistics.
    pub cache_reads: UsageUnit,
    /// Memory used.
    pub memory: u64,
    /// Moment at which current statistics has been started being collected.
    pub started: Duration,
    /// Timespan of the statistics.
    pub span: Duration,
}

/// The span of time that `Duration::new` makes of whole seconds and further nanoseconds.
pub uninterp spec fn duration_of(secs: u64, nanos: u32) -> Duration;

/// Calls `Duration::new`.
///
/// Taken on trust: the span depends on the two numbers alone, so it can be named. Below
/// a full second of nanoseconds nothing is carried over, and the call cannot overflow.
#[verifier::external_body]
fn new_duration(secs: u64, nanos: u32) -> (span: Duration)
    requires
        nanos < 1_000_000_000,
    ensures
        span == duration_of(secs, nanos),
{
    Duration::new(secs, nanos)
}

impl Clone for UsageInfo {
    fn clone(&self) -> (copy: Self)
        ensures
            copy == *self,
    {
        UsageInfo {
            reads: self.reads.clone(),
            writes: self.writes.clone(),
            cache_reads: self.cache_reads.clone(),
            memory: self.memory,
            started: self.started,
            span: self.span,
        }
    }
}

impl UsageInfo {
    /// Empty statistics.
    ///
    /// Means no data was collected.
    pub fn empty() -> (info: Self)
        ensures
            info.reads.is_zero(),
            info.writes.is_zero(),
            info.cache_reads.is_zero(),
            info.memory == 0,
            info.started == duration_of(0, 0),
            info.span == duration_of(0, 0),
    {
        Self {
            reads: UsageUnit::default(),
            writes: UsageUnit::default(),
            cache_reads: UsageUnit::default(),
            memory: 0,
            started: new_duration(0, 0),
            span: new_duration(0, 0),
        }
    }
}

} // verus!
