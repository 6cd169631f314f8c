//! UTC instants as plain seconds + nanoseconds, and the clock arithmetic the
//! capture pipeline needs: correlating a kernel buffer timestamp (relative to
//! an arbitrary monotonic boot epoch) with wall-clock UTC, and measuring the
//! distance between an instant and a snapshot target.

use vstd::prelude::*;

verus! {

/// Nanoseconds in one second.
pub const NANOS_PER_SEC: u32 = 1_000_000_000;

/// One UTC instant: whole seconds since the epoch plus a sub-second
/// nanosecond part in `0..1_000_000_000`.
#[derive(Copy, Clone, PartialEq, Eq, Structural, Debug)]
pub struct UtcTime {
    pub secs: i64,
    pub nanos: u32,
}

impl UtcTime {
    /// The instant as a single (mathematical) count of nanoseconds.
    pub open spec fn total_nanos(self) -> int {
        self.secs * 1_000_000_000 + self.nanos
    }

    /// The nanosecond part is normalized.
    pub open spec fn wf(self) -> bool {
        self.nanos < 1_000_000_000
    }

    /// Builds an instant from its two components.
    pub fn new(secs: i64, nanos: u32) -> (r: UtcTime)
        requires
            nanos < 1_000_000_000,
        ensures
            r == (UtcTime { secs, nanos }),
            r.wf(),
    {
        UtcTime { secs, nanos }
    }

    /// The instant `millis` milliseconds after `self`; used to place the
    /// common snapshot target a fixed delay into the future.
    pub fn plus_millis(self, millis: i64) -> (r: UtcTime)
        requires
            self.wf(),
            0 <= millis,
            self.secs + millis / 1000 + 1 < i64::MAX,
        ensures
            r.wf(),
            r.total_nanos() == self.total_nanos() + millis * 1_000_000,
    {
        let add_secs: i64 = millis / 1000;
        let add_nanos: u32 = ((millis % 1000) * 1_000_000) as u32;
        let mut secs: i64 = self.secs + add_secs;
        let mut nanos: u64 = self.nanos as u64 + add_nanos as u64;
        if nanos >= NANOS_PER_SEC as u64 {
            secs = secs + 1;
            nanos = nanos - NANOS_PER_SEC as u64;
        }
        UtcTime { secs, nanos: nanos as u32 }
    }
}

/// The absolute distance between two instants, in nanoseconds.
pub open spec fn spec_abs_nanos_between(a: UtcTime, b: UtcTime) -> int {
    if a.total_nanos() >= b.total_nanos() {
        a.total_nanos() - b.total_nanos()
    } else {
        b.total_nanos() - a.total_nanos()
    }
}

/// How far apart two instants are, in nanoseconds.  This is the quantity the
/// snapshot selection minimizes.
pub fn abs_nanos_between(a: UtcTime, b: UtcTime) -> (r: u128)
    requires
        a.wf(),
        b.wf(),
    ensures
        r == spec_abs_nanos_between(a, b),
{
    let ta: i128 = a.secs as i128 * 1_000_000_000 + a.nanos as i128;
    let tb: i128 = b.secs as i128 * 1_000_000_000 + b.nanos as i128;
    if ta >= tb {
        (ta - tb) as u128
    } else {
        (tb - ta) as u128
    }
}

/// The absolute value of a (signed) nanosecond duration.
pub fn duration_abs(duration_nanos: i64) -> (r: u64)
    ensures
        r == (if duration_nanos >= 0 {
            duration_nanos as int
        } else {
            -(duration_nanos as int)
        }),
{
    if duration_nanos >= 0 {
        duration_nanos as u64
    } else if duration_nanos == i64::MIN {
        9_223_372_036_854_775_808u64
    } else {
        (-duration_nanos) as u64
    }
}

/// Translates a kernel buffer timestamp (seconds + microseconds since an
/// arbitrary monotonic boot epoch) into UTC by adding the node's boot time.
pub fn timestamp_to_utc(ts_secs: i64, ts_usec: i64, boot_time_utc: UtcTime) -> (r: UtcTime)
    requires
        boot_time_utc.wf(),
        0 <= ts_usec < 1_000_000,
        i64::MIN < boot_time_utc.secs + ts_secs,
        boot_time_utc.secs + ts_secs + 1 < i64::MAX,
    ensures
        r.wf(),
        r.total_nanos() == boot_time_utc.total_nanos() + ts_secs * 1_000_000_000 + ts_usec * 1000,
{
    let mut secs: i64 = boot_time_utc.secs + ts_secs;
    let mut nanos: u64 = boot_time_utc.nanos as u64 + (ts_usec as u64) * 1000;
    if nanos >= NANOS_PER_SEC as u64 {
        secs = secs + 1;
        nanos = nanos - NANOS_PER_SEC as u64;
    }
    UtcTime { secs, nanos: nanos as u32 }
}

/// Computes the node's boot instant in UTC: the wall clock now, minus how
/// long the monotonic clock says the machine has been up.  Kernel buffer
/// timestamps are relative to that boot instant.
pub fn boot_time_utc(now: UtcTime, since_boot_secs: i64, since_boot_nanos: i64) -> (r: UtcTime)
    requires
        now.wf(),
        0 <= since_boot_secs,
        0 <= since_boot_nanos < 1_000_000_000,
        i64::MIN < now.secs - since_boot_secs - 1,
    ensures
        r.wf(),
        r.total_nanos() == now.total_nanos() - (since_boot_secs * 1_000_000_000
            + since_boot_nanos),
{
    if now.nanos as i64 >= since_boot_nanos {
        UtcTime {
            secs: now.secs - since_boot_secs,
            nanos: (now.nanos as i64 - since_boot_nanos) as u32,
        }
    } else {
        UtcTime {
            secs: now.secs - since_boot_secs - 1,
            nanos: (now.nanos as i64 + NANOS_PER_SEC as i64 - since_boot_nanos) as u32,
        }
    }
}

} // verus!
