//! Time spans and system time as whole seconds and nanoseconds.
//!
//! A span is a signed number of whole seconds plus a nanosecond remainder
//! below one billion that always counts forward from the seconds mark, the
//! same shape the host's clock reports. Reading the clock itself is an edge
//! concern outside this layer; the arithmetic on the values lives here.

use vstd::prelude::*;

verus! {

/// The number of nanoseconds in one second.
pub const NANOS_PER_SECOND: u32 = 1_000_000_000;

/// A span of time: whole seconds plus a nanosecond remainder.
pub struct NSTDDuration {
    /// The whole seconds; negative for a span reaching backwards.
    seconds: i64,
    /// The nanoseconds past the seconds mark, always below one billion.
    nanoseconds: u32,
}

impl NSTDDuration {
    /// The whole seconds of the span.
    pub closed spec fn seconds(&self) -> i64 {
        self.seconds
    }

    /// The nanoseconds past the seconds mark.
    pub closed spec fn nanoseconds(&self) -> u32 {
        self.nanoseconds
    }

    /// The span's total value in nanoseconds.
    pub open spec fn total_nanos(&self) -> int {
        self.seconds() as int * 1_000_000_000 + self.nanoseconds() as int
    }

    /// Well-formedness: the nanosecond remainder is below one second.
    pub open spec fn wf(&self) -> bool {
        self.nanoseconds() < 1_000_000_000
    }
}

/// A point of system time: the span since the Unix epoch, negative for
/// times before it.
pub struct NSTDTime {
    /// The time span since the Unix epoch.
    duration: NSTDDuration,
}

impl NSTDTime {
    /// The span since the Unix epoch.
    pub closed spec fn duration(&self) -> NSTDDuration {
        self.duration
    }

    /// The point's total offset from the epoch in nanoseconds.
    pub open spec fn total_nanos(&self) -> int {
        self.duration().total_nanos()
    }

    /// Well-formedness of the underlying span.
    pub open spec fn wf(&self) -> bool {
        self.duration().wf()
    }
}

/// Creates a time span from whole seconds and a nanosecond remainder.
pub fn nstd_core_time_duration_new(seconds: i64, nanoseconds: u32) -> (r: NSTDDuration)
    requires
        nanoseconds < 1_000_000_000,
    ensures
        r.wf(),
        r.seconds() == seconds,
        r.nanoseconds() == nanoseconds,
{
    NSTDDuration { seconds, nanoseconds }
}

/// Returns the whole seconds of a time span.
pub fn nstd_core_time_duration_seconds(duration: &NSTDDuration) -> (r: i64)
    ensures
        r == duration.seconds(),
{
    duration.seconds
}

/// Returns the nanoseconds of a time span past its seconds mark.
pub fn nstd_core_time_duration_nanoseconds(duration: &NSTDDuration) -> (r: u32)
    ensures
        r == duration.nanoseconds(),
{
    duration.nanoseconds
}

/// Creates a point of system time from its span since the Unix epoch.
pub fn nstd_time_new(duration: NSTDDuration) -> (r: NSTDTime)
    requires
        duration.wf(),
    ensures
        r.wf(),
        r.duration() == duration,
{
    NSTDTime { duration }
}

/// Returns the number of whole seconds held in a time object.
pub fn nstd_time_seconds(time: &NSTDTime) -> (r: i64)
    ensures
        r == time.duration().seconds(),
{
    time.duration.seconds
}

/// Returns the nanoseconds held in a time object past its seconds mark.
pub fn nstd_time_nanoseconds(time: &NSTDTime) -> (r: u32)
    ensures
        r == time.duration().nanoseconds(),
{
    time.duration.nanoseconds
}

/// Computes the addition of a time object and a time span, carrying the
/// nanosecond remainders into the seconds.
pub fn nstd_time_add(time: &NSTDTime, duration: &NSTDDuration) -> (r: NSTDTime)
    requires
        time.wf(),
        duration.wf(),
        i64::MIN <= time.duration().seconds() + duration.seconds(),
        time.duration().seconds() + duration.seconds() + 1 <= i64::MAX,
    ensures
        r.wf(),
        r.total_nanos() == time.total_nanos() + duration.total_nanos(),
{
    let mut seconds = time.duration.seconds + duration.seconds;
    let mut nanoseconds = time.duration.nanoseconds + duration.nanoseconds;
    if nanoseconds >= NANOS_PER_SECOND {
        nanoseconds = nanoseconds - NANOS_PER_SECOND;
        seconds = seconds + 1;
    }
    NSTDTime { duration: NSTDDuration { seconds, nanoseconds } }
}

/// Computes the subtraction of a time span from a time object, borrowing
/// from the seconds when the nanoseconds run out.
pub fn nstd_time_sub(time: &NSTDTime, duration: &NSTDDuration) -> (r: NSTDTime)
    requires
        time.wf(),
        duration.wf(),
        i64::MIN <= time.duration().seconds() - duration.seconds() - 1,
        time.duration().seconds() - duration.seconds() <= i64::MAX,
    ensures
        r.wf(),
        r.total_nanos() == time.total_nanos() - duration.total_nanos(),
{
    let seconds: i64;
    let nanoseconds: u32;
    if time.duration.nanoseconds >= duration.nanoseconds {
        seconds = time.duration.seconds - duration.seconds;
        nanoseconds = time.duration.nanoseconds - duration.nanoseconds;
    } else {
        seconds = time.duration.seconds - duration.seconds - 1;
        nanoseconds = time.duration.nanoseconds + NANOS_PER_SECOND - duration.nanoseconds;
    }
    NSTDTime { duration: NSTDDuration { seconds, nanoseconds } }
}

} // verus!
