//! Durations as the messaging client's native layer counts them.
use vstd::prelude::*;

verus! {

/// A span of time: whole seconds and the nanoseconds beyond them.
#[derive(Clone, Copy, Debug, PartialEq, Eq, Structural)]
pub struct Duration {
    pub secs: u64,
    pub nanos: u32,
}

impl Duration {
    pub open spec fn wf(self) -> bool {
        self.nanos < 1_000_000_000
    }

    /// The whole milliseconds of this span.
    pub open spec fn total_millis(self) -> int {
        self.secs * 1000 + self.nanos / 1_000_000
    }

    pub fn from_secs(secs: u64) -> (r: Duration)
        ensures
            r.wf(),
            r.secs == secs,
            r.nanos == 0,
    {
        Duration { secs, nanos: 0 }
    }
}

/// A number or a duration that the target type cannot hold.
#[derive(Clone, Copy, Debug, PartialEq, Eq, Structural)]
pub enum ConversionError {
    /// The number lies outside the range of the target type.
    InvalidNumber { number: i64 },
    /// The duration, in the unit asked for, lies outside the range of the target type.
    InvalidDuration { duration: Duration },
}

/// A count of seconds from the native layer as a duration; a negative count is
/// out of range.
pub fn convert_duration_from_ffi_c_int_seconds(duration: i32) -> (r: Result<Duration, ConversionError>)
    ensures
        duration >= 0 ==> r == Ok::<Duration, ConversionError>(Duration { secs: duration as u64, nanos: 0 }),
        duration < 0 ==> r == Err::<Duration, ConversionError>(ConversionError::InvalidNumber { number: duration as i64 }),
{
    if duration < 0 {
        Err(ConversionError::InvalidNumber { number: duration as i64 })
    } else {
        Ok(Duration::from_secs(duration as u64))
    }
}

/// A duration as whole milliseconds for the native layer; one too long for a
/// `u64` is out of range.
pub fn convert_duration_to_ffi_u64_millis(duration: Duration) -> (r: Result<u64, ConversionError>)
    ensures
        duration.total_millis() <= u64::MAX ==> r == Ok::<u64, ConversionError>(duration.total_millis() as u64),
        duration.total_millis() > u64::MAX ==> r == Err::<u64, ConversionError>(ConversionError::InvalidDuration { duration }),
{
    let millis: u128 = duration.secs as u128 * 1000 + (duration.nanos / 1_000_000) as u128;
    if millis > u64::MAX as u128 {
        Err(ConversionError::InvalidDuration { duration })
    } else {
        Ok(millis as u64)
    }
}

} // verus!
