use vstd::prelude::*;

use crate::error::{ArgumentError, SyscallError};

verus! {

/// The largest encoded event, in bytes, that production accepts.
pub const MAX_EVENT_LEN: u32 = 1024;

/// A static ceiling on the declared payload length, applied before any byte
/// is read. Calibration runs switch it off to measure the true per-byte cost.
#[derive(Debug, Clone, Copy, PartialEq, Eq, Structural)]
pub struct EventLimits {
    pub enabled: bool,
    pub max_len: u32,
}

/// Whether the limits refuse a payload of `length` bytes.
pub open spec fn spec_exceeds(l: EventLimits, length: u32) -> bool {
    l.enabled && length > l.max_len
}

impl EventLimits {
    /// The production limits: payloads up to `MAX_EVENT_LEN` bytes.
    pub fn production() -> (r: EventLimits)
        ensures
            r.enabled,
            r.max_len == MAX_EVENT_LEN,
    {
        EventLimits { enabled: true, max_len: MAX_EVENT_LEN }
    }

    /// No limit, for gas calibration only; never for a production run.
    pub fn calibration() -> (r: EventLimits)
        ensures
            !r.enabled,
    {
        EventLimits { enabled: false, max_len: u32::MAX }
    }

    /// Fails with `IllegalArgument` when `length` is over the active limit.
    pub fn check(&self, length: u32) -> (r: Result<(), SyscallError>)
        ensures
            r is Err <==> spec_exceeds(*self, length),
            r is Err ==> r == Err::<(), SyscallError>(
                SyscallError::IllegalArgument(ArgumentError::EventTooLarge),
            ),
    {
        if self.enabled && length > self.max_len {
            Err(SyscallError::IllegalArgument(ArgumentError::EventTooLarge))
        } else {
            Ok(())
        }
    }
}

} // verus!
