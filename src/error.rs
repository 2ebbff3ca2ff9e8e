use vstd::prelude::*;

verus! {

/// Why a payload failed to decode as an event record.
#[derive(Debug, Clone, Copy, PartialEq, Eq, Structural)]
pub enum DecodeError {
    /// The input ended before the item being read was complete.
    Truncated,
    /// An item header uses a reserved or indefinite-length argument.
    UnsupportedHeader,
    /// An item has a different major type than the position requires.
    UnexpectedType,
    /// An entry is not a list of exactly four items.
    WrongArity,
    /// Bytes remain after the complete record.
    TrailingBytes,
}

/// Which domain rule a decoded record breaks.
#[derive(Debug, Clone, Copy, PartialEq, Eq, Structural)]
pub enum RuleViolation {
    /// More entries than an event may hold.
    TooManyEntries,
    /// Flag bits outside the defined ones.
    InvalidFlags,
    /// A key that is empty, too long, or holds a byte outside `[A-Za-z0-9_]`.
    InvalidKey,
    /// A value kind tag outside the permitted set.
    UnknownKind,
    /// Value bytes that do not fit the declared kind.
    InvalidValue,
}

/// Why a guest-supplied argument was refused.
#[derive(Debug, Clone, Copy, PartialEq, Eq, Structural)]
pub enum ArgumentError {
    /// The declared payload length exceeds the static limit.
    EventTooLarge,
    /// The payload does not decode.
    Malformed(DecodeError),
    /// The payload decodes but breaks a domain rule.
    Violates(RuleViolation),
}

/// The error of a syscall.
#[derive(Debug, Clone, Copy, PartialEq, Eq, Structural)]
pub enum SyscallError {
    /// The guest supplied an invalid argument; the guest may continue.
    IllegalArgument(ArgumentError),
    /// The guest referenced memory outside its region.
    MemoryAccessOutOfBounds,
    /// The gas budget is exhausted; the invocation halts.
    OutOfGas,
    /// The host failed for a reason not attributable to the guest.
    HostError,
}

impl SyscallError {
    /// Whether the error ends the invocation instead of returning to the guest.
    pub open spec fn spec_is_fatal(self) -> bool {
        self is OutOfGas || self is HostError
    }

    pub fn is_fatal(&self) -> (r: bool)
        ensures
            r == self.spec_is_fatal(),
    {
        match self {
            SyscallError::OutOfGas => true,
            SyscallError::HostError => true,
            _ => false,
        }
    }

    /// Whether the guest is to blame for the error.
    pub fn is_guest_fault(&self) -> (r: bool)
        ensures
            r == !(*self is HostError),
    {
        match self {
            SyscallError::HostError => false,
            _ => true,
        }
    }
}

} // verus!
