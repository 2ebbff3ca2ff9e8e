//! The syscall boundary through which a metered, sandboxed guest emits
//! events: bounds-checked guest memory, a gas meter, a static size limit,
//! a decoder and validator for the binary event record, and the effect log
//! that receives validated events.

pub mod error;
pub mod gas;
pub mod limits;
pub mod memory;
pub mod cbor;
pub mod event;
pub mod log;
pub mod syscall;
pub mod utf8;
