use vstd::prelude::*;

use crate::error::SyscallError;

verus! {

/// Whether `(offset, length)` names a range inside a region of `size` bytes
/// whose end does not overflow 32 bits.
pub open spec fn in_bounds(size: nat, offset: u32, length: u32) -> bool {
    offset as int + length as int <= u32::MAX as int && offset as int + length as int <= size
}

/// The guest's linear memory, read-only at the syscall boundary.
pub struct Memory {
    bytes: Vec<u8>,
}

impl View for Memory {
    type V = Seq<u8>;

    closed spec fn view(&self) -> Seq<u8> {
        self.bytes@
    }
}

impl Memory {
    pub fn new(bytes: Vec<u8>) -> (r: Memory)
        ensures
            r@ == bytes@,
    {
        Memory { bytes }
    }

    pub fn len(&self) -> (r: usize)
        ensures
            r == self@.len(),
    {
        self.bytes.len()
    }

    /// Borrows `length` bytes starting at `offset`, or fails with
    /// `MemoryAccessOutOfBounds` when the range overflows or leaves the region.
    pub fn try_slice(&self, offset: u32, length: u32) -> (r: Result<&[u8], SyscallError>)
        ensures
            r is Ok <==> in_bounds(self@.len(), offset, length),
            r matches Ok(s) ==> s@ == self@.subrange(offset as int, offset as int + length as int),
            r matches Err(e) ==> e == SyscallError::MemoryAccessOutOfBounds,
    {
        let end = offset.checked_add(length);
        match end {
            None => Err(SyscallError::MemoryAccessOutOfBounds),
            Some(end) => {
                if end as usize > self.bytes.len() {
                    Err(SyscallError::MemoryAccessOutOfBounds)
                } else {
                    Ok(vstd::slice::slice_subrange(self.bytes.as_slice(), offset as usize, end as usize))
                }
            },
        }
    }
}

} // verus!
