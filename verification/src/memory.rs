//! The memory arena backing the world.
//!
//! A fixed-size region handed out by monotonic bump allocation, 16-byte
//! aligned, with no frees. The arena only accounts for bytes; the tile maps
//! themselves live in an indexed store, so no raw addresses cross component
//! boundaries.

use vstd::prelude::*;
use crate::Error;

verus! {

/// The next 16-byte aligned offset at or above `x`.
pub open spec fn align16(x: int) -> int {
    ((x + 15) / 16) * 16
}

/// A fixed-size memory region with a monotonic bump allocator.
#[derive(Clone, Debug, PartialEq, Eq, Structural)]
pub struct Memory {
    /// Has this memory been initialized by the world yet.
    pub initialized: bool,
    /// Size of the whole region in bytes.
    pub data_len: usize,
    /// Offset of the next allocation.
    pub next_allocation: usize,
}

impl Memory {
    /// Well-formed: the next allocation is 16-byte aligned and the region
    /// size leaves room for the alignment arithmetic.
    pub open spec fn wf(self) -> bool {
        &&& self.next_allocation % 16 == 0
        &&& self.data_len < usize::MAX - 16
    }

    /// A fresh, uninitialized region of `size` bytes.
    pub fn new(size: usize) -> (r: Memory)
        requires
            size < usize::MAX - 16,
        ensures
            r.wf(),
            !r.initialized,
            r.data_len == size,
            r.next_allocation == 0,
    {
        Memory { initialized: false, data_len: size, next_allocation: 0 }
    }

    /// Reserve `size` bytes: hand out the current offset and bump the next
    /// allocation to the following 16-byte boundary. Fails exactly when the
    /// request does not fit strictly below the region's end.
    pub fn allocate(&mut self, size: usize) -> (r: Result<usize, Error>)
        requires
            old(self).wf(),
        ensures
            final(self).wf(),
            final(self).data_len == old(self).data_len,
            final(self).initialized == old(self).initialized,
            old(self).next_allocation + size < old(self).data_len ==> r
                == Ok::<usize, Error>(old(self).next_allocation) && final(self).next_allocation
                == align16(old(self).next_allocation + size),
            old(self).next_allocation + size >= old(self).data_len ==> r
                == Err::<usize, Error>(Error::OutOfMemory) && *final(self) == *old(self),
    {
        if self.next_allocation < self.data_len && size < self.data_len - self.next_allocation {
            let result = self.next_allocation;
            let bumped = self.next_allocation + size;
            self.next_allocation = ((bumped + 15) / 16) * 16;
            Ok(result)
        } else {
            Err(Error::OutOfMemory)
        }
    }
}

} // verus!
