use vstd::prelude::*;

verus! {

/// The size of the kernel heap: 16 MiB.
pub const HEAP_SIZE: usize = 16 * 1024 * 1024;

/// Bytes in use, given the bytes ever handed out and ever given back, and
/// the size of the heap.
pub fn get_memory_usage(allocated: usize, freed: usize) -> (r: (usize, usize))
    ensures
        r.0 == (if allocated >= freed { allocated - freed } else { 0 }),
        r.1 == HEAP_SIZE,
{
    (allocated.saturating_sub(freed), HEAP_SIZE)
}

} // verus!
