//! Mapped regions of a process's memory.

use vstd::prelude::*;

verus! {

/// One mapped region of a process's memory.
pub struct MemoryMap {
    /// The process id.
    pub pid: usize,
    /// Name of the process, if any.
    pub name: Option<String>,
    /// Base address of the region.
    pub start: usize,
    /// End address of the region.
    pub stop: usize,
    /// The region is readable.
    pub readable: bool,
    /// The region is writable.
    pub writable: bool,
    /// The region is executable.
    pub executable: bool,
}

impl MemoryMap {
    /// Create a new [`MemoryMap`] from its fields.
    pub fn new(
        pid: usize,
        name: Option<String>,
        start: usize,
        stop: usize,
        readable: bool,
        writable: bool,
        executable: bool,
    ) -> (r: MemoryMap)
        ensures
            r == (MemoryMap { pid, name, start, stop, readable, writable, executable }),
    {
        MemoryMap { pid, name, start, stop, readable, writable, executable }
    }
}

} // verus!
