use vstd::prelude::*;

verus! {

/// Host page size assumed when checking heap specifications.
pub const PAGE_SIZE: u64 = 4096;

/// Default committed reservation for a linear memory, in bytes.
pub const DEFAULT_MIN_RESERVED_SIZE: u64 = 4 * 1024 * 1024;

/// Default growth cap for a linear memory, in bytes.
pub const DEFAULT_MAX_RESERVED_SIZE: u64 = 6 * 1024 * 1024 * 1024;

/// Default guard region beyond the linear memory, in bytes.
pub const DEFAULT_GUARD_SIZE: u64 = 4 * 1024 * 1024;

/// Linear-memory sizing for the compiled module, in bytes.
#[derive(Clone, Copy, PartialEq, Eq, Structural, Debug)]
pub struct HeapSettings {
    pub min_reserved_size: u64,
    pub max_reserved_size: u64,
    pub guard_size: u64,
}

impl HeapSettings {
    /// A heap specification the backend accepts: the reservation range is
    /// ordered, and every size is a whole number of host pages.
    pub open spec fn ok(self) -> bool {
        &&& self.min_reserved_size <= self.max_reserved_size
        &&& self.min_reserved_size % PAGE_SIZE == 0
        &&& self.max_reserved_size % PAGE_SIZE == 0
        &&& self.guard_size % PAGE_SIZE == 0
    }

    /// Decides `ok` for this value.
    pub fn check(&self) -> (r: bool)
        ensures
            r == self.ok(),
    {
        self.min_reserved_size <= self.max_reserved_size
            && self.min_reserved_size % PAGE_SIZE == 0
            && self.max_reserved_size % PAGE_SIZE == 0
            && self.guard_size % PAGE_SIZE == 0
    }
}

impl Default for HeapSettings {
    /// The default sizing: 4 MiB committed, a 6 GiB growth cap, and 4 MiB of
    /// guard pages.
    fn default() -> (r: HeapSettings)
        ensures
            r == (HeapSettings {
                min_reserved_size: DEFAULT_MIN_RESERVED_SIZE,
                max_reserved_size: DEFAULT_MAX_RESERVED_SIZE,
                guard_size: DEFAULT_GUARD_SIZE,
            }),
            r.ok(),
    {
        HeapSettings {
            min_reserved_size: DEFAULT_MIN_RESERVED_SIZE,
            max_reserved_size: DEFAULT_MAX_RESERVED_SIZE,
            guard_size: DEFAULT_GUARD_SIZE,
        }
    }
}

} // verus!
