use crate::bindings::Bindings;
use crate::error::LucetcError;
use crate::heap::HeapSettings;
use vstd::prelude::*;

verus! {

/// Optimization level handed to the code-generation backend.
#[derive(Clone, Copy, PartialEq, Eq, Structural, Debug)]
pub enum OptLevel {
    /// No optimization.
    NoOpt,
    /// Optimize for execution speed.
    Speed,
    /// Optimize for execution speed and code size.
    SpeedAndSize,
}

impl Default for OptLevel {
    fn default() -> (r: OptLevel)
        ensures
            r == OptLevel::NoOpt,
    {
        OptLevel::NoOpt
    }
}

/// An ephemeral, fully validated compilation unit: the serialized module
/// together with the settings the code-generation backend consumes to produce
/// one artifact.
///
/// Constructing a `Compiler` is the point where the heap settings are
/// checked; a handle therefore always carries heap settings the backend
/// accepts.
pub struct Compiler {
    pub module_contents: Vec<u8>,
    pub opt_level: OptLevel,
    pub bindings: Bindings,
    pub heap: HeapSettings,
}

impl Compiler {
    /// Validates the heap settings and assembles a compilation unit from the
    /// serialized module bytes, the optimization level and the bindings.
    ///
    /// Returns `Ok` exactly when `heap.ok()`; otherwise the offending heap
    /// settings are reported back in `InvalidHeap`.
    pub fn new(
        module_contents: Vec<u8>,
        opt_level: OptLevel,
        bindings: &Bindings,
        heap: HeapSettings,
    ) -> (r: Result<Compiler, LucetcError>)
        requires
            bindings.wf(),
        ensures
            match r {
                Ok(c) => {
                    &&& heap.ok()
                    &&& c.module_contents@ == module_contents@
                    &&& c.opt_level == opt_level
                    &&& c.bindings@ == bindings@
                    &&& c.bindings.wf()
                    &&& c.heap == heap
                },
                Err(e) => {
                    &&& !heap.ok()
                    &&& e == (LucetcError::InvalidHeap {
                        min_reserved_size: heap.min_reserved_size,
                        max_reserved_size: heap.max_reserved_size,
                        guard_size: heap.guard_size,
                    })
                },
            },
    {
        if heap.check() {
            Ok(Compiler { module_contents, opt_level, bindings: bindings.duplicate(), heap })
        } else {
            Err(LucetcError::InvalidHeap {
                min_reserved_size: heap.min_reserved_size,
                max_reserved_size: heap.max_reserved_size,
                guard_size: heap.guard_size,
            })
        }
    }
}

} // verus!
