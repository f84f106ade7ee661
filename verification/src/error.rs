use vstd::prelude::*;

verus! {

/// Errors raised by the compilation driver.
///
/// `ModuleDecode`, `BindingsConflict` and `SignatureMismatch` are configuration
/// errors: they are raised at the configuration call site and leave the driver
/// usable. `InvalidHeap` and `Link` are raised on the terminal output path.
#[derive(Debug)]
pub enum LucetcError {
    /// The input bytes are not a well-formed Wasm module.
    ModuleDecode,
    /// A bindings merge tried to rebind `(namespace, field)` to a different symbol.
    BindingsConflict { namespace: String, field: String, existing: String, incoming: String },
    /// An import matched a builtin by name but not by declared signature.
    SignatureMismatch { field: String, import_sig: Option<u32>, builtin_sig: u32 },
    /// The heap settings are inconsistent: the minimum reservation is above the
    /// maximum, or a size is not a whole number of host pages.
    InvalidHeap { min_reserved_size: u64, max_reserved_size: u64, guard_size: u64 },
    /// The linker exited unsuccessfully; carries its exit code and captured stderr.
    Link { code: Option<i32>, stderr: String },
}

} // verus!
