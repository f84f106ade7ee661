use vstd::prelude::*;

verus! {

/// One import of a Wasm module: the guest-side name `(namespace, field)`, the
/// declared signature for function imports, and the resolution state the
/// builtin patcher may install.
pub struct Import {
    pub namespace: String,
    pub field: String,
    /// `Some(sig)` for a function import declaring signature identifier
    /// `sig`; `None` for table, memory and global imports.
    pub func_sig: Option<u32>,
    /// `Some(symbol)` once the patcher has rewritten this import into a
    /// direct reference to the host symbol; `None` while the import is an
    /// unresolved guest import.
    pub resolved: Option<String>,
}

/// The mathematical value of an `Import`.
pub ghost struct ImportView {
    pub namespace: Seq<char>,
    pub field: Seq<char>,
    pub func_sig: Option<u32>,
    pub resolved: Option<Seq<char>>,
}

impl View for Import {
    type V = ImportView;

    open spec fn view(&self) -> ImportView {
        ImportView {
            namespace: self.namespace@,
            field: self.field@,
            func_sig: self.func_sig,
            resolved: match self.resolved {
                Some(s) => Some(s@),
                None => None,
            },
        }
    }
}

/// The mathematical value of a `WasmModule`: its imports, its export names,
/// and its serialized byte form.
pub ghost struct ModuleView {
    pub imports: Seq<ImportView>,
    pub exports: Seq<Seq<char>>,
    pub bytes: Seq<u8>,
}

/// A decoded Wasm module, as far as the driver reads it: the import and
/// export names, and the byte form it re-serializes to. The module's code and
/// data travel inside the bytes and are consumed by the code-generation
/// backend, not by the driver.
pub struct WasmModule {
    pub(crate) imports: Vec<Import>,
    pub(crate) exports: Vec<String>,
    pub(crate) bytes: Vec<u8>,
}

impl View for WasmModule {
    type V = ModuleView;

    open(crate) spec fn view(&self) -> ModuleView {
        ModuleView {
            imports: Seq::new(self.imports@.len(), |i: int| self.imports@[i]@),
            exports: self.exports.deep_view(),
            bytes: self.bytes@,
        }
    }
}

/// Copies a byte vector.
pub(crate) fn copy_bytes(v: &Vec<u8>) -> (r: Vec<u8>)
    ensures
        r@ == v@,
{
    let n: usize = v.len();
    let mut out: Vec<u8> = Vec::new();
    let mut i: usize = 0;
    while i < n
        invariant
            i <= n,
            n == v@.len(),
            out@ == v@.subrange(0, i as int),
        decreases n - i,
    {
        out.push(v[i]);
        proof {
            assert(out@ =~= v@.subrange(0, i + 1 as int));
        }
        i += 1;
    }
    proof {
        assert(v@.subrange(0, n as int) =~= v@);
    }
    out
}

/// Copies a vector of strings.
pub(crate) fn copy_strings(v: &Vec<String>) -> (r: Vec<String>)
    ensures
        r@ == v@,
{
    let n: usize = v.len();
    let mut out: Vec<String> = Vec::new();
    let mut i: usize = 0;
    while i < n
        invariant
            i <= n,
            n == v@.len(),
            out@ == v@.subrange(0, i as int),
        decreases n - i,
    {
        out.push(v[i].clone());
        proof {
            assert(out@ =~= v@.subrange(0, i + 1 as int));
        }
        i += 1;
    }
    proof {
        assert(v@.subrange(0, n as int) =~= v@);
    }
    out
}

impl WasmModule {
    /// How many imports the module declares.
    pub fn import_count(&self) -> (r: usize)
        ensures
            r == self@.imports.len(),
    {
        self.imports.len()
    }

    /// The import at position `i`.
    pub fn import_at(&self, i: usize) -> (r: &Import)
        requires
            i < self@.imports.len(),
        ensures
            r@ == self@.imports[i as int],
    {
        &self.imports[i]
    }

    /// The module's export names.
    pub fn export_names(&self) -> (r: &Vec<String>)
        ensures
            r.deep_view() == self@.exports,
    {
        &self.exports
    }

    /// Whether the module still has an unresolved guest import named
    /// `(namespace, field)`.
    pub fn has_unresolved_import(&self, namespace: &String, field: &String) -> (r: bool)
        ensures
            r == exists|i: int|
                0 <= i < self@.imports.len() && (#[trigger] self@.imports[i]).namespace
                    == namespace@ && self@.imports[i].field == field@
                    && self@.imports[i].resolved is None,
    {
        let n: usize = self.imports.len();
        let mut i: usize = 0;
        while i < n
            invariant
                i <= n,
                n == self@.imports.len(),
                n == self.imports@.len(),
                forall|j: int|
                    0 <= j < i ==> !((#[trigger] self@.imports[j]).namespace == namespace@
                        && self@.imports[j].field == field@ && self@.imports[j].resolved is None),
            decreases n - i,
        {
            let imp = &self.imports[i];
            let unresolved: bool = match &imp.resolved {
                Some(_) => false,
                None => true,
            };
            if unresolved && imp.namespace.eq(namespace) && imp.field.eq(field) {
                proof {
                    assert(self@.imports[i as int] == imp@);
                }
                return true;
            }
            i += 1;
        }
        false
    }

    /// Serializes the module back to its byte form; the driver keeps this
    /// form losslessly.
    pub fn serialize(&self) -> (r: Vec<u8>)
        ensures
            r@ == self@.bytes,
    {
        copy_bytes(&self.bytes)
    }
}

} // verus!
