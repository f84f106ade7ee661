use crate::error::LucetcError;
use crate::module::copy_bytes;
use crate::module::Import;
use crate::module::ImportView;
use crate::module::WasmModule;
use vstd::prelude::*;

verus! {

/// What the Wasm front-end decodes from a byte sequence: for each import its
/// namespace, field and declared function signature (`None` for a table,
/// memory or global import), and the module's export names; or `None` when
/// the bytes are not a well-formed binary module. The decoding is a function
/// of the bytes alone.
pub uninterp spec fn wasm_decode(bytes: Seq<u8>) -> Option<
    (Seq<(Seq<char>, Seq<char>, Option<u32>)>, Seq<Seq<char>>),
>;

/// The decoded import-list entry `t`, read as an unresolved import.
pub open spec fn import_of(t: (Seq<char>, Seq<char>, Option<u32>)) -> ImportView {
    ImportView { namespace: t.0, field: t.1, func_sig: t.2, resolved: None }
}

/// Relies on parity_wasm::deserialize_buffer to decode a Wasm binary, and on
/// the decoded module's import and export section accessors for what the
/// module lists: per import the namespace, field and declared function
/// signature, and per export its name.
#[verifier::external_body]
fn decode_module(bytes: &Vec<u8>) -> (r: Option<
    (Vec<(String, String, Option<u32>)>, Vec<String>),
>)
    ensures
        r.deep_view() == wasm_decode(bytes@),
{
    let m: parity_wasm::elements::Module = match parity_wasm::deserialize_buffer(bytes) {
        Ok(m) => m,
        Err(_) => return None,
    };
    let import = |e: &parity_wasm::elements::ImportEntry|
        (e.module().to_string(), e.field().to_string(), match e.external() {
            parity_wasm::elements::External::Function(t) => Some(*t),
            _ => None,
        });
    let imports = m.import_section().map_or(Vec::new(), |s| s.entries().iter().map(import).collect());
    let exports = m.export_section().map_or(
        Vec::new(),
        |s| s.entries().iter().map(|e| e.field().to_string()).collect(),
    );
    Some((imports, exports))
}

/// Decodes `bytes` as a Wasm binary module.
///
/// On success the returned module lists the decoded imports (all unresolved)
/// and export names, and keeps the byte form for lossless re-serialization;
/// bytes that do not decode are rejected with `ModuleDecode`.
pub fn read_module(bytes: &Vec<u8>) -> (r: Result<WasmModule, LucetcError>)
    ensures
        match r {
            Ok(m) => {
                &&& wasm_decode(bytes@) is Some
                &&& m@.bytes == bytes@
                &&& m@.exports == wasm_decode(bytes@).unwrap().1
                &&& m@.imports.len() == wasm_decode(bytes@).unwrap().0.len()
                &&& forall|i: int|
                    0 <= i < m@.imports.len() ==> #[trigger] m@.imports[i] == import_of(
                        wasm_decode(bytes@).unwrap().0[i],
                    )
            },
            Err(e) => {
                &&& wasm_decode(bytes@) is None
                &&& e is ModuleDecode
            },
        },
{
    match decode_module(bytes) {
        None => Err(LucetcError::ModuleDecode),
        Some((raw_imports, exports)) => {
            let ghost dv = raw_imports.deep_view();
            proof {
                assert(dv.len() == raw_imports@.len());
            }
            let n: usize = raw_imports.len();
            let mut imports: Vec<Import> = Vec::new();
            let mut i: usize = 0;
            while i < n
                invariant
                    i <= n,
                    n == raw_imports@.len(),
                    dv == raw_imports.deep_view(),
                    dv.len() == n,
                    imports@.len() == i,
                    forall|j: int| 0 <= j < i ==> (#[trigger] imports@[j])@ == import_of(dv[j]),
                decreases n - i,
            {
                let t = &raw_imports[i];
                let sig: Option<u32> = t.2;
                imports.push(
                    Import {
                        namespace: t.0.clone(),
                        field: t.1.clone(),
                        func_sig: sig,
                        resolved: None,
                    },
                );
                proof {
                    assert(dv[i as int] == (t.0@, t.1@, t.2));
                }
                i += 1;
            }
            let m = WasmModule { imports, exports, bytes: copy_bytes(bytes) };
            proof {
                assert(wasm_decode(bytes@).unwrap().0 == dv);
                assert(m@.imports.len() == dv.len());
                assert forall|j: int| 0 <= j < m@.imports.len() implies #[trigger] m@.imports[j]
                    == import_of(dv[j]) by {}
            }
            Ok(m)
        },
    }
}

} // verus!
