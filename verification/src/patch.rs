use crate::bindings::consistent_pairs;
use crate::builtins::Builtins;
use crate::error::LucetcError;
use crate::module::copy_bytes;
use crate::module::copy_strings;
use crate::module::Import;
use crate::module::ImportView;
use crate::module::WasmModule;
use vstd::prelude::*;
use vstd::string::StringExecFns;

verus! {

/// An import the patcher rewrites: an unresolved guest import in the reserved
/// `env` namespace whose field names a primitive the builtins artifact
/// defines.
pub open spec fn patchable(imp: ImportView, b: Map<Seq<char>, (Seq<char>, u32)>) -> bool {
    &&& imp.resolved is None
    &&& imp.namespace == "env"@
    &&& b.dom().contains(imp.field)
}

/// Whether a patchable import declares the signature its builtin declares.
pub open spec fn sig_matches(imp: ImportView, b: Map<Seq<char>, (Seq<char>, u32)>) -> bool {
    imp.func_sig == Some(b[imp.field].1)
}

/// The import after patching: a patchable import is resolved to its builtin's
/// host symbol, any other import is untouched.
pub open spec fn patched_import(imp: ImportView, b: Map<Seq<char>, (Seq<char>, u32)>) -> ImportView {
    if patchable(imp, b) {
        ImportView {
            namespace: imp.namespace,
            field: imp.field,
            func_sig: imp.func_sig,
            resolved: Some(b[imp.field].0),
        }
    } else {
        imp
    }
}

/// The `(field, host symbol)` pairs the patcher emits: one per patchable
/// import, in import order.
pub open spec fn patch_delta(
    imports: Seq<ImportView>,
    b: Map<Seq<char>, (Seq<char>, u32)>,
) -> Seq<(Seq<char>, Seq<char>)>
    decreases imports.len(),
{
    if imports.len() == 0 {
        Seq::empty()
    } else {
        let rest = patch_delta(imports.drop_last(), b);
        if patchable(imports.last(), b) {
            rest.push((imports.last().field, b[imports.last().field].0))
        } else {
            rest
        }
    }
}

proof fn lemma_patch_delta_elem(
    imports: Seq<ImportView>,
    b: Map<Seq<char>, (Seq<char>, u32)>,
    j: int,
)
    requires
        0 <= j < patch_delta(imports, b).len(),
    ensures
        exists|i: int|
            0 <= i < imports.len() && patchable(#[trigger] imports[i], b) && patch_delta(
                imports,
                b,
            )[j] == (imports[i].field, b[imports[i].field].0),
    decreases imports.len(),
{
    let d = patch_delta(imports, b);
    let dl = imports.drop_last();
    let prev = patch_delta(dl, b);
    if j < prev.len() {
        lemma_patch_delta_elem(dl, b, j);
        let i = choose|i: int|
            0 <= i < dl.len() && patchable(#[trigger] dl[i], b) && patch_delta(dl, b)[j] == (
                dl[i].field,
                b[dl[i].field].0,
            );
        assert(imports[i] == dl[i]);
        assert(patchable(imports[i], b));
        assert(d[j] == prev[j]);
    } else {
        let i = imports.len() - 1;
        assert(patchable(imports[i], b));
        assert(d[j] == (imports[i].field, b[imports[i].field].0));
    }
}

/// The patch delta never pairs one field with two symbols: every pair's
/// symbol is the builtin's host symbol for that field.
pub proof fn lemma_patch_delta_consistent(
    imports: Seq<ImportView>,
    b: Map<Seq<char>, (Seq<char>, u32)>,
)
    ensures
        consistent_pairs(patch_delta(imports, b)),
{
    let d = patch_delta(imports, b);
    assert forall|p: int, q: int|
        0 <= p < d.len() && 0 <= q < d.len() && (#[trigger] d[p]).0 == (
    #[trigger] d[q]).0 implies d[p].1 == d[q].1 by {
        lemma_patch_delta_elem(imports, b, p);
        lemma_patch_delta_elem(imports, b, q);
        let i = choose|i: int|
            0 <= i < imports.len() && patchable(#[trigger] imports[i], b) && patch_delta(
                imports,
                b,
            )[p] == (imports[i].field, b[imports[i].field].0);
        let j2 = choose|j2: int|
            0 <= j2 < imports.len() && patchable(#[trigger] imports[j2], b) && patch_delta(
                imports,
                b,
            )[q] == (imports[j2].field, b[imports[j2].field].0);
        assert(imports[i].field == imports[j2].field);
        assert(d[p].1 == b[imports[i].field].0);
    }
}

/// Patcher round-trip, for each emitted binding: the binding at position `j`
/// of the patch delta refers to an import that existed, unresolved, in the
/// `env` namespace of the input module, and the same import leaves the patch
/// resolved, so it no longer exists as an unresolved import afterwards.
pub proof fn lemma_patch_round_trip(
    imports: Seq<ImportView>,
    b: Map<Seq<char>, (Seq<char>, u32)>,
    j: int,
)
    requires
        0 <= j < patch_delta(imports, b).len(),
    ensures
        exists|i: int|
            0 <= i < imports.len() && (#[trigger] imports[i]).resolved is None
                && imports[i].namespace == "env"@ && imports[i].field == patch_delta(imports, b)[j].0
                && patched_import(imports[i], b).resolved is Some,
{
    lemma_patch_delta_elem(imports, b, j);
    let k = choose|k: int|
        0 <= k < imports.len() && patchable(#[trigger] imports[k], b) && patch_delta(imports, b)[j]
            == (imports[k].field, b[imports[k].field].0);
    assert(imports[k].resolved is None && imports[k].namespace == "env"@ && imports[k].field
        == patch_delta(imports, b)[j].0);
    assert(patched_import(imports[k], b).resolved is Some);
}

/// Rewrites every unresolved `env` import that names a builtin into a direct
/// reference to the builtin's host symbol, and returns the new module
/// together with the `(field, host symbol)` bindings this induces.
///
/// The patch succeeds exactly when every such import declares the signature
/// its builtin declares; on the first incompatible one it fails with
/// `SignatureMismatch` and no module is produced. A builtin no import names
/// is silently ignored. Imports, exports and the serialized byte form are
/// otherwise untouched, so the module stays well-formed.
pub fn patch_module(module: &WasmModule, builtins: &Builtins) -> (r: Result<
    (WasmModule, Vec<(String, String)>),
    LucetcError,
>)
    requires
        builtins.wf(),
    ensures
        match r {
            Ok((m2, delta)) => {
                &&& forall|i: int|
                    0 <= i < module@.imports.len() && patchable(
                        #[trigger] module@.imports[i],
                        builtins@,
                    ) ==> sig_matches(module@.imports[i], builtins@)
                &&& m2@.imports.len() == module@.imports.len()
                &&& forall|i: int|
                    0 <= i < module@.imports.len() ==> #[trigger] m2@.imports[i] == patched_import(
                        module@.imports[i],
                        builtins@,
                    )
                &&& m2@.exports == module@.exports
                &&& m2@.bytes == module@.bytes
                &&& delta.deep_view() == patch_delta(module@.imports, builtins@)
                &&& forall|i: int|
                    0 <= i < m2@.imports.len() ==> !patchable(
                        #[trigger] m2@.imports[i],
                        builtins@,
                    )
            },
            Err(e) => {
                &&& exists|i: int|
                    0 <= i < module@.imports.len() && patchable(
                        #[trigger] module@.imports[i],
                        builtins@,
                    ) && !sig_matches(module@.imports[i], builtins@)
                &&& (match e {
                    LucetcError::SignatureMismatch { field, import_sig, builtin_sig } => {
                        &&& builtins@.dom().contains(field@)
                        &&& builtins@[field@].1 == builtin_sig
                        &&& import_sig != Some(builtin_sig)
                        &&& exists|i: int|
                            0 <= i < module@.imports.len() && (
                            #[trigger] module@.imports[i]).resolved is None
                                && module@.imports[i].namespace == "env"@
                                && module@.imports[i].field == field@
                                && module@.imports[i].func_sig == import_sig
                    },
                    _ => false,
                })
            },
        },
{
    let env_ns: String = String::from_str("env");
    let n: usize = module.imports.len();
    let ghost mv = module@.imports;
    let ghost b = builtins@;
    let mut new_imports: Vec<Import> = Vec::new();
    let mut delta: Vec<(String, String)> = Vec::new();
    let mut i: usize = 0;
    while i < n
        invariant
            i <= n,
            n == module.imports@.len(),
            mv == module@.imports,
            b == builtins@,
            builtins.wf(),
            mv.len() == n,
            env_ns@ == "env"@,
            new_imports@.len() == i,
            forall|j: int|
                0 <= j < i ==> (#[trigger] new_imports@[j])@ == patched_import(mv[j], b),
            delta.deep_view() == patch_delta(mv.subrange(0, i as int), b),
            forall|j: int|
                0 <= j < i && patchable(#[trigger] mv[j], b) ==> sig_matches(mv[j], b),
        decreases n - i,
    {
        let imp = &module.imports[i];
        proof {
            assert(mv[i as int] == imp@);
            assert(mv.subrange(0, (i + 1) as int) =~= mv.subrange(0, i as int).push(mv[i as int]));
            assert(mv.subrange(0, (i + 1) as int).drop_last() =~= mv.subrange(0, i as int));
            assert(mv.subrange(0, (i + 1) as int).last() == mv[i as int]);
        }
        let ghost prev_dv = delta.deep_view();
        let unresolved: bool = match &imp.resolved {
            Some(_) => false,
            None => true,
        };
        let mut entry_found: bool = false;
        if unresolved && imp.namespace.eq(&env_ns) {
            match builtins.lookup(&imp.field) {
                Some(be) => {
                    let sig_ok: bool = match imp.func_sig {
                        Some(s) => s == be.sig,
                        None => false,
                    };
                    if !sig_ok {
                        proof {
                            assert(patchable(mv[i as int], b));
                            assert(!sig_matches(mv[i as int], b));
                        }
                        return Err(LucetcError::SignatureMismatch {
                            field: imp.field.clone(),
                            import_sig: imp.func_sig,
                            builtin_sig: be.sig,
                        });
                    }
                    entry_found = true;
                    new_imports.push(
                        Import {
                            namespace: imp.namespace.clone(),
                            field: imp.field.clone(),
                            func_sig: imp.func_sig,
                            resolved: Some(be.symbol.clone()),
                        },
                    );
                    delta.push((imp.field.clone(), be.symbol.clone()));
                },
                None => {},
            }
        }
        if !entry_found {
            new_imports.push(
                Import {
                    namespace: imp.namespace.clone(),
                    field: imp.field.clone(),
                    func_sig: imp.func_sig,
                    resolved: match &imp.resolved {
                        Some(s) => Some(s.clone()),
                        None => None,
                    },
                },
            );
            proof {
                assert(!patchable(mv[i as int], b));
                assert(delta.deep_view() =~= patch_delta(mv.subrange(0, (i + 1) as int), b));
            }
        } else {
            proof {
                assert(delta.deep_view() =~= prev_dv.push(
                    (mv[i as int].field, b[mv[i as int].field].0),
                ));
                assert(delta.deep_view() =~= patch_delta(mv.subrange(0, (i + 1) as int), b));
            }
        }
        i += 1;
    }
    let m2 = WasmModule {
        imports: new_imports,
        exports: copy_strings(&module.exports),
        bytes: copy_bytes(&module.bytes),
    };
    proof {
        assert(mv.subrange(0, n as int) =~= mv);
        assert(m2@.exports =~= module@.exports);
        assert forall|i2: int| 0 <= i2 < m2@.imports.len() implies !patchable(
            #[trigger] m2@.imports[i2],
            b,
        ) by {
            assert(m2@.imports[i2] == patched_import(mv[i2], b));
        }
    }
    Ok((m2, delta))
}

} // verus!
