use lucetc::Bindings;
use lucetc::Builtins;
use lucetc::Lucetc;
use lucetc::LucetcError;
use lucetc::patch_module;
use lucetc::read_module;

/// A Wasm binary importing one function `env.sqrt` of type `(f64) -> f64`
/// (type index 0) and nothing else.
fn sqrt_import_bytes() -> Vec<u8> {
    vec![
        0x00, 0x61, 0x73, 0x6d, // magic
        0x01, 0x00, 0x00, 0x00, // version
        0x01, 0x06, 0x01, 0x60, 0x01, 0x7c, 0x01, 0x7c, // type: (f64)->f64
        0x02, 0x0c, 0x01, 0x03, 0x65, 0x6e, 0x76, 0x04, 0x73, 0x71, 0x72, 0x74, 0x00,
        0x00, // import env.sqrt, func of type 0
    ]
}

fn sqrt_builtins(sig: u32) -> Builtins {
    let mut b = Builtins::empty();
    assert!(b.define("sqrt".to_string(), "host_sqrt".to_string(), sig));
    b
}

#[test]
fn builtins_define_rejects_redefinition() {
    let mut b = sqrt_builtins(0);
    assert!(b.define("sqrt".to_string(), "host_sqrt".to_string(), 0));
    assert!(!b.define("sqrt".to_string(), "other_sqrt".to_string(), 0));
    assert!(!b.define("sqrt".to_string(), "host_sqrt".to_string(), 1));
    let e = b.lookup(&"sqrt".to_string()).unwrap();
    assert_eq!(e.symbol, "host_sqrt");
    assert_eq!(e.sig, 0);
}

#[test]
fn patch_resolves_matching_import() {
    let module = read_module(&sqrt_import_bytes()).unwrap();
    let builtins = sqrt_builtins(0);
    let (patched, delta) = patch_module(&module, &builtins).unwrap();
    assert_eq!(delta, vec![("sqrt".to_string(), "host_sqrt".to_string())]);
    assert_eq!(patched.import_count(), 1);
    let imp = patched.import_at(0);
    assert_eq!(imp.namespace, "env");
    assert_eq!(imp.field, "sqrt");
    assert_eq!(imp.resolved, Some("host_sqrt".to_string()));
    assert!(!patched.has_unresolved_import(&"env".to_string(), &"sqrt".to_string()));
    // Re-serialization is untouched by patching.
    assert_eq!(patched.serialize(), sqrt_import_bytes());
}

#[test]
fn patch_rejects_signature_mismatch() {
    let module = read_module(&sqrt_import_bytes()).unwrap();
    let builtins = sqrt_builtins(1);
    match patch_module(&module, &builtins) {
        Err(LucetcError::SignatureMismatch { field, import_sig, builtin_sig }) => {
            assert_eq!(field, "sqrt");
            assert_eq!(import_sig, Some(0));
            assert_eq!(builtin_sig, 1);
        },
        _ => panic!("expected a signature mismatch"),
    }
}

#[test]
fn unmatched_builtin_is_ignored() {
    let module = read_module(&sqrt_import_bytes()).unwrap();
    let mut builtins = sqrt_builtins(0);
    assert!(builtins.define("exp".to_string(), "host_exp".to_string(), 0));
    let (patched, delta) = patch_module(&module, &builtins).unwrap();
    // Only the import that exists is patched; the spare builtin emits nothing.
    assert_eq!(delta, vec![("sqrt".to_string(), "host_sqrt".to_string())]);
    assert_eq!(patched.import_count(), 1);
}

#[test]
fn driver_builtins_patch_and_bind() {
    let bytes = sqrt_import_bytes();
    let driver = Lucetc::new(&bytes).unwrap().builtins(&sqrt_builtins(0)).unwrap();
    // The import no longer exists unresolved, and the induced binding is
    // visible to the backend's lookup.
    assert!(!driver.module().has_unresolved_import(&"env".to_string(), &"sqrt".to_string()));
    let sym = driver.lookup(&"env".to_string(), &"sqrt".to_string()).cloned();
    assert_eq!(sym, Some("host_sqrt".to_string()));
    let unit = driver.object_file().unwrap();
    assert_eq!(
        unit.bindings.lookup(&"env".to_string(), &"sqrt".to_string()).cloned(),
        Some("host_sqrt".to_string())
    );
}

#[test]
fn builtins_conflicting_with_existing_binding_is_refused() {
    // Overlapping builtins are treated as a conflict, strictly: a builtin
    // whose induced binding contradicts the registry fails the whole step,
    // and the module is not patched either.
    let bytes = sqrt_import_bytes();
    let mut driver = Lucetc::new(&bytes).unwrap();
    driver
        .with_bindings(
            Bindings::env(vec![("sqrt".to_string(), "other_sqrt".to_string())]).unwrap(),
        )
        .unwrap();
    let r = driver.with_builtins(&sqrt_builtins(0));
    match r {
        Err(LucetcError::BindingsConflict { namespace, field, existing, incoming }) => {
            assert_eq!(namespace, "env");
            assert_eq!(field, "sqrt");
            assert_eq!(existing, "other_sqrt");
            assert_eq!(incoming, "host_sqrt");
        },
        _ => panic!("expected a bindings conflict"),
    }
    assert!(driver.module().has_unresolved_import(&"env".to_string(), &"sqrt".to_string()));
    assert_eq!(
        driver.lookup(&"env".to_string(), &"sqrt".to_string()).cloned(),
        Some("other_sqrt".to_string())
    );
}

#[test]
fn driver_builtins_mismatch_leaves_driver_unchanged() {
    let bytes = sqrt_import_bytes();
    let mut driver = Lucetc::new(&bytes).unwrap();
    let r = driver.with_builtins(&sqrt_builtins(1));
    assert!(matches!(r, Err(LucetcError::SignatureMismatch { .. })));
    assert!(driver.module().has_unresolved_import(&"env".to_string(), &"sqrt".to_string()));
    assert_eq!(driver.lookup(&"env".to_string(), &"sqrt".to_string()), None);
    // The driver stays usable after the configuration error.
    driver.with_builtins(&sqrt_builtins(0)).unwrap();
    assert!(!driver.module().has_unresolved_import(&"env".to_string(), &"sqrt".to_string()));
}
