use lucetc::Bindings;
use lucetc::Lucetc;
use lucetc::LucetcError;
use lucetc::OptLevel;
use lucetc::read_module;

/// A minimal Wasm binary exporting one function `add` of type
/// `(i32, i32) -> i32` and declaring no imports.
fn add_module_bytes() -> Vec<u8> {
    vec![
        0x00, 0x61, 0x73, 0x6d, // magic
        0x01, 0x00, 0x00, 0x00, // version
        0x01, 0x07, 0x01, 0x60, 0x02, 0x7f, 0x7f, 0x01, 0x7f, // type: (i32,i32)->i32
        0x03, 0x02, 0x01, 0x00, // function: one func of type 0
        0x07, 0x07, 0x01, 0x03, 0x61, 0x64, 0x64, 0x00, 0x00, // export "add" func 0
        0x0a, 0x09, 0x01, 0x07, 0x00, 0x20, 0x00, 0x20, 0x01, 0x6a, 0x0b, // code: add
    ]
}

fn env_pairs(ps: &[(&str, &str)]) -> Vec<(String, String)> {
    ps.iter().map(|(f, s)| (f.to_string(), s.to_string())).collect()
}

#[test]
fn minimal_module_to_object() {
    let bytes = add_module_bytes();
    let module = read_module(&bytes).unwrap();
    assert_eq!(module.import_count(), 0);
    assert_eq!(module.export_names(), &vec!["add".to_string()]);
    let driver = Lucetc::new(&bytes).unwrap();
    let unit = driver.object_file().unwrap();
    assert!(!unit.module_contents.is_empty());
    assert_eq!(unit.module_contents, bytes);
    assert_eq!(unit.opt_level, OptLevel::NoOpt);
}

#[test]
fn malformed_bytes_are_rejected() {
    let bytes = vec![0x00u8, 0x61, 0x73, 0x6d, 0x01];
    assert!(matches!(read_module(&bytes), Err(LucetcError::ModuleDecode)));
    assert!(matches!(Lucetc::new(&bytes), Err(LucetcError::ModuleDecode)));
}

#[test]
fn bindings_conflict_leaves_driver_usable() {
    let bytes = add_module_bytes();
    let mut driver = Lucetc::new(&bytes).unwrap();
    driver
        .with_bindings(Bindings::env(env_pairs(&[("print", "host_print")])).unwrap())
        .unwrap();
    let r = driver.with_bindings(Bindings::env(env_pairs(&[("print", "other_print")])).unwrap());
    match r {
        Err(LucetcError::BindingsConflict { namespace, field, existing, incoming }) => {
            assert_eq!(namespace, "env");
            assert_eq!(field, "print");
            assert_eq!(existing, "host_print");
            assert_eq!(incoming, "other_print");
        },
        _ => panic!("expected a bindings conflict"),
    }
    // The driver stays usable, and an identical re-declaration succeeds.
    driver
        .with_bindings(Bindings::env(env_pairs(&[("print", "host_print")])).unwrap())
        .unwrap();
    let sym = driver
        .lookup(&"env".to_string(), &"print".to_string())
        .cloned();
    assert_eq!(sym, Some("host_print".to_string()));
}

#[test]
fn heap_sizing_min_above_max_is_invalid() {
    let bytes = add_module_bytes();
    let driver = Lucetc::new(&bytes)
        .unwrap()
        .min_reserved_size(65_536)
        .max_reserved_size(32_768);
    match driver.object_file() {
        Err(LucetcError::InvalidHeap { min_reserved_size, max_reserved_size, .. }) => {
            assert_eq!(min_reserved_size, 65_536);
            assert_eq!(max_reserved_size, 32_768);
        },
        _ => panic!("expected an invalid heap report"),
    }
}

#[test]
fn heap_sizes_must_be_whole_pages() {
    let bytes = add_module_bytes();
    let driver = Lucetc::new(&bytes).unwrap().guard_size(100);
    assert!(matches!(driver.object_file(), Err(LucetcError::InvalidHeap { .. })));
}

#[test]
fn default_configuration() {
    let bytes = add_module_bytes();
    let unit = Lucetc::new(&bytes).unwrap().object_file().unwrap();
    assert_eq!(unit.opt_level, OptLevel::NoOpt);
    assert_eq!(unit.heap.min_reserved_size, 4 * 1024 * 1024);
    assert_eq!(unit.heap.max_reserved_size, 6 * 1024 * 1024 * 1024);
    assert_eq!(unit.heap.guard_size, 4 * 1024 * 1024);
}

#[test]
fn configuration_order_does_not_matter() {
    // Configuration commutativity, on concrete values: the same operations in
    // two orders produce the same compilation unit.
    let bytes = add_module_bytes();
    let b1 = Bindings::env(env_pairs(&[("print", "host_print")])).unwrap();
    let b2 = Bindings::env(env_pairs(&[("print", "host_print")])).unwrap();
    let one = Lucetc::new(&bytes)
        .unwrap()
        .opt_level(OptLevel::Speed)
        .min_reserved_size(65_536)
        .bindings(b1)
        .unwrap()
        .guard_size(8_192);
    let two = Lucetc::new(&bytes)
        .unwrap()
        .guard_size(8_192)
        .bindings(b2)
        .unwrap()
        .min_reserved_size(65_536)
        .opt_level(OptLevel::Speed);
    let u1 = one.object_file().unwrap();
    let u2 = two.object_file().unwrap();
    assert_eq!(u1.opt_level, u2.opt_level);
    assert_eq!(u1.heap, u2.heap);
    assert_eq!(u1.module_contents, u2.module_contents);
    let k = ("env".to_string(), "print".to_string());
    assert_eq!(u1.bindings.lookup(&k.0, &k.1).cloned(), u2.bindings.lookup(&k.0, &k.1).cloned());
}

#[test]
fn clif_ir_shares_the_object_file_prefix() {
    let bytes = add_module_bytes();
    let unit = Lucetc::new(&bytes).unwrap().opt_level(OptLevel::SpeedAndSize).clif_ir().unwrap();
    assert_eq!(unit.opt_level, OptLevel::SpeedAndSize);
    assert_eq!(unit.module_contents, bytes);
}

#[test]
fn shared_object_file_shares_the_object_file_prefix() {
    let bytes = add_module_bytes();
    let unit = Lucetc::new(&bytes).unwrap().shared_object_file().unwrap();
    assert_eq!(unit.module_contents, bytes);
}
