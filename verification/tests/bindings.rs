use lucetc::Bindings;
use lucetc::LucetcError;

fn pairs(ps: &[(&str, &str)]) -> Vec<(String, String)> {
    ps.iter().map(|(f, s)| (f.to_string(), s.to_string())).collect()
}

fn lookup_owned(b: &Bindings, ns: &str, field: &str) -> Option<String> {
    b.lookup(&ns.to_string(), &field.to_string()).cloned()
}

#[test]
fn empty_binds_nothing() {
    let b = Bindings::empty();
    assert_eq!(lookup_owned(&b, "env", "print"), None);
}

#[test]
fn env_populates_env_namespace() {
    let b = Bindings::env(pairs(&[("print", "host_print"), ("sqrt", "host_sqrt")])).unwrap();
    assert_eq!(lookup_owned(&b, "env", "print"), Some("host_print".to_string()));
    assert_eq!(lookup_owned(&b, "env", "sqrt"), Some("host_sqrt".to_string()));
    assert_eq!(lookup_owned(&b, "other", "print"), None);
}

#[test]
fn env_identical_redeclaration_is_idempotent() {
    let b = Bindings::env(pairs(&[("print", "host_print"), ("print", "host_print")])).unwrap();
    assert_eq!(lookup_owned(&b, "env", "print"), Some("host_print".to_string()));
}

#[test]
fn env_conflicting_redeclaration_fails() {
    let r = Bindings::env(pairs(&[("print", "host_print"), ("print", "other_print")]));
    match r {
        Err(LucetcError::BindingsConflict { namespace, field, existing, incoming }) => {
            assert_eq!(namespace, "env");
            assert_eq!(field, "print");
            assert_eq!(existing, "host_print");
            assert_eq!(incoming, "other_print");
        },
        _ => panic!("expected a bindings conflict"),
    }
}

#[test]
fn extend_merges_disjoint_bindings() {
    let mut a = Bindings::env(pairs(&[("print", "host_print")])).unwrap();
    let b = Bindings::env(pairs(&[("sqrt", "host_sqrt")])).unwrap();
    a.extend(b).unwrap();
    assert_eq!(lookup_owned(&a, "env", "print"), Some("host_print".to_string()));
    assert_eq!(lookup_owned(&a, "env", "sqrt"), Some("host_sqrt".to_string()));
}

#[test]
fn extend_twice_equals_extend_once() {
    // Bindings idempotence: merging the same conflict-free registry twice
    // yields what one merge yields.
    let mut once = Bindings::env(pairs(&[("print", "host_print")])).unwrap();
    let mut twice = Bindings::env(pairs(&[("print", "host_print")])).unwrap();
    let b1 = Bindings::env(pairs(&[("sqrt", "host_sqrt"), ("print", "host_print")])).unwrap();
    let b2 = Bindings::env(pairs(&[("sqrt", "host_sqrt"), ("print", "host_print")])).unwrap();
    let b3 = Bindings::env(pairs(&[("sqrt", "host_sqrt"), ("print", "host_print")])).unwrap();
    once.extend(b1).unwrap();
    twice.extend(b2).unwrap();
    twice.extend(b3).unwrap();
    for (ns, f) in [("env", "print"), ("env", "sqrt"), ("env", "missing")] {
        assert_eq!(lookup_owned(&once, ns, f), lookup_owned(&twice, ns, f));
    }
}

#[test]
fn extend_conflict_leaves_registry_unchanged() {
    // Bindings conflict atomicity: a failed merge changes nothing, and the
    // error names the conflicting key and both symbols.
    let mut a = Bindings::env(pairs(&[("print", "host_print"), ("sqrt", "host_sqrt")])).unwrap();
    let b = Bindings::env(pairs(&[("exp", "host_exp"), ("print", "other_print")])).unwrap();
    match a.extend(b) {
        Err(LucetcError::BindingsConflict { namespace, field, existing, incoming }) => {
            assert_eq!(namespace, "env");
            assert_eq!(field, "print");
            assert_eq!(existing, "host_print");
            assert_eq!(incoming, "other_print");
        },
        _ => panic!("expected a bindings conflict"),
    }
    assert_eq!(lookup_owned(&a, "env", "print"), Some("host_print".to_string()));
    assert_eq!(lookup_owned(&a, "env", "sqrt"), Some("host_sqrt".to_string()));
    assert_eq!(lookup_owned(&a, "env", "exp"), None);
}

#[test]
fn duplicate_copies_every_binding() {
    let a = Bindings::env(pairs(&[("print", "host_print")])).unwrap();
    let c = a.duplicate();
    assert_eq!(lookup_owned(&c, "env", "print"), Some("host_print".to_string()));
    assert_eq!(lookup_owned(&c, "env", "sqrt"), None);
}
