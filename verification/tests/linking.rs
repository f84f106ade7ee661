use lucetc::link::link_outcome;
use lucetc::link::link_so_command;
use lucetc::link::temp_object_name;
use lucetc::LucetcError;

#[test]
fn link_command_shape() {
    let cmd = link_so_command(&"tmp.o".to_string(), &"out.so".to_string());
    let expect: Vec<String> =
        ["ld", "tmp.o", "-shared", "-o", "out.so"].iter().map(|s| s.to_string()).collect();
    assert_eq!(cmd, expect);
}

#[test]
fn temp_object_name_is_fixed() {
    assert_eq!(temp_object_name(), "tmp.o");
}

#[test]
fn successful_link_is_silent() {
    assert!(link_outcome(true, Some(0), String::new()).is_ok());
}

#[test]
fn failed_link_surfaces_status_and_stderr() {
    let r = link_outcome(false, Some(1), "undefined reference to foo".to_string());
    match r {
        Err(LucetcError::Link { code, stderr }) => {
            assert_eq!(code, Some(1));
            assert!(stderr.contains("undefined reference to foo"));
        },
        _ => panic!("expected a link error"),
    }
}

#[test]
fn killed_linker_has_no_exit_code() {
    let r = link_outcome(false, None, "terminated".to_string());
    match r {
        Err(LucetcError::Link { code, stderr }) => {
            assert_eq!(code, None);
            assert_eq!(stderr, "terminated");
        },
        _ => panic!("expected a link error"),
    }
}
