use crate::error::LucetcError;
use vstd::prelude::*;
use vstd::string::StringExecFns;

verus! {

/// The linker invocation that wraps a relocatable object into a shared
/// library: the program name followed by its arguments, equivalent to
/// `ld <object-path> -shared -o <output-path>`.
pub fn link_so_command(objpath: &String, sopath: &String) -> (r: Vec<String>)
    ensures
        r@.len() == 5,
        r@[0]@ == "ld"@,
        r@[1]@ == objpath@,
        r@[2]@ == "-shared"@,
        r@[3]@ == "-o"@,
        r@[4]@ == sopath@,
{
    let mut cmd: Vec<String> = Vec::new();
    cmd.push(String::from_str("ld"));
    cmd.push(objpath.clone());
    cmd.push(String::from_str("-shared"));
    cmd.push(String::from_str("-o"));
    cmd.push(sopath.clone());
    cmd
}

/// The name of the intermediate object file inside the scoped temporary
/// directory a shared-library build uses.
pub fn temp_object_name() -> (r: String)
    ensures
        r@ == "tmp.o"@,
{
    String::from_str("tmp.o")
}

/// Classifies the linker's exit: success is silent; any unsuccessful exit is
/// a `Link` error carrying the exit code and the captured stderr verbatim.
/// The shim never retries.
pub fn link_outcome(success: bool, code: Option<i32>, stderr: String) -> (r: Result<
    (),
    LucetcError,
>)
    ensures
        match r {
            Ok(()) => success,
            Err(e) => !success && e == (LucetcError::Link { code, stderr }),
        },
{
    if success {
        Ok(())
    } else {
        Err(LucetcError::Link { code, stderr })
    }
}

} // verus!
