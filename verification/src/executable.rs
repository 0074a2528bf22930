//! Whether the programs that a command runs are installed.
use vstd::prelude::*;

use crate::text::{push_str, string_from};

verus! {

/// Whether a program named `name` is found in the directories of `PATH`.
///
/// Calls `pathsearch::find_executable_in_path`. What it finds depends on the
/// environment and the file system, so nothing is stated of the result.
#[verifier::external_body]
fn executable_in_path(name: &str) -> (r: bool) {
    pathsearch::find_executable_in_path(name).is_some()
}

/// The message when a program is not installed.
pub open spec fn missing_executable(name: Seq<char>) -> Seq<char> {
    "'"@ + name + "' executable not found in PATH. Please install "@ + name
        + " and ensure it is available in your PATH."@
}

/// The result of looking for the program `name`: nothing where it was
/// `found`, else the message that it is missing.
pub fn executable_check(name: &str, found: bool) -> (r: Result<(), String>)
    ensures
        found ==> r is Ok,
        !found ==> (r matches Err(e) && e@ == missing_executable(name@)),
{
    if found {
        return Ok(());
    }
    let mut out: Vec<char> = Vec::new();
    push_str(&mut out, "'");
    push_str(&mut out, name);
    push_str(&mut out, "' executable not found in PATH. Please install ");
    push_str(&mut out, name);
    push_str(&mut out, " and ensure it is available in your PATH.");
    assert(out@ =~= missing_executable(name@));
    Err(string_from(&out))
}

/// Checks that the program `name` is found in `PATH`; where it is not, the
/// error says so (see [`missing_executable`]).
pub fn check_executable(name: &str) -> (r: Result<(), String>)
    ensures
        r matches Err(e) ==> e@ == missing_executable(name@),
{
    let found = executable_in_path(name);
    executable_check(name, found)
}

} // verus!
