//! The command that mirrors the output of a build to its destination.

use vstd::prelude::*;
use vstd::string::StringExecFns;

verus! {

/// The arguments of the mirror command for the output directory `out` and
/// the destination `destination`: the options, the output directory with a
/// slash behind it, and the destination.
pub fn deploy_arguments(out: &str, destination: &str) -> (arguments: Vec<String>)
    ensures
        arguments.len() == 3,
        arguments[0]@ == "-rutv"@,
        arguments[1]@ == out@ + "/"@,
        arguments[2]@ == destination@,
{
    let mut source = String::from_str(out);
    source.append("/");
    let mut arguments: Vec<String> = Vec::new();
    arguments.push(String::from_str("-rutv"));
    arguments.push(source);
    arguments.push(String::from_str(destination));
    arguments
}

} // verus!
