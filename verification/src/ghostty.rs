//! Ghostty attach: the command line that opens an app in a Ghostty window.
//! Spawning and watching the Ghostty process lives with the application's
//! I/O.

use vstd::prelude::*;

use crate::process::health::{lookup_in_path, path_lookup_gave};
use crate::text::{push_str, replace, replace_all, to_owned_string};

verus! {

/// The shell text that changes into `working_dir` (single-quoted, each `'`
/// written as `'\''`) and runs `command`.
pub open spec fn ghostty_shell_command(working_dir: Seq<char>, command: Seq<char>) -> Seq<char> {
    "cd '"@ + replace_all(working_dir, "'"@, "'\\''"@) + "' && "@ + command
}

/// Check if the ghostty binary is available in PATH. The answer depends on
/// the environment and the file system: it is what the `PATH` lookup
/// answered for the name `ghostty`.
pub fn is_ghostty_available() -> (found: bool)
    ensures
        exists|q: &str| q@ == "ghostty"@ && path_lookup_gave(q, found),
{
    let name = "ghostty";
    lookup_in_path(name)
}

/// Build the command arguments for ghostty execution.
/// Returns the args to pass after the `ghostty` binary:
/// `-e /bin/sh -c "cd '<working_dir>' && <command>"`.
pub fn build_ghostty_command(working_dir: &str, command: &str) -> (args: Vec<String>)
    ensures
        args.len() == 4,
        args[0]@ == "-e"@,
        args[1]@ == "/bin/sh"@,
        args[2]@ == "-c"@,
        args[3]@ == ghostty_shell_command(working_dir@, command@),
{
    let escaped_dir = replace(working_dir, "'", "'\\''");
    let mut shell_command = to_owned_string("cd '");
    push_str(&mut shell_command, escaped_dir.as_str());
    push_str(&mut shell_command, "' && ");
    push_str(&mut shell_command, command);
    let mut args: Vec<String> = Vec::new();
    args.push(to_owned_string("-e"));
    args.push(to_owned_string("/bin/sh"));
    args.push(to_owned_string("-c"));
    args.push(shell_command);
    args
}

} // verus!
