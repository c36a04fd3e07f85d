//! Finding the running server among the machine's processes.

use crate::text::{chars_of, contains, has_part, has_suffix};
use vstd::prelude::*;

verus! {

/// What is known of a process.
pub struct ProcessInfo {
    pub pid: u32,
    /// The program and its arguments.
    pub cmd: Vec<String>,
    /// Whether it is known to work in the server's directory.
    pub in_server_dir: bool,
}

/// An argument that names a server's program file.
pub open spec fn is_server_jar(arg: Seq<char>) -> bool {
    &&& ".jar"@.is_suffix_of(arg)
    &&& contains(arg, "paper"@) || contains(arg, "purpur"@) || contains(arg, "spigot"@)
}

/// A process that runs the server of this directory.
pub open spec fn is_server(p: ProcessInfo) -> bool {
    p.in_server_dir && exists|i: int|
        0 <= i < p.cmd@.len() && is_server_jar((#[trigger] p.cmd@[i])@)
}

fn runs_server_jar(cmd: &Vec<String>) -> (r: bool)
    ensures
        r == exists|i: int| 0 <= i < cmd@.len() && is_server_jar((#[trigger] cmd@[i])@),
{
    let mut i: usize = 0;
    while i < cmd.len()
        invariant
            i <= cmd@.len(),
            forall|j: int| 0 <= j < i ==> !is_server_jar((#[trigger] cmd@[j])@),
        decreases cmd@.len() - i,
    {
        let v: Vec<char> = chars_of(cmd[i].as_str());
        if has_suffix(v.as_slice(), ".jar") && (has_part(v.as_slice(), "paper") || has_part(
            v.as_slice(),
            "purpur",
        ) || has_part(v.as_slice(), "spigot")) {
            assert(is_server_jar(cmd@[i as int]@));
            return true;
        }
        i += 1;
    }
    false
}

/// The id of the first of `processes` that runs the server of this directory.
pub open spec fn running_pid(processes: Seq<ProcessInfo>) -> Option<u32>
    decreases processes.len(),
{
    if processes.len() == 0 {
        None
    } else if is_server(processes[0]) {
        Some(processes[0].pid)
    } else {
        running_pid(processes.skip(1))
    }
}

/// The id of the first process that runs the server of this directory.
pub fn server_running_pid(processes: &[ProcessInfo]) -> (r: Option<u32>)
    ensures
        r == running_pid(processes@),
        r is None <==> forall|i: int|
            0 <= i < processes@.len() ==> !is_server(#[trigger] processes@[i]),
{
    let mut i: usize = 0;
    assert(processes@.skip(0) =~= processes@);
    while i < processes.len()
        invariant
            i <= processes@.len(),
            running_pid(processes@) == running_pid(processes@.skip(i as int)),
            forall|j: int| 0 <= j < i ==> !is_server(#[trigger] processes@[j]),
        decreases processes@.len() - i,
    {
        if processes[i].in_server_dir && runs_server_jar(&processes[i].cmd) {
            assert(is_server(processes@[i as int]));
            return Some(processes[i].pid);
        }
        assert(processes@.skip(i as int).skip(1) =~= processes@.skip(i + 1));
        i += 1;
    }
    None
}

} // verus!
