//! Matching of the auxiliary process that keeps a session alive after its
//! primary process has exited.
use vstd::prelude::*;

use crate::text::{contains_text, has_substring};

verus! {

/// One row of a process table snapshot.
pub struct ProcessInfo {
    pub pid: u32,
    /// The executable's name.
    pub name: String,
    /// The working directory, where it could be read.
    pub cwd: Option<String>,
}

/// The executable name of the compatibility layer's device helper.
pub open spec fn auxiliary_name() -> Seq<char> {
    "winedevice.exe"@
}

/// The process is the device helper and runs inside the environment whose
/// path is `prefix`.
pub open spec fn is_auxiliary(p: ProcessInfo, prefix: Seq<char>) -> bool {
    &&& p.name@ == auxiliary_name()
    &&& p.cwd matches Some(dir) && has_substring(dir@, prefix)
}

/// The pids of the rows that are auxiliary processes for `prefix`, in table
/// order.
pub open spec fn auxiliary_pids(table: Seq<ProcessInfo>, prefix: Seq<char>) -> Seq<u32>
    decreases table.len(),
{
    if table.len() == 0 {
        Seq::empty()
    } else {
        let rest = auxiliary_pids(table.drop_last(), prefix);
        if is_auxiliary(table.last(), prefix) {
            rest.push(table.last().pid)
        } else {
            rest
        }
    }
}

/// The auxiliary process to wait for: the pid of the one match, or nothing
/// where there are no matches or several.
pub open spec fn auxiliary_choice(table: Seq<ProcessInfo>, prefix: Seq<char>) -> Option<u32> {
    let pids = auxiliary_pids(table, prefix);
    if pids.len() == 1 {
        Some(pids[0])
    } else {
        None
    }
}

/// Whether `p` is the device helper running inside `prefix`.
pub fn process_matches(p: &ProcessInfo, prefix: &str) -> (r: bool)
    ensures
        r == is_auxiliary(*p, prefix@),
{
    let helper = String::from_str("winedevice.exe");
    if p.name != helper {
        return false;
    }
    match &p.cwd {
        Some(dir) => contains_text(dir.as_str(), prefix),
        None => false,
    }
}

/// Finds the auxiliary process of a session in a process table snapshot:
/// its pid where exactly one row matches, nothing otherwise.
pub fn find_auxiliary(table: &Vec<ProcessInfo>, prefix: &str) -> (r: Option<u32>)
    ensures
        r == auxiliary_choice(table@, prefix@),
{
    let mut count: usize = 0;
    let mut first: u32 = 0;
    let mut i: usize = 0;
    while i < table.len()
        invariant
            i <= table.len(),
            count <= 2,
            count < 2 ==> count == auxiliary_pids(table@.take(i as int), prefix@).len(),
            count == 2 ==> auxiliary_pids(table@.take(i as int), prefix@).len() >= 2,
            count >= 1 ==> first == auxiliary_pids(table@.take(i as int), prefix@)[0],
        decreases table.len() - i,
    {
        let ghost before = table@.take(i as int);
        assert(table@.take(i + 1).drop_last() =~= before);
        if process_matches(&table[i], prefix) {
            if count == 0 {
                first = table[i].pid;
            }
            if count < 2 {
                count = count + 1;
            }
        }
        i = i + 1;
    }
    assert(table@.take(table.len() as int) =~= table@);
    if count == 1 {
        Some(first)
    } else {
        None
    }
}

/// Whether the process `pid` is still listed in a snapshot.
pub open spec fn listed(table: Seq<ProcessInfo>, pid: u32) -> bool {
    exists|i: int| 0 <= i < table.len() && #[trigger] table[i].pid == pid
}

/// Whether `pid` still appears in a process table snapshot.
pub fn still_listed(table: &Vec<ProcessInfo>, pid: u32) -> (r: bool)
    ensures
        r == listed(table@, pid),
{
    let mut i: usize = 0;
    while i < table.len()
        invariant
            i <= table.len(),
            forall|j: int| 0 <= j < i ==> table@[j].pid != pid,
        decreases table.len() - i,
    {
        if table[i].pid == pid {
            return true;
        }
        i = i + 1;
    }
    false
}

} // verus!
