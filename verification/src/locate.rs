//! The decision rule of the upward directory scan that finds which ignore
//! file governs a starting directory. The scan itself touches the filesystem,
//! so an outer loop performs the probes and feeds each level's findings to
//! `locate_step`, which decides what the scan does next: the walk stops as
//! soon as a level holds an ignore file, stops empty-handed at a level that
//! holds the repository-root marker or has no parent, and otherwise ascends.

use vstd::prelude::*;

verus! {

/// What the upward scan does at one directory level.
#[derive(Clone, Copy, PartialEq, Eq, Structural, Debug)]
pub enum LocateStep {
    /// This level holds the governing ignore file: return it.
    Found,
    /// Stop without a result: this level is the repository root, or the
    /// filesystem root has been reached.
    Stop,
    /// Continue the scan one directory up.
    Ascend,
}

/// Decide the scan's next move from what the current level holds: an ignore
/// file wins outright; failing that, a repository-root marker or a missing
/// parent ends the scan; otherwise the scan ascends.
pub fn locate_step(has_ignore_file: bool, has_root_marker: bool, has_parent: bool) -> (r:
    LocateStep)
    ensures
        r is Found <==> has_ignore_file,
        r is Stop <==> !has_ignore_file && (has_root_marker || !has_parent),
        r is Ascend <==> !has_ignore_file && !has_root_marker && has_parent,
{
    if has_ignore_file {
        LocateStep::Found
    } else if has_root_marker || !has_parent {
        LocateStep::Stop
    } else {
        LocateStep::Ascend
    }
}

} // verus!
