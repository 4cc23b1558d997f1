//! How the persisted registry file is treated when it is loaded.

use vstd::prelude::*;

verus! {

/// What loading does with the registry file, given what is on disk.
#[derive(PartialEq, Eq, Structural, Debug, Clone, Copy)]
pub enum LoadPlan {
    /// No file: create its directory and an empty file, and start empty.
    CreateEmpty,
    /// A zero-byte file: start empty without parsing.
    Empty,
    /// A non-empty file: parse the whole content.
    Parse,
}

/// The plan for a file that exists or not, with the given length in bytes.
pub open spec fn load_plan(exists: bool, len: nat) -> LoadPlan {
    if !exists {
        LoadPlan::CreateEmpty
    } else if len == 0 {
        LoadPlan::Empty
    } else {
        LoadPlan::Parse
    }
}

/// Decides how to load the registry file.
pub fn plan_load(exists: bool, len: u64) -> (r: LoadPlan)
    ensures
        r == load_plan(exists, len as nat),
{
    if !exists {
        LoadPlan::CreateEmpty
    } else if len == 0 {
        LoadPlan::Empty
    } else {
        LoadPlan::Parse
    }
}

/// A missing file is created empty, and loading that file again starts
/// from an empty registry instead of parsing.
pub proof fn law_missing_file_then_empty(len: nat)
    ensures
        load_plan(false, len) == LoadPlan::CreateEmpty,
        load_plan(true, 0) == LoadPlan::Empty,
{
}

} // verus!
