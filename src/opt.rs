//! The four commands the tool understands.

use vstd::prelude::*;

verus! {

/// A parsed command line.
#[derive(Debug, Clone, PartialEq, Eq)]
pub enum SwitchCommand {
    /// Add a variable to a category, creating the category if needed.
    Add { category: String, name: String, value: String },
    /// Remove a variable from a category, or the whole category.
    Remove { category: String, name: Option<String> },
    /// Apply a variable to the current shell; empty fields are asked for.
    Apply { category: String, name: String },
    /// List every category and variable.
    List,
}

impl SwitchCommand {
    /// Whether running the command may change the registry, so that it has
    /// to be saved afterwards.
    pub fn mutates(&self) -> (r: bool)
        ensures
            r <==> (self is Add || self is Remove),
    {
        match self {
            SwitchCommand::Add { .. } => true,
            SwitchCommand::Remove { .. } => true,
            _ => false,
        }
    }
}

} // verus!
