use vstd::prelude::*;
use crate::types::CleanTarget;

verus! {

/// The options of one run.
#[derive(Debug)]
pub struct Cli {
    /// Directory to scan.
    pub path: String,
    /// Kind of directories to clean.
    pub target: TargetType,
    /// Count what would be removed, and remove nothing.
    pub dry_run: bool,
    /// Narrate each directory.
    pub verbose: bool,
    /// Deepest level below the root to look at.
    pub max_depth: Option<usize>,
    /// Remove without asking first.
    pub yes: bool,
    /// Spread removals over worker threads.
    pub parallel: bool,
}

/// The kind of directories asked for on the command line.
#[derive(Debug, Clone, Copy, PartialEq, Eq, Structural)]
pub enum TargetType {
    Node,
    Rust,
    Python,
    Java,
    All,
}

pub open spec fn target_of(t: TargetType) -> CleanTarget {
    match t {
        TargetType::Node => CleanTarget::NodeModules,
        TargetType::Rust => CleanTarget::RustTarget,
        TargetType::Python => CleanTarget::PythonCache,
        TargetType::Java => CleanTarget::JavaTarget,
        TargetType::All => CleanTarget::All,
    }
}

impl From<TargetType> for CleanTarget {
    fn from(target: TargetType) -> (r: CleanTarget) {
        match target {
            TargetType::Node => CleanTarget::NodeModules,
            TargetType::Rust => CleanTarget::RustTarget,
            TargetType::Python => CleanTarget::PythonCache,
            TargetType::Java => CleanTarget::JavaTarget,
            TargetType::All => CleanTarget::All,
        }
    }
}

impl vstd::std_specs::convert::FromSpecImpl<TargetType> for CleanTarget {
    open spec fn obeys_from_spec() -> bool {
        true
    }

    open spec fn from_spec(v: TargetType) -> CleanTarget {
        target_of(v)
    }
}

} // verus!
