//! The command lines of the linter, the rent keeper and the restore planner.

pub mod keeper;
pub mod lint;
pub mod planner;
