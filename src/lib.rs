//! Finds directories of build artifacts under a root and removes them, with
//! checks just before each removal and totals of what was freed.

pub mod types;
pub mod utils;
pub mod scanner;
pub mod size;
pub mod cleaner;
pub mod cli;
