//! The engine's configuration, as handed over by the command line.

use vstd::prelude::*;

verus! {

/// The engine's configuration. All fields are required flags of the
/// command line; the unverified shell parses them and hands the values
/// over. Paths are carried as strings; the shell owns the file system.
pub struct Cli {
    /// Directory of plug-in binaries.
    pub modules: String,
    /// Directory of input files.
    pub input: String,
    /// Per-job instruction budget.
    pub fuel: u64,
    /// Per-job cap on linear-memory growth, in bytes.
    pub memory: usize,
    /// Per-job cap on function-table growth, in slots.
    pub table: usize,
    /// Global cap on bytes held in file mappings simultaneously.
    pub mapped: u64,
    /// Worker-pool size.
    pub threads: usize,
}

} // verus!
