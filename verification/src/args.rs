//! The program's command-line arguments, as plain values.
//!
//! Argument parsing itself happens outside the library; this record is what
//! the rest of the program receives from it.

use vstd::prelude::*;

verus! {

/// Parsed command-line arguments.
pub struct Arguments {
    /// Links to open.
    pub urls: Vec<String>,
    /// Path to the config file.
    pub config: String,
    /// Dry mode: resolve commands but do not run them.
    pub dry: bool,
    /// Do not show command output in the terminal.
    pub hide_output: bool,
}

} // verus!
