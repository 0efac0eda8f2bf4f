//! The option sets of the command line: plain data handed over by the
//! argument parser that runs outside.

use vstd::prelude::*;
use crate::types::OutputFormat;

verus! {

/// Options of the init command.
#[derive(Clone, Copy, Debug, PartialEq, Eq, Structural)]
pub struct InitArgs {
    /// Force overwrite existing files.
    pub force: bool,
}

/// Options of the scan command.
#[derive(Clone, Debug)]
pub struct ScanArgs {
    /// Output format.
    pub format: OutputFormat,
    /// File extensions to scan.
    pub extensions: Option<Vec<String>>,
    /// Glob patterns to ignore.
    pub ignore: Option<Vec<String>>,
    /// Include test files in analysis.
    pub include_tests: bool,
    /// Minimum confidence threshold, in hundredths.
    pub confidence: u32,
    /// Output file for the JSON format.
    pub output: Option<String>,
}

/// Options of the map command.
#[derive(Clone, Copy, Debug, PartialEq, Eq, Structural)]
pub struct MapArgs {
    /// Also run a fresh scan before mapping.
    pub scan: bool,
    /// Minimum confidence threshold, in hundredths.
    pub confidence: u32,
}

/// Options of the fix command.
#[derive(Clone, Debug)]
pub struct FixArgs {
    /// Show what would be removed without changing anything.
    pub dry_run: bool,
    /// Comment code out instead of removing it.
    pub soft: bool,
    /// Apply without confirmation.
    pub force: bool,
    /// Only fix items at or above this confidence, in hundredths.
    pub confidence: u32,
    /// Specific files to fix; all where absent.
    pub files: Option<Vec<String>>,
}

} // verus!
