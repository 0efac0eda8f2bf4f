//! The data model: spans, symbols, per-file fact sheets, findings and
//! the scan report.
//!
//! Confidence scores are held in hundredths, so `90` stands for a
//! confidence of nine tenths; every score lies in `0 ..= 100`.

use vstd::prelude::*;

verus! {

/// The kind of dead code a finding reports. Several kinds are part of
/// the schema for later passes and are not produced today.
#[derive(Clone, Copy, Debug, PartialEq, Eq, Structural)]
pub enum DeadCodeKind {
    /// Exported symbol with no external references.
    UnusedExport,
    /// Function that is never called.
    UnreachableFunction,
    /// Variable that is declared but never used.
    UnusedVariable,
    /// Import that is never used.
    UnusedImport,
    /// File with no imports from other files.
    ZombieFile,
    /// Type or interface that is never referenced.
    UnusedType,
    /// Class that is never instantiated or extended.
    UnusedClass,
    /// Enum that is never used.
    UnusedEnum,
    /// Dead branch in conditional logic.
    DeadBranch,
}

/// The fixed serialized name of each kind.
pub open spec fn kind_label(k: DeadCodeKind) -> Seq<char> {
    match k {
        DeadCodeKind::UnusedExport => "unused_export"@,
        DeadCodeKind::UnreachableFunction => "unreachable_function"@,
        DeadCodeKind::UnusedVariable => "unused_variable"@,
        DeadCodeKind::UnusedImport => "unused_import"@,
        DeadCodeKind::ZombieFile => "zombie_file"@,
        DeadCodeKind::UnusedType => "unused_type"@,
        DeadCodeKind::UnusedClass => "unused_class"@,
        DeadCodeKind::UnusedEnum => "unused_enum"@,
        DeadCodeKind::DeadBranch => "dead_branch"@,
    }
}

impl DeadCodeKind {
    /// The lower-snake-case name this kind serializes as.
    pub fn as_str(&self) -> (r: &'static str)
        ensures
            r@ == kind_label(*self),
    {
        match self {
            DeadCodeKind::UnusedExport => "unused_export",
            DeadCodeKind::UnreachableFunction => "unreachable_function",
            DeadCodeKind::UnusedVariable => "unused_variable",
            DeadCodeKind::UnusedImport => "unused_import",
            DeadCodeKind::ZombieFile => "zombie_file",
            DeadCodeKind::UnusedType => "unused_type",
            DeadCodeKind::UnusedClass => "unused_class",
            DeadCodeKind::UnusedEnum => "unused_enum",
            DeadCodeKind::DeadBranch => "dead_branch",
        }
    }
}

/// A line range in a file; lines are 1-indexed and the range is
/// inclusive. The column fields are carried for the output shape and
/// are always zero today.
#[derive(Clone, Copy, Debug, PartialEq, Eq, Structural)]
pub struct CodeSpan {
    /// Starting line (1-indexed).
    pub start: u32,
    /// Ending line (1-indexed).
    pub end: u32,
    /// Starting column (0-indexed).
    pub col_start: u32,
    /// Ending column (0-indexed).
    pub col_end: u32,
}

impl CodeSpan {
    /// A well-formed span starts at line one or later and does not end
    /// before it starts.
    pub open spec fn is_wf(self) -> bool {
        1 <= self.start <= self.end
    }
}

/// The kind of declaration a symbol comes from.
#[derive(Clone, Copy, Debug, PartialEq, Eq, Structural)]
pub enum SymbolKind {
    Function,
    Class,
    Variable,
    Type,
    Interface,
    Enum,
    Const,
    Let,
    Namespace,
}

/// One symbol a file exports. The name `*` together with
/// `is_reexport` marks a wildcard re-export statement.
#[derive(Clone, Debug)]
pub struct ExportedSymbol {
    pub name: String,
    pub kind: SymbolKind,
    pub span: CodeSpan,
    pub is_default: bool,
    pub is_reexport: bool,
}

/// One symbol a file imports. The name `default` marks a default
/// import, `*` a namespace import; `source` is the module specifier
/// as written, not yet resolved to a file.
#[derive(Clone, Debug)]
pub struct ImportedSymbol {
    pub name: String,
    pub alias: Option<String>,
    pub source: String,
    pub is_type_only: bool,
    pub span: CodeSpan,
}

/// The fact sheet of one analyzed file.
#[derive(Clone, Debug)]
pub struct ReferenceNode {
    pub file_path: String,
    pub exports: Vec<ExportedSymbol>,
    pub imports: Vec<ImportedSymbol>,
    pub internal_refs: Vec<String>,
}

/// Extra signals attached to a finding to help a reader judge it.
#[derive(Clone, Debug)]
pub struct DeadCodeContext {
    /// The name might be reached through dynamic dispatch.
    pub possibly_dynamic: bool,
    /// The file looks like a test file.
    pub in_test_file: bool,
    /// The file looks like a package entry point.
    pub public_api: bool,
    /// Files with partial references, when any were seen.
    pub partial_references: Vec<String>,
    /// A doc comment hinting the code is intentional.
    pub doc_comment: Option<String>,
}

/// One detected piece of dead code.
#[derive(Clone, Debug)]
pub struct DeadCodeItem {
    /// Path of the file, as the graph holds it.
    pub file_path: String,
    /// Path relative to the project root.
    pub relative_path: String,
    /// Location in the file.
    pub span: CodeSpan,
    /// The code at that location, truncated for long spans.
    pub code_snippet: String,
    /// What kind of dead code this is.
    pub kind: DeadCodeKind,
    /// Name of the flagged symbol or file.
    pub name: String,
    /// Why the item was flagged.
    pub reason: String,
    /// Confidence in hundredths, between 0 and 100.
    pub confidence: u32,
    /// Extra signals, where the pass computes them.
    pub context: Option<DeadCodeContext>,
}

/// Counter totals over the findings of one scan.
#[derive(Clone, Debug, PartialEq, Eq, Structural)]
pub struct ScanSummary {
    pub unused_exports: u32,
    pub unreachable_functions: u32,
    pub unused_variables: u32,
    pub unused_imports: u32,
    pub zombie_files: u32,
    pub unused_types: u32,
    pub total_issues: u32,
    pub high_confidence_issues: u32,
    pub low_confidence_issues: u32,
}

/// An item counts as high confidence from this score upward.
pub const HIGH_CONFIDENCE: u32 = 80;

impl ScanSummary {
    /// Every counter is bounded by the total, and the high and low
    /// counts partition it.
    pub open spec fn is_wf(self) -> bool {
        &&& self.high_confidence_issues + self.low_confidence_issues == self.total_issues
        &&& self.unused_exports <= self.total_issues
        &&& self.unreachable_functions <= self.total_issues
        &&& self.unused_variables <= self.total_issues
        &&& self.unused_imports <= self.total_issues
        &&& self.zombie_files <= self.total_issues
        &&& self.unused_types <= self.total_issues
    }

    /// The all-zero summary.
    pub fn new() -> (r: Self)
        ensures
            r == ScanSummary::zero(),
    {
        ScanSummary {
            unused_exports: 0,
            unreachable_functions: 0,
            unused_variables: 0,
            unused_imports: 0,
            zombie_files: 0,
            unused_types: 0,
            total_issues: 0,
            high_confidence_issues: 0,
            low_confidence_issues: 0,
        }
    }

    /// The all-zero summary, as a value for contracts.
    pub open spec fn zero() -> Self {
        ScanSummary {
            unused_exports: 0,
            unreachable_functions: 0,
            unused_variables: 0,
            unused_imports: 0,
            zombie_files: 0,
            unused_types: 0,
            total_issues: 0,
            high_confidence_issues: 0,
            low_confidence_issues: 0,
        }
    }

    /// The summary after counting one more item.
    pub open spec fn bumped(self, kind: DeadCodeKind, confidence: u32) -> Self {
        let high: u32 = if confidence >= HIGH_CONFIDENCE {
            1
        } else {
            0
        };
        ScanSummary {
            unused_exports: (self.unused_exports + (if kind == DeadCodeKind::UnusedExport {
                1u32
            } else {
                0u32
            })) as u32,
            unreachable_functions: (self.unreachable_functions + (if kind
                == DeadCodeKind::UnreachableFunction {
                1u32
            } else {
                0u32
            })) as u32,
            unused_variables: (self.unused_variables + (if kind == DeadCodeKind::UnusedVariable {
                1u32
            } else {
                0u32
            })) as u32,
            unused_imports: (self.unused_imports + (if kind == DeadCodeKind::UnusedImport {
                1u32
            } else {
                0u32
            })) as u32,
            zombie_files: (self.zombie_files + (if kind == DeadCodeKind::ZombieFile {
                1u32
            } else {
                0u32
            })) as u32,
            unused_types: (self.unused_types + (if kind == DeadCodeKind::UnusedType || kind
                == DeadCodeKind::UnusedClass || kind == DeadCodeKind::UnusedEnum {
                1u32
            } else {
                0u32
            })) as u32,
            total_issues: (self.total_issues + 1) as u32,
            high_confidence_issues: (self.high_confidence_issues + high) as u32,
            low_confidence_issues: (self.low_confidence_issues + (1 - high)) as u32,
        }
    }

    /// Counts `item` into the totals.
    pub fn add(&mut self, item: &DeadCodeItem)
        requires
            old(self).is_wf(),
            old(self).total_issues < u32::MAX,
        ensures
            *final(self) == old(self).bumped(item.kind, item.confidence),
            final(self).is_wf(),
    {
        self.total_issues = self.total_issues + 1;

        if item.confidence >= HIGH_CONFIDENCE {
            self.high_confidence_issues = self.high_confidence_issues + 1;
        } else {
            self.low_confidence_issues = self.low_confidence_issues + 1;
        }

        match item.kind {
            DeadCodeKind::UnusedExport => {
                self.unused_exports = self.unused_exports + 1;
            },
            DeadCodeKind::UnreachableFunction => {
                self.unreachable_functions = self.unreachable_functions + 1;
            },
            DeadCodeKind::UnusedVariable => {
                self.unused_variables = self.unused_variables + 1;
            },
            DeadCodeKind::UnusedImport => {
                self.unused_imports = self.unused_imports + 1;
            },
            DeadCodeKind::ZombieFile => {
                self.zombie_files = self.zombie_files + 1;
            },
            DeadCodeKind::UnusedType | DeadCodeKind::UnusedClass | DeadCodeKind::UnusedEnum => {
                self.unused_types = self.unused_types + 1;
            },
            DeadCodeKind::DeadBranch => {},
        }
    }
}

impl Default for ScanSummary {
    /// The all-zero summary.
    fn default() -> (r: Self)
        ensures
            r == ScanSummary::zero(),
    {
        ScanSummary::new()
    }
}

/// The report of one scan.
#[derive(Clone, Debug)]
pub struct ScanOutput {
    /// Version of the tool that produced the report.
    pub version: String,
    /// Root directory that was scanned.
    pub root: String,
    /// Timestamp of the scan, seconds since the epoch.
    pub timestamp: String,
    /// All findings.
    pub dead_code: Vec<DeadCodeItem>,
    /// How many files were scanned.
    pub total_files_scanned: u32,
    /// How many facts were gathered while scanning.
    pub total_lines: u64,
    /// How long the scan took, in milliseconds.
    pub scan_duration: u64,
    /// Counter totals over the findings.
    pub summary: ScanSummary,
}

/// How findings are rendered.
#[derive(Clone, Copy, Debug, PartialEq, Eq, Structural)]
pub enum OutputFormat {
    /// Human-readable colored output.
    Pretty,
    /// JSON output for machine consumption.
    Json,
    /// Compact single-line output.
    Compact,
    /// Interactive terminal browser.
    Tui,
}

/// Output files the context mapper maintains.
#[derive(Clone, Copy, Debug, PartialEq, Eq, Structural)]
pub struct OutputConfig {
    /// Maintain agent.md.
    pub agent_md: bool,
    /// Maintain .cursorrules.
    pub cursorrules: bool,
}

/// The scan configuration.
#[derive(Clone, Debug)]
pub struct ClrConfig {
    /// File extensions to scan.
    pub extensions: Vec<String>,
    /// Glob patterns to ignore.
    pub ignore_patterns: Vec<String>,
    /// Whether test files take part in the analysis.
    pub include_tests: bool,
    /// Minimum confidence for reporting, in hundredths.
    pub confidence_threshold: u32,
    /// Output file preferences.
    pub output: OutputConfig,
}

/// The default extension allow-list.
pub open spec fn default_extensions() -> Seq<Seq<char>> {
    seq!["ts"@, "tsx"@, "js"@, "jsx"@, "mjs"@, "cjs"@]
}

/// The default ignore patterns.
pub open spec fn default_ignore_patterns() -> Seq<Seq<char>> {
    seq![
        "**/node_modules/**"@,
        "**/dist/**"@,
        "**/build/**"@,
        "**/.git/**"@,
        "**/coverage/**"@,
        "**/*.min.js"@,
        "**/*.bundle.js"@,
    ]
}

impl Default for ClrConfig {
    /// The stock configuration: the usual script extensions, the usual
    /// build and dependency directories ignored, tests excluded, a
    /// threshold of one half, and every context file maintained.
    fn default() -> (r: Self)
        ensures
            r.extensions@.map_values(|s: String| s@) == default_extensions(),
            r.ignore_patterns@.map_values(|s: String| s@) == default_ignore_patterns(),
            !r.include_tests,
            r.confidence_threshold == 50,
            r.output == (OutputConfig { agent_md: true, cursorrules: true }),
    {
        let mut extensions: Vec<String> = Vec::new();
        extensions.push(new_string("ts"));
        extensions.push(new_string("tsx"));
        extensions.push(new_string("js"));
        extensions.push(new_string("jsx"));
        extensions.push(new_string("mjs"));
        extensions.push(new_string("cjs"));
        let mut ignore_patterns: Vec<String> = Vec::new();
        ignore_patterns.push(new_string("**/node_modules/**"));
        ignore_patterns.push(new_string("**/dist/**"));
        ignore_patterns.push(new_string("**/build/**"));
        ignore_patterns.push(new_string("**/.git/**"));
        ignore_patterns.push(new_string("**/coverage/**"));
        ignore_patterns.push(new_string("**/*.min.js"));
        ignore_patterns.push(new_string("**/*.bundle.js"));
        proof {
            assert(extensions@.map_values(|s: String| s@) =~= default_extensions());
            assert(ignore_patterns@.map_values(|s: String| s@) =~= default_ignore_patterns());
        }
        ClrConfig {
            extensions,
            ignore_patterns,
            include_tests: false,
            confidence_threshold: 50,
            output: OutputConfig { agent_md: true, cursorrules: true },
        }
    }
}

/// An owned copy of a string slice.
pub fn new_string(s: &str) -> (r: String)
    ensures
        r@ == s@,
{
    <String as vstd::string::StringExecFns>::from_str(s)
}

/// Options for a programmatic scan.
#[derive(Clone, Debug)]
pub struct ScanOptions {
    pub root: String,
    pub extensions: Vec<String>,
    pub ignore_patterns: Vec<String>,
    pub include_tests: bool,
}

/// One finding in the flattened result shape.
#[derive(Clone, Debug)]
pub struct ScanResultItem {
    pub file_path: String,
    pub line_start: u32,
    pub line_end: u32,
    pub code_snippet: String,
    pub kind: String,
    pub name: String,
    pub reason: String,
    /// Confidence in hundredths, between 0 and 100.
    pub confidence: u32,
}

/// The flattened result shape for embedding callers.
#[derive(Clone, Debug)]
pub struct ScanResult {
    pub items: Vec<ScanResultItem>,
    pub total_files_scanned: u32,
    pub scan_duration_ms: u64,
}

/// A request handing findings to an external judge.
#[derive(Clone, Debug)]
pub struct LlmJudgmentRequest {
    pub items: Vec<DeadCodeItem>,
    pub project_context: ProjectContext,
}

/// What the judged project looks like.
#[derive(Clone, Debug)]
pub struct ProjectContext {
    pub name: String,
    pub framework: Option<String>,
    pub package_json_main: Option<String>,
    pub package_json_exports: Vec<String>,
}

/// The judge's verdict over a batch of findings.
#[derive(Clone, Debug)]
pub struct LlmJudgmentResponse {
    pub confirmed: Vec<ConfirmedDeadCode>,
    pub rejected: Vec<RejectedItem>,
}

/// A finding the judge confirmed, with the action to take.
#[derive(Clone, Debug)]
pub struct ConfirmedDeadCode {
    pub file_path: String,
    pub name: String,
    pub action: RemovalAction,
}

/// How confirmed dead code is removed.
#[derive(Clone, Copy, Debug, PartialEq, Eq, Structural)]
pub enum RemovalAction {
    Delete,
    CommentOut,
    MoveToTrash,
}

/// A finding the judge rejected, with its reason.
#[derive(Clone, Debug)]
pub struct RejectedItem {
    pub file_path: String,
    pub name: String,
    pub reason: String,
}

} // verus!
