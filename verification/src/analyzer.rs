//! The verified half of source analysis: dialect selection from the
//! file extension, and conversion of byte offsets to line numbers.
//!
//! Parsing itself runs outside on a syntax tree this crate does not
//! model; the facts extracted from it come back as a `ReferenceNode`.

use vstd::prelude::*;
use vstd::string::StringSliceAdditionalSpecFns;
use crate::paths::ext_of;
use crate::types::{new_string, CodeSpan, ExportedSymbol, ImportedSymbol, SymbolKind};

verus! {

/// The language dialect a file is parsed under.
#[derive(Clone, Copy, Debug, PartialEq, Eq, Structural)]
pub enum SourceDialect {
    Ts,
    Tsx,
    Mts,
    Cts,
    Jsx,
    Mjs,
    Cjs,
}

/// The dialect chosen for a path: by its extension, the most
/// permissive module dialect where the extension is unknown.
pub open spec fn dialect_of(path: Seq<char>) -> SourceDialect {
    match ext_of(path) {
        Some(e) => {
            if e == "ts"@ {
                SourceDialect::Ts
            } else if e == "tsx"@ {
                SourceDialect::Tsx
            } else if e == "mts"@ {
                SourceDialect::Mts
            } else if e == "cts"@ {
                SourceDialect::Cts
            } else if e == "jsx"@ {
                SourceDialect::Jsx
            } else if e == "mjs"@ {
                SourceDialect::Mjs
            } else if e == "cjs"@ {
                SourceDialect::Cjs
            } else {
                SourceDialect::Mjs
            }
        },
        None => SourceDialect::Mjs,
    }
}

/// Newlines among the first `n` bytes of `bytes`.
pub open spec fn newline_count(bytes: Seq<u8>, n: int) -> nat
    decreases n,
{
    if n <= 0 || bytes.len() == 0 {
        0
    } else if n > bytes.len() {
        newline_count(bytes, bytes.len() as int)
    } else {
        newline_count(bytes, n - 1) + (if bytes[n - 1] == 10u8 {
            1nat
        } else {
            0nat
        })
    }
}

/// Analyzes a single source file and extracts reference information.
pub struct AstAnalyzer;

impl AstAnalyzer {
    /// The dialect `path` is parsed under.
    pub fn source_dialect(path: &str) -> (r: SourceDialect)
        ensures
            r == dialect_of(path@),
    {
        match crate::paths::extension(path) {
            None => SourceDialect::Mjs,
            Some(e) => {
                if crate::strutil::str_eq(e.as_str(), "ts") {
                    SourceDialect::Ts
                } else if crate::strutil::str_eq(e.as_str(), "tsx") {
                    SourceDialect::Tsx
                } else if crate::strutil::str_eq(e.as_str(), "mts") {
                    SourceDialect::Mts
                } else if crate::strutil::str_eq(e.as_str(), "cts") {
                    SourceDialect::Cts
                } else if crate::strutil::str_eq(e.as_str(), "jsx") {
                    SourceDialect::Jsx
                } else if crate::strutil::str_eq(e.as_str(), "mjs") {
                    SourceDialect::Mjs
                } else if crate::strutil::str_eq(e.as_str(), "cjs") {
                    SourceDialect::Cjs
                } else {
                    SourceDialect::Mjs
                }
            },
        }
    }

    /// The 1-indexed line range covering the byte offsets `start` to
    /// `end` of `source`: one plus the newlines before each offset,
    /// offsets beyond the text clamped to it. Columns are carried as
    /// zero.
    pub fn span_to_code_span(source: &str, start: u32, end: u32) -> (r: CodeSpan)
        requires
            source.spec_bytes().len() < u32::MAX,
        ensures
            r.start == 1 + newline_count(source.spec_bytes(), start as int),
            r.end == 1 + newline_count(source.spec_bytes(), end as int),
            r.col_start == 0,
            r.col_end == 0,
    {
        let start_line = count_newlines_upto(source, start);
        let end_line = count_newlines_upto(source, end);
        proof {
            lemma_newline_count_bound(source.spec_bytes(), start as int);
            lemma_newline_count_bound(source.spec_bytes(), end as int);
        }
        CodeSpan { start: 1 + start_line, end: 1 + end_line, col_start: 0, col_end: 0 }
    }
}

// ---------------------------------------------------------------------
// The extraction rules: how one parsed declaration becomes symbols.
// The walk over the syntax tree happens outside; each specifier or
// declaration it finds is turned into a symbol here.
// ---------------------------------------------------------------------

/// A named import specifier: aliased exactly where the local name
/// differs from the imported one, type-only where the declaration or
/// the specifier says so.
pub fn named_import(
    imported: String,
    local: String,
    source: String,
    decl_type_only: bool,
    spec_type_only: bool,
    span: CodeSpan,
) -> (r: ImportedSymbol)
    ensures
        r.name == imported,
        r.alias == (if local@ != imported@ {
            Some(local)
        } else {
            None::<String>
        }),
        r.source == source,
        r.is_type_only == (decl_type_only || spec_type_only),
        r.span == span,
{
    let renamed = !crate::strutil::str_eq(local.as_str(), imported.as_str());
    ImportedSymbol {
        name: imported,
        alias: if renamed {
            Some(local)
        } else {
            None
        },
        source,
        is_type_only: decl_type_only || spec_type_only,
        span,
    }
}

/// A default import specifier: named `default`, bound to `local`.
pub fn default_import(local: String, source: String, decl_type_only: bool, span: CodeSpan) -> (r:
    ImportedSymbol)
    ensures
        r.name@ == "default"@,
        r.alias == Some(local),
        r.source == source,
        r.is_type_only == decl_type_only,
        r.span == span,
{
    ImportedSymbol {
        name: new_string("default"),
        alias: Some(local),
        source,
        is_type_only: decl_type_only,
        span,
    }
}

/// A namespace import specifier: named `*`, bound to `local`.
pub fn namespace_import(local: String, source: String, decl_type_only: bool, span: CodeSpan) -> (r:
    ImportedSymbol)
    ensures
        r.name@ == "*"@,
        r.alias == Some(local),
        r.source == source,
        r.is_type_only == decl_type_only,
        r.span == span,
{
    ImportedSymbol {
        name: new_string("*"),
        alias: Some(local),
        source,
        is_type_only: decl_type_only,
        span,
    }
}

/// An export specifier from `export { … }`: a re-export exactly when
/// the statement has a source module.
pub fn specifier_export(name: String, span: CodeSpan, has_source: bool) -> (r: ExportedSymbol)
    ensures
        r.name == name,
        r.kind == SymbolKind::Variable,
        r.span == span,
        !r.is_default,
        r.is_reexport == has_source,
{
    ExportedSymbol { name, kind: SymbolKind::Variable, span, is_default: false, is_reexport: has_source }
}

/// The symbol kind of a variable declaration.
pub fn variable_symbol_kind(is_const: bool, is_let: bool) -> (r: SymbolKind)
    ensures
        r == (if is_const {
            SymbolKind::Const
        } else if is_let {
            SymbolKind::Let
        } else {
            SymbolKind::Variable
        }),
{
    if is_const {
        SymbolKind::Const
    } else if is_let {
        SymbolKind::Let
    } else {
        SymbolKind::Variable
    }
}

/// A symbol from an attached declaration, such as `export const x`.
pub fn declared_export(name: String, kind: SymbolKind, span: CodeSpan) -> (r: ExportedSymbol)
    ensures
        r.name == name,
        r.kind == kind,
        r.span == span,
        !r.is_default,
        !r.is_reexport,
{
    ExportedSymbol { name, kind, span, is_default: false, is_reexport: false }
}

/// A default export: named after its declaration where it has a name,
/// the literal `default` otherwise.
pub fn default_export(name: Option<String>, kind: SymbolKind, span: CodeSpan) -> (r: ExportedSymbol)
    ensures
        r.name@ == (match name {
            Some(n) => n@,
            None => "default"@,
        }),
        r.kind == kind,
        r.span == span,
        r.is_default,
        !r.is_reexport,
{
    let named = match name {
        Some(n) => n,
        None => new_string("default"),
    };
    ExportedSymbol { name: named, kind, span, is_default: true, is_reexport: false }
}

/// The symbol standing for an `export * from …` statement.
pub fn wildcard_reexport(span: CodeSpan) -> (r: ExportedSymbol)
    ensures
        r.name@ == "*"@,
        r.kind == SymbolKind::Variable,
        r.span == span,
        !r.is_default,
        r.is_reexport,
{
    ExportedSymbol {
        name: new_string("*"),
        kind: SymbolKind::Variable,
        span,
        is_default: false,
        is_reexport: true,
    }
}

proof fn lemma_newline_count_bound(bytes: Seq<u8>, n: int)
    ensures
        newline_count(bytes, n) <= bytes.len(),
{
    if n > 0 && bytes.len() > 0 {
        if n > bytes.len() {
            lemma_newline_count_mono(bytes, bytes.len() as int);
        } else {
            lemma_newline_count_mono(bytes, n);
        }
    }
}

proof fn lemma_newline_count_mono(bytes: Seq<u8>, n: int)
    requires
        0 <= n <= bytes.len(),
    ensures
        newline_count(bytes, n) <= n,
    decreases n,
{
    if n > 0 && bytes.len() > 0 {
        lemma_newline_count_mono(bytes, n - 1);
    }
}

/// Newlines among the first `upto` bytes of `source`.
fn count_newlines_upto(source: &str, upto: u32) -> (r: u32)
    requires
        source.spec_bytes().len() < u32::MAX,
    ensures
        r == newline_count(source.spec_bytes(), upto as int),
{
    let bytes = source.as_bytes();
    let len = bytes.len();
    let bound: usize = if (upto as usize) > len {
        len
    } else {
        upto as usize
    };
    proof {
        if upto as int > source.spec_bytes().len() {
            assert(newline_count(source.spec_bytes(), upto as int) == newline_count(
                source.spec_bytes(),
                source.spec_bytes().len() as int,
            ));
        }
        if source.spec_bytes().len() == 0 {
            assert(newline_count(source.spec_bytes(), bound as int) == 0);
        }
    }
    let mut count: u32 = 0;
    let mut i: usize = 0;
    while i < bound
        invariant
            bytes@ == source.spec_bytes(),
            len == bytes@.len(),
            bound <= len,
            len < u32::MAX,
            i <= bound,
            count == newline_count(bytes@, i as int),
        decreases bound - i,
    {
        proof {
            lemma_newline_count_mono(bytes@, i as int);
        }
        if bytes[i] == 10u8 {
            count = count + 1;
        }
        i = i + 1;
    }
    proof {
        assert(count == newline_count(source.spec_bytes(), bound as int));
        if upto as int > source.spec_bytes().len() {
            assert(bound as int == source.spec_bytes().len());
        } else {
            assert(bound as int == upto as int);
        }
    }
    count
}

} // verus!
