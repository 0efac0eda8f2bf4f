use clrd::analyzer::{
    default_export, default_import, named_import, namespace_import, specifier_export,
    variable_symbol_kind, wildcard_reexport, AstAnalyzer, SourceDialect,
};
use clrd::fixer::{apply_fixes_to_lines, kind_to_action};
use clrd::paths::{file_stem, join_path, normalize_path, parent_path, paths_eq, rel_display};
use clrd::strutil::{str_contains, str_ends_with, str_eq, str_starts_with, u64_to_string};
use clrd::text::{code_snippet, lines_vec, FileTexts};
use clrd::types::{CodeSpan, DeadCodeKind};

#[test]
fn string_helpers() {
    assert!(str_eq("abc", "abc"));
    assert!(!str_eq("abc", "abd"));
    assert!(str_contains("hello world", "lo wo"));
    assert!(!str_contains("hello", "world"));
    assert!(str_contains("abc", ""));
    assert!(str_starts_with("hello", "he"));
    assert!(!str_starts_with("hello", "el"));
    assert!(str_ends_with("hello", "llo"));
    assert!(!str_ends_with("hello", "hell"));
}

#[test]
fn decimal_rendering() {
    assert_eq!(u64_to_string(0), "0");
    assert_eq!(u64_to_string(7), "7");
    assert_eq!(u64_to_string(12345), "12345");
    assert_eq!(u64_to_string(u64::MAX), "18446744073709551615");
}

// Path normal forms: repeated separators and interior dot segments
// vanish, leading markers stay.
#[test]
fn path_normal_forms() {
    assert_eq!(normalize_path("x/./a"), "x/a");
    assert_eq!(normalize_path("x//a/"), "x/a");
    assert_eq!(normalize_path("./a"), "./a");
    assert_eq!(normalize_path("."), ".");
    assert_eq!(normalize_path("/x/./a"), "/x/a");
    assert_eq!(normalize_path(""), "");
    assert!(paths_eq("x/./a", "x//a"));
    assert!(!paths_eq("./a", "a"));
}

#[test]
fn path_parts() {
    assert_eq!(parent_path("x/y.ts"), Some("x".to_string()));
    assert_eq!(parent_path("y.ts"), Some("".to_string()));
    assert_eq!(parent_path("/a.ts"), Some("/".to_string()));
    assert_eq!(parent_path("/"), None);
    assert_eq!(parent_path(""), None);
    assert_eq!(file_stem("x/a.b.ts"), "a.b");
    assert_eq!(file_stem("x/.hidden"), ".hidden");
    assert_eq!(file_stem("x/plain"), "plain");
    assert_eq!(join_path("x", "./a"), "x/./a");
    assert_eq!(join_path("x", "/abs"), "/abs");
    assert_eq!(join_path("", "a"), "a");
}

#[test]
fn relative_display() {
    assert_eq!(rel_display("proj/src/a.ts", "proj"), "src/a.ts");
    assert_eq!(rel_display("/p/a.ts", "/p"), "a.ts");
    // Where no relative form exists, the path stands as written.
    assert_eq!(rel_display("a.ts", "/abs"), "a.ts");
}

#[test]
fn line_model() {
    assert_eq!(lines_vec(""), Vec::<String>::new());
    assert_eq!(lines_vec("a\nb"), vec!["a", "b"]);
    assert_eq!(lines_vec("a\nb\n"), vec!["a", "b"]);
    assert_eq!(lines_vec("a\r\nb\r\n"), vec!["a", "b"]);
    assert_eq!(lines_vec("\n"), vec![""]);
}

#[test]
fn snippet_extraction() {
    let text = "one\ntwo\nthree\nfour";
    let span = CodeSpan { start: 2, end: 3, col_start: 0, col_end: 0 };
    assert_eq!(code_snippet(text, &span), "two\nthree");
    let whole = CodeSpan { start: 1, end: 99, col_start: 0, col_end: 0 };
    assert_eq!(code_snippet(text, &whole), "one\ntwo\nthree\nfour");
    let beyond = CodeSpan { start: 10, end: 12, col_start: 0, col_end: 0 };
    assert_eq!(code_snippet(text, &beyond), "");
}

#[test]
fn text_store_first_entry_wins() {
    let mut texts = FileTexts::new();
    texts.insert("x/a.ts".to_string(), "first".to_string());
    texts.insert("x/./a.ts".to_string(), "second".to_string());
    assert_eq!(texts.lookup("x/a.ts").unwrap(), "first");
    assert_eq!(texts.lookup("x//a.ts").unwrap(), "first");
    assert!(texts.lookup("x/b.ts").is_none());
}

#[test]
fn dialect_selection() {
    assert_eq!(AstAnalyzer::source_dialect("a.ts"), SourceDialect::Ts);
    assert_eq!(AstAnalyzer::source_dialect("a.tsx"), SourceDialect::Tsx);
    assert_eq!(AstAnalyzer::source_dialect("a.mts"), SourceDialect::Mts);
    assert_eq!(AstAnalyzer::source_dialect("a.cts"), SourceDialect::Cts);
    assert_eq!(AstAnalyzer::source_dialect("a.jsx"), SourceDialect::Jsx);
    assert_eq!(AstAnalyzer::source_dialect("a.mjs"), SourceDialect::Mjs);
    assert_eq!(AstAnalyzer::source_dialect("a.cjs"), SourceDialect::Cjs);
    assert_eq!(AstAnalyzer::source_dialect("a.unknown"), SourceDialect::Mjs);
    assert_eq!(AstAnalyzer::source_dialect("noext"), SourceDialect::Mjs);
}

#[test]
fn span_lines_from_offsets() {
    let source = "ab\ncd\nef";
    let span = AstAnalyzer::span_to_code_span(source, 0, 4);
    assert_eq!(span.start, 1);
    assert_eq!(span.end, 2);
    assert_eq!(span.col_start, 0);
    let tail = AstAnalyzer::span_to_code_span(source, 7, 99);
    assert_eq!(tail.start, 3);
    assert_eq!(tail.end, 3);
}

#[test]
fn soft_fix_comments_lines_out() {
    let lines: Vec<String> = vec!["a".into(), "b".into(), "c".into(), "d".into()];
    let spans = vec![CodeSpan { start: 2, end: 3, col_start: 0, col_end: 0 }];
    let fixed = apply_fixes_to_lines(&lines, &spans, true);
    assert_eq!(fixed, vec!["a", "// [clr] b", "// [clr] c", "d"]);
}

#[test]
fn hard_fix_drops_lines() {
    let lines: Vec<String> = vec!["a".into(), "b".into(), "c".into(), "d".into()];
    let spans = vec![
        CodeSpan { start: 2, end: 2, col_start: 0, col_end: 0 },
        CodeSpan { start: 4, end: 9, col_start: 0, col_end: 0 },
    ];
    let fixed = apply_fixes_to_lines(&lines, &spans, false);
    assert_eq!(fixed, vec!["a", "c"]);
}

// The extraction rules of one specifier: an alias only where the
// local name differs, type-only from declaration or specifier, the
// default-name fallback, and the wildcard re-export marker.
#[test]
fn symbol_constructors() {
    let span = CodeSpan { start: 3, end: 4, col_start: 0, col_end: 0 };

    let renamed = named_import("x".into(), "y".into(), "./a".into(), false, false, span);
    assert_eq!(renamed.name, "x");
    assert_eq!(renamed.alias, Some("y".to_string()));
    assert!(!renamed.is_type_only);

    let plain = named_import("x".into(), "x".into(), "./a".into(), false, true, span);
    assert_eq!(plain.alias, None);
    assert!(plain.is_type_only);

    let dflt = default_import("local".into(), "./a".into(), true, span);
    assert_eq!(dflt.name, "default");
    assert_eq!(dflt.alias, Some("local".to_string()));
    assert!(dflt.is_type_only);

    let ns = namespace_import("all".into(), "./a".into(), false, span);
    assert_eq!(ns.name, "*");
    assert_eq!(ns.alias, Some("all".to_string()));

    let reexp = specifier_export("z".into(), span, true);
    assert!(reexp.is_reexport);
    assert!(!reexp.is_default);

    assert_eq!(variable_symbol_kind(true, false), clrd::types::SymbolKind::Const);
    assert_eq!(variable_symbol_kind(false, true), clrd::types::SymbolKind::Let);
    assert_eq!(variable_symbol_kind(false, false), clrd::types::SymbolKind::Variable);

    let named = default_export(Some("widget".into()), clrd::types::SymbolKind::Function, span);
    assert_eq!(named.name, "widget");
    assert!(named.is_default);
    let anon = default_export(None, clrd::types::SymbolKind::Variable, span);
    assert_eq!(anon.name, "default");

    let star = wildcard_reexport(span);
    assert_eq!(star.name, "*");
    assert!(star.is_reexport);
    assert_eq!(star.span.start, 3);
}

#[test]
fn fix_action_names() {
    assert_eq!(kind_to_action(&DeadCodeKind::UnusedExport), "Remove export");
    assert_eq!(kind_to_action(&DeadCodeKind::ZombieFile), "Delete file");
    assert_eq!(kind_to_action(&DeadCodeKind::UnusedImport), "Remove import");
    assert_eq!(kind_to_action(&DeadCodeKind::DeadBranch), "Remove branch");
}
