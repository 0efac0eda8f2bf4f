use clrd::scanner::{scan_result_of, Scanner};
use clrd::text::FileTexts;
use clrd::types::{
    ClrConfig, CodeSpan, DeadCodeItem, DeadCodeKind, ExportedSymbol, ReferenceNode, ScanSummary,
    SymbolKind,
};

fn leaf_node(path: &str, export_name: &str) -> ReferenceNode {
    ReferenceNode {
        file_path: path.to_string(),
        exports: vec![ExportedSymbol {
            name: export_name.to_string(),
            kind: SymbolKind::Const,
            span: CodeSpan { start: 1, end: 1, col_start: 0, col_end: 0 },
            is_default: false,
            is_reexport: false,
        }],
        imports: vec![],
        internal_refs: vec![],
    }
}

#[test]
fn test_scanner_creation() {
    let scanner = Scanner::new("/tmp")
        .with_extensions(vec!["ts".into()])
        .include_tests(true);

    assert!(scanner.include_tests);
    assert_eq!(scanner.extensions, vec!["ts".to_string()]);
}

// Empty builder arguments leave the defaults in place.
#[test]
fn scanner_builders_keep_defaults_on_empty() {
    let scanner = Scanner::new("/tmp")
        .with_extensions(vec![])
        .with_ignore_patterns(vec![])
        .with_confidence_threshold(80);
    assert_eq!(scanner.extensions.len(), 6);
    assert_eq!(scanner.ignore_patterns.len(), 4);
    assert_eq!(scanner.confidence_threshold, 80);
    assert!(!scanner.include_tests);
    assert_eq!(scanner.root, "/tmp");
}

// The summary counts every finding, and the high and low confidence
// counts partition the total.
#[test]
fn scan_summary_partitions_total() {
    let scanner = Scanner::new("proj");
    let nodes = vec![leaf_node("proj/a.ts", "one"), leaf_node("proj/b.ts", "two")];
    let texts = FileTexts::new();
    let output = scanner.scan_nodes(nodes, &texts, 2, 17);

    assert_eq!(output.summary.total_issues as usize, output.dead_code.len());
    assert_eq!(
        output.summary.high_confidence_issues + output.summary.low_confidence_issues,
        output.summary.total_issues
    );
    // Two unused exports at 90, two zombies at 70.
    assert_eq!(output.summary.unused_exports, 2);
    assert_eq!(output.summary.zombie_files, 2);
    assert_eq!(output.summary.unused_imports, 0);
    assert_eq!(output.summary.high_confidence_issues, 2);
    assert_eq!(output.summary.low_confidence_issues, 2);
    assert_eq!(output.total_files_scanned, 2);
    assert_eq!(output.scan_duration, 17);
    assert_eq!(output.total_lines, 2);
    assert_eq!(output.version, "0.1.0");
    assert_eq!(output.root, "proj");
    assert!(!output.timestamp.is_empty());
    assert!(output.timestamp.chars().all(|c| c.is_ascii_digit()));
}

// A scan over nothing reports nothing.
#[test]
fn scan_of_nothing_is_empty() {
    let scanner = Scanner::new("proj");
    let texts = FileTexts::new();
    let output = scanner.scan_nodes(vec![], &texts, 0, 0);
    assert!(output.dead_code.is_empty());
    assert_eq!(output.summary.total_issues, 0);
    assert_eq!(output.total_lines, 0);
}

// The flattened result mirrors the report item by item.
#[test]
fn flattened_result_mirrors_report() {
    let scanner = Scanner::new("proj");
    let nodes = vec![leaf_node("proj/a.ts", "one")];
    let texts = FileTexts::new();
    let output = scanner.scan_nodes(nodes, &texts, 1, 3);
    let flat = scan_result_of(&output);

    assert_eq!(flat.items.len(), output.dead_code.len());
    assert_eq!(flat.total_files_scanned, 1);
    assert_eq!(flat.scan_duration_ms, 3);
    let first = &flat.items[0];
    let src = &output.dead_code[0];
    assert_eq!(first.file_path, src.file_path);
    assert_eq!(first.kind, "unused_export");
    assert_eq!(first.line_start, src.span.start);
    assert_eq!(first.confidence, src.confidence);
}

// Counting one item bumps the matching counters.
#[test]
fn summary_add_counts_by_kind() {
    let mut summary = ScanSummary::new();
    let item = DeadCodeItem {
        file_path: "proj/a.ts".to_string(),
        relative_path: "a.ts".to_string(),
        span: CodeSpan { start: 1, end: 1, col_start: 0, col_end: 0 },
        code_snippet: String::new(),
        kind: DeadCodeKind::UnusedImport,
        name: "x".to_string(),
        reason: String::new(),
        confidence: 60,
        context: None,
    };
    summary.add(&item);
    assert_eq!(summary.total_issues, 1);
    assert_eq!(summary.unused_imports, 1);
    assert_eq!(summary.unused_exports, 0);
    assert_eq!(summary.high_confidence_issues, 0);
    assert_eq!(summary.low_confidence_issues, 1);

    let high = DeadCodeItem { kind: DeadCodeKind::UnusedClass, confidence: 80, ..item };
    summary.add(&high);
    assert_eq!(summary.total_issues, 2);
    assert_eq!(summary.unused_types, 1);
    assert_eq!(summary.high_confidence_issues, 1);
}

// The stock configuration.
#[test]
fn stock_configuration() {
    let config = ClrConfig::default();
    assert_eq!(config.extensions, vec!["ts", "tsx", "js", "jsx", "mjs", "cjs"]);
    assert_eq!(config.ignore_patterns.len(), 7);
    assert_eq!(config.ignore_patterns[0], "**/node_modules/**");
    assert!(!config.include_tests);
    assert_eq!(config.confidence_threshold, 50);
    assert!(config.output.agent_md);
    assert!(config.output.cursorrules);
}

// Every finding kind has its fixed serialized name.
#[test]
fn kind_names() {
    assert_eq!(DeadCodeKind::UnusedExport.as_str(), "unused_export");
    assert_eq!(DeadCodeKind::UnreachableFunction.as_str(), "unreachable_function");
    assert_eq!(DeadCodeKind::UnusedVariable.as_str(), "unused_variable");
    assert_eq!(DeadCodeKind::UnusedImport.as_str(), "unused_import");
    assert_eq!(DeadCodeKind::ZombieFile.as_str(), "zombie_file");
    assert_eq!(DeadCodeKind::UnusedType.as_str(), "unused_type");
    assert_eq!(DeadCodeKind::UnusedClass.as_str(), "unused_class");
    assert_eq!(DeadCodeKind::UnusedEnum.as_str(), "unused_enum");
    assert_eq!(DeadCodeKind::DeadBranch.as_str(), "dead_branch");
}
