use clrd::graph::ReferenceGraph;
use clrd::text::FileTexts;
use clrd::types::{CodeSpan, DeadCodeKind, ExportedSymbol, ImportedSymbol, ReferenceNode, SymbolKind};

fn span(start: u32, end: u32) -> CodeSpan {
    CodeSpan { start, end, col_start: 0, col_end: 0 }
}

fn export(name: &str, kind: SymbolKind, start: u32, end: u32) -> ExportedSymbol {
    ExportedSymbol {
        name: name.to_string(),
        kind,
        span: span(start, end),
        is_default: false,
        is_reexport: false,
    }
}

fn import(name: &str, alias: Option<&str>, source: &str, is_type_only: bool) -> ImportedSymbol {
    ImportedSymbol {
        name: name.to_string(),
        alias: alias.map(|a| a.to_string()),
        source: source.to_string(),
        is_type_only,
        span: span(1, 1),
    }
}

fn node(path: &str, exports: Vec<ExportedSymbol>, imports: Vec<ImportedSymbol>, refs: Vec<&str>) -> ReferenceNode {
    ReferenceNode {
        file_path: path.to_string(),
        exports,
        imports,
        internal_refs: refs.iter().map(|r| r.to_string()).collect(),
    }
}

#[test]
fn test_reference_graph_creation() {
    let graph = ReferenceGraph::new();
    assert!(graph.nodes.is_empty());
}

#[test]
fn test_add_node() {
    let mut graph = ReferenceGraph::new();

    let node = ReferenceNode {
        file_path: "test.ts".to_string(),
        exports: vec![ExportedSymbol {
            name: "foo".to_string(),
            kind: SymbolKind::Function,
            span: CodeSpan { start: 1, end: 1, col_start: 0, col_end: 0 },
            is_default: false,
            is_reexport: false,
        }],
        imports: vec![],
        internal_refs: vec![],
    };

    graph.add_node(node);
    assert_eq!(graph.nodes.len(), 1);
    assert!(graph.export_index_contains("foo"));
}

// An exported symbol that nothing imports yields one unused-export
// finding, named after the symbol, with the stock confidence.
#[test]
fn unused_export_is_reported_once() {
    let mut graph = ReferenceGraph::new();
    graph.add_node(node(
        "proj/a.ts",
        vec![export("unused", SymbolKind::Const, 1, 1)],
        vec![],
        vec![],
    ));
    let mut texts = FileTexts::new();
    texts.insert("proj/a.ts".to_string(), "export const unused = 1;".to_string());

    let items = graph.find_dead_code("proj", 50, &texts);
    let exports: Vec<_> = items
        .iter()
        .filter(|i| i.kind == DeadCodeKind::UnusedExport)
        .collect();
    assert_eq!(exports.len(), 1);
    assert_eq!(exports[0].name, "unused");
    assert_eq!(exports[0].kind.as_str(), "unused_export");
    assert_eq!(exports[0].confidence, 90);
    assert_eq!(exports[0].relative_path, "a.ts");
    assert_eq!(exports[0].code_snippet, "export const unused = 1;");
    assert_eq!(exports[0].reason, "Export 'unused' has 0 references in the codebase");
    let context = exports[0].context.as_ref().unwrap();
    assert!(!context.possibly_dynamic);
    assert!(!context.in_test_file);
    assert!(!context.public_api);
}

// An export that another file imports, by matching name and resolved
// source, is never flagged; the unused import in the importing file is.
#[test]
fn imported_export_not_reported_unused_import_is() {
    let mut graph = ReferenceGraph::new();
    graph.add_node(node(
        "proj/a.ts",
        vec![export("x", SymbolKind::Const, 1, 1)],
        vec![],
        vec![],
    ));
    graph.add_node(node(
        "proj/b.ts",
        vec![export("keep", SymbolKind::Const, 2, 2)],
        vec![import("x", None, "./a", false)],
        vec!["keep"],
    ));
    let texts = FileTexts::new();

    let items = graph.find_dead_code("proj", 50, &texts);
    assert!(!items
        .iter()
        .any(|i| i.kind == DeadCodeKind::UnusedExport && i.name == "x"));
    let unused_imports: Vec<_> = items
        .iter()
        .filter(|i| i.kind == DeadCodeKind::UnusedImport)
        .collect();
    assert_eq!(unused_imports.len(), 1);
    assert_eq!(unused_imports[0].name, "x");
    assert_eq!(unused_imports[0].confidence, 90);
    assert!(unused_imports[0].context.is_none());
    assert_eq!(
        unused_imports[0].reason,
        "Import 'x' from './a' is never used in this file"
    );
}

// A type-only unused import scores six tenths, a plain one nine.
#[test]
fn unused_import_confidence_by_type_only() {
    let mut graph = ReferenceGraph::new();
    graph.add_node(node(
        "proj/b.ts",
        vec![],
        vec![
            import("t", None, "./a", true),
            import("v", None, "./a", false),
        ],
        vec![],
    ));
    let texts = FileTexts::new();

    let items = graph.find_dead_code("proj", 50, &texts);
    let confidences: Vec<(String, u32)> = items
        .iter()
        .filter(|i| i.kind == DeadCodeKind::UnusedImport)
        .map(|i| (i.name.clone(), i.confidence))
        .collect();
    assert_eq!(confidences, vec![("t".to_string(), 60), ("v".to_string(), 90)]);
}

// An aliased import goes by its local name, and a used one is not
// flagged; a namespace import is never flagged.
#[test]
fn import_alias_and_namespace_handling() {
    let mut graph = ReferenceGraph::new();
    graph.add_node(node(
        "proj/b.ts",
        vec![],
        vec![
            import("orig", Some("renamed"), "./a", false),
            import("*", Some("ns"), "./a", false),
        ],
        vec!["renamed", "ns"],
    ));
    let texts = FileTexts::new();
    let items = graph.find_dead_code("proj", 50, &texts);
    assert!(!items.iter().any(|i| i.kind == DeadCodeKind::UnusedImport));
}

// A file with exports that nothing imports is a zombie at seven
// tenths; a test file scores three tenths.
#[test]
fn zombie_confidence_by_test_heuristic() {
    let mut graph = ReferenceGraph::new();
    graph.add_node(node(
        "proj/c.ts",
        vec![export("f", SymbolKind::Function, 1, 1)],
        vec![],
        vec![],
    ));
    graph.add_node(node(
        "proj/c.test.ts",
        vec![export("g", SymbolKind::Function, 1, 1)],
        vec![],
        vec![],
    ));
    let texts = FileTexts::new();

    let items = graph.find_dead_code("proj", 50, &texts);
    let zombies: Vec<_> = items
        .iter()
        .filter(|i| i.kind == DeadCodeKind::ZombieFile)
        .collect();
    assert_eq!(zombies.len(), 2);
    let plain = zombies.iter().find(|i| i.file_path == "proj/c.ts").unwrap();
    let test = zombies.iter().find(|i| i.file_path == "proj/c.test.ts").unwrap();
    assert_eq!(plain.confidence, 70);
    assert_eq!(test.confidence, 30);
    assert_eq!(plain.span.start, 1);
    assert_eq!(plain.span.end, 1);
    assert!(plain.context.as_ref().unwrap().possibly_dynamic);
    assert_eq!(plain.name, "c.ts");
    assert_eq!(plain.code_snippet, "// Entire file: c.ts");
    assert_eq!(
        plain.reason,
        "File is never imported by any other file in the project"
    );
}

// A file cannot keep itself alive: only imports from other files
// count for zombie detection.
#[test]
fn self_import_does_not_save_zombie() {
    let mut graph = ReferenceGraph::new();
    graph.add_node(node(
        "proj/s.ts",
        vec![export("f", SymbolKind::Function, 1, 1)],
        vec![import("f", None, "./s", false)],
        vec!["f"],
    ));
    let texts = FileTexts::new();
    let items = graph.find_dead_code("proj", 50, &texts);
    assert!(items.iter().any(|i| i.kind == DeadCodeKind::ZombieFile));
}

// A file that exports nothing is not a zombie, and neither is a
// conventional entry point.
#[test]
fn zombie_needs_exports_and_no_entry_point() {
    let mut graph = ReferenceGraph::new();
    graph.add_node(node("proj/empty.ts", vec![], vec![], vec![]));
    graph.add_node(node(
        "proj/index.ts",
        vec![export("f", SymbolKind::Function, 1, 1)],
        vec![],
        vec![],
    ));
    let texts = FileTexts::new();
    let items = graph.find_dead_code("proj", 50, &texts);
    assert!(!items.iter().any(|i| i.kind == DeadCodeKind::ZombieFile));
}

// A wildcard re-export statement never yields an unused-export
// finding, whatever its usage.
#[test]
fn wildcard_reexport_not_reported() {
    let mut graph = ReferenceGraph::new();
    graph.add_node(node(
        "proj/d.ts",
        vec![ExportedSymbol {
            name: "*".to_string(),
            kind: SymbolKind::Variable,
            span: span(1, 1),
            is_default: false,
            is_reexport: true,
        }],
        vec![],
        vec![],
    ));
    let texts = FileTexts::new();
    let items = graph.find_dead_code("proj", 50, &texts);
    assert!(!items.iter().any(|i| i.kind == DeadCodeKind::UnusedExport));
}

// Default exports are out of the unused-export heuristic's scope.
#[test]
fn default_export_not_reported() {
    let mut graph = ReferenceGraph::new();
    graph.add_node(node(
        "proj/d.ts",
        vec![ExportedSymbol {
            name: "widget".to_string(),
            kind: SymbolKind::Function,
            span: span(1, 1),
            is_default: true,
            is_reexport: false,
        }],
        vec![],
        vec![],
    ));
    let texts = FileTexts::new();
    let items = graph.find_dead_code("proj", 50, &texts);
    assert!(!items.iter().any(|i| i.kind == DeadCodeKind::UnusedExport));
}

// The confidence deductions: a dynamic-dispatch name, a test file and
// an entry-point file name each lower the score, floored well above
// zero.
#[test]
fn export_confidence_deductions() {
    let graph = ReferenceGraph::new();
    assert_eq!(graph.calculate_export_confidence("proj/a.ts", "plain"), 90);
    assert_eq!(graph.calculate_export_confidence("proj/a.ts", "userHandler"), 70);
    assert_eq!(graph.calculate_export_confidence("proj/a.test.ts", "plain"), 60);
    assert_eq!(graph.calculate_export_confidence("proj/index.ts", "plain"), 70);
    assert_eq!(
        graph.calculate_export_confidence("proj/a.test.ts", "userHandler"),
        40
    );
    assert_eq!(
        graph.calculate_export_confidence("proj/index.test.ts", "userHandler"),
        40
    );
    assert_eq!(
        graph.calculate_export_confidence("proj/__tests__/index.ts", "userHandler"),
        20
    );
}

// Resolution is order-independent: the same files added in another
// order resolve the same import to the same file.
#[test]
fn resolution_order_independent() {
    let a = node("proj/a.ts", vec![export("x", SymbolKind::Const, 1, 1)], vec![], vec![]);
    let b = node("proj/b.ts", vec![], vec![import("x", None, "./a", false)], vec![]);

    let mut forward = ReferenceGraph::new();
    forward.add_node(a.clone());
    forward.add_node(b.clone());
    let mut backward = ReferenceGraph::new();
    backward.add_node(b);
    backward.add_node(a);

    let r1 = forward.resolve_import("proj/b.ts", "./a");
    let r2 = backward.resolve_import("proj/b.ts", "./a");
    assert_eq!(r1, Some("proj/a.ts".to_string()));
    assert_eq!(r1, r2);
    // Resolving twice gives the same answer.
    assert_eq!(forward.resolve_import("proj/b.ts", "./a"), r1);
}

// Resolution prefers the literal path over suffixed variants when
// both exist.
#[test]
fn resolution_prefers_literal_path() {
    let mut graph = ReferenceGraph::new();
    graph.add_node(node("x/a", vec![], vec![], vec![]));
    graph.add_node(node("x/a.ts", vec![], vec![], vec![]));
    let r = graph.resolve_import("x/y.ts", "./a");
    assert_eq!(r, Some("x/a".to_string()));
}

// External package references never resolve.
#[test]
fn external_package_not_resolved() {
    let mut graph = ReferenceGraph::new();
    graph.add_node(node("proj/react.ts", vec![], vec![], vec![]));
    assert_eq!(graph.resolve_import("proj/b.ts", "react"), None);
}

// The probe order covers extensions and index files.
#[test]
fn resolution_probes_index_files() {
    let mut graph = ReferenceGraph::new();
    graph.add_node(node("proj/lib/index.ts", vec![], vec![], vec![]));
    let r = graph.resolve_import("proj/b.ts", "./lib");
    assert_eq!(r, Some("proj/lib/index.ts".to_string()));
}

// A long span's snippet keeps its first five lines and counts the
// rest.
#[test]
fn snippet_truncation() {
    let mut graph = ReferenceGraph::new();
    graph.add_node(node(
        "proj/a.ts",
        vec![export("big", SymbolKind::Function, 1, 12)],
        vec![],
        vec![],
    ));
    let mut texts = FileTexts::new();
    let body: Vec<String> = (1..=12).map(|i| format!("line{}", i)).collect();
    texts.insert("proj/a.ts".to_string(), body.join("\n"));

    let items = graph.find_dead_code("proj", 50, &texts);
    let item = items
        .iter()
        .find(|i| i.kind == DeadCodeKind::UnusedExport)
        .unwrap();
    assert_eq!(
        item.code_snippet,
        "line1\nline2\nline3\nline4\nline5\n... (7 more lines)"
    );
}

// Adding a node for an already known file replaces its fact sheet.
#[test]
fn add_node_replaces_same_file() {
    let mut graph = ReferenceGraph::new();
    graph.add_node(node("proj/a.ts", vec![export("x", SymbolKind::Const, 1, 1)], vec![], vec![]));
    graph.add_node(node("proj/a.ts", vec![export("y", SymbolKind::Const, 2, 2)], vec![], vec![]));
    assert_eq!(graph.nodes.len(), 1);
    assert_eq!(graph.nodes[0].exports[0].name, "y");
}

// The heuristics behind the confidence model, named results included:
// lowercase folding feeds the test-file check, and the relative path
// feeds the public-api check.
#[test]
fn heuristic_predicates() {
    let graph = ReferenceGraph::new();
    assert!(graph.is_test_file("proj/FOO.TEST.TS"));
    assert!(graph.is_test_file("proj/__tests__/a.ts"));
    assert!(!graph.is_test_file("proj/utils.ts"));
    assert!(graph.might_be_dynamic_import("UserHandler"));
    assert!(graph.might_be_dynamic_import("routeTable"));
    assert!(!graph.might_be_dynamic_import("widget"));
    assert!(graph.is_public_api("proj/index.ts", "proj"));
    assert!(graph.is_public_api("proj/src/index.ts", "proj"));
    assert!(!graph.is_public_api("proj/util.ts", "proj"));
    assert!(graph.is_likely_entry_point("proj/pages/home.ts", "proj"));
    assert!(graph.is_likely_entry_point("proj/main.ts", "proj"));
    assert!(!graph.is_likely_entry_point("proj/util.ts", "proj"));
}
