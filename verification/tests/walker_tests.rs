use clrd::walker::FileWalker;

#[test]
fn test_file_walker_extensions() {
    let walker = FileWalker::new("/tmp").with_extensions(&vec!["ts".into(), "js".into()]);

    assert!(walker.has_valid_extension("foo.ts"));
    assert!(walker.has_valid_extension("bar.js"));
    assert!(!walker.has_valid_extension("baz.py"));
}

#[test]
fn test_is_test_file() {
    let walker = FileWalker::new("/tmp");

    assert!(walker.is_test_file("foo.test.ts"));
    assert!(walker.is_test_file("bar.spec.js"));
    assert!(walker.is_test_file("__tests__/baz.ts"));
    assert!(!walker.is_test_file("utils.ts"));
}

// An empty allow-list admits every extension.
#[test]
fn empty_allow_list_admits_everything() {
    let walker = FileWalker::new("/tmp");
    assert!(walker.has_valid_extension("foo.py"));
    assert!(walker.has_valid_extension("Makefile"));
}

// The walker's test heuristic also knows mock directories and test
// suffixes, case-insensitively.
#[test]
fn walker_test_heuristics() {
    let walker = FileWalker::new("/tmp");
    assert!(walker.is_test_file("__mocks__/a.ts"));
    assert!(walker.is_test_file("a_test.ts"));
    assert!(walker.is_test_file("a_spec.js"));
    assert!(walker.is_test_file("A_TEST.TS"));
    // The suffix rule holds before any extension.
    assert!(walker.is_test_file("a_test.tsx"));
    assert!(walker.is_test_file("a_spec.mjs"));
    assert!(!walker.is_test_file("attest.rs"));
    assert!(!walker.is_test_file("latest.ts"));
}

// Ignore globs are compiled and matched; a broken pattern is dropped
// rather than failing the walk.
#[test]
fn ignore_patterns_match() {
    let walker = FileWalker::new("proj")
        .with_ignore_patterns(&vec!["**/node_modules/**".to_string(), "[".to_string()]);
    assert!(walker.should_ignore("proj/node_modules/x/index.js"));
    assert!(!walker.should_ignore("proj/src/index.js"));
}

// The per-file decision combines extension, ignore globs and the
// test-file rule.
#[test]
fn wants_file_combines_rules() {
    let walker = FileWalker::new("proj")
        .with_extensions(&vec!["ts".to_string()])
        .with_ignore_patterns(&vec!["**/dist/**".to_string()]);
    assert!(walker.wants_file("proj/src/a.ts"));
    assert!(!walker.wants_file("proj/src/a.js"));
    assert!(!walker.wants_file("proj/dist/a.ts"));
    assert!(!walker.wants_file("proj/src/a.test.ts"));

    let with_tests = FileWalker::new("proj")
        .with_extensions(&vec!["ts".to_string()])
        .include_tests(true);
    assert!(with_tests.wants_file("proj/src/a.test.ts"));
}
