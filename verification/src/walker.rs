//! File discovery configuration: which files take part in a scan.
//!
//! The walk itself is directory I/O and happens outside; this module
//! holds the allow-list, the compiled ignore globs and the test-file
//! heuristic, and decides for each path whether it is wanted.

use vstd::prelude::*;
use vstd::string::StringExecFns;
use crate::paths::{ext_of, stem_of};
use crate::strutil::{contains_seq, ends_with_seq, lower_of, lowercase, str_contains, str_eq,
    str_ends_with};

verus! {

#[verifier::external_type_specification]
#[verifier::external_body]
pub struct ExGlob(globset::Glob);

#[verifier::external_type_specification]
#[verifier::external_body]
pub struct ExGlobSet(globset::GlobSet);

#[verifier::external_type_specification]
#[verifier::external_body]
pub struct ExGlobSetBuilder(globset::GlobSetBuilder);

/// The pattern a compiled glob was built from.
pub uninterp spec fn glob_pattern(g: globset::Glob) -> Seq<char>;

/// The patterns a glob-set builder holds, in insertion order.
pub uninterp spec fn builder_patterns(b: globset::GlobSetBuilder) -> Seq<Seq<char>>;

/// The patterns a compiled glob set holds.
pub uninterp spec fn globset_patterns(s: globset::GlobSet) -> Seq<Seq<char>>;

/// Whether `globset::Glob::new` accepts `pattern`; it depends on the
/// pattern alone.
pub uninterp spec fn glob_ok(pattern: Seq<char>) -> bool;

/// Whether `globset::GlobSetBuilder::build` succeeds on a builder
/// holding `patterns`; it depends on the patterns alone.
pub uninterp spec fn globset_build_ok(patterns: Seq<Seq<char>>) -> bool;

/// What `globset::GlobSet::is_match` answers for a set holding
/// `patterns` and a given path; it depends on the two alone.
pub uninterp spec fn globset_match(patterns: Seq<Seq<char>>, path: Seq<char>) -> bool;

/// Relies on `globset::Glob::new`: parses one glob pattern; whether it
/// parses depends on the pattern text alone.
#[verifier::external_body]
fn glob_new(pattern: &str) -> (r: Option<globset::Glob>)
    ensures
        r is Some <==> glob_ok(pattern@),
        r is Some ==> glob_pattern(r.unwrap()) == pattern@,
{
    globset::Glob::new(pattern).ok()
}

/// Relies on `globset::GlobSetBuilder::new`: a builder holding no
/// patterns yet.
#[verifier::external_body]
fn globset_builder_new() -> (r: globset::GlobSetBuilder)
    ensures
        builder_patterns(r) == Seq::<Seq<char>>::empty(),
{
    globset::GlobSetBuilder::new()
}

/// Relies on `globset::GlobSetBuilder::add`: appends one glob to the
/// builder.
#[verifier::external_body]
fn globset_builder_add(b: &mut globset::GlobSetBuilder, g: globset::Glob)
    ensures
        builder_patterns(*final(b)) == builder_patterns(*old(b)).push(glob_pattern(g)),
{
    b.add(g);
}

/// Relies on `globset::GlobSetBuilder::build`: compiles the held
/// patterns into a set; whether compiling succeeds depends on the
/// patterns alone.
#[verifier::external_body]
fn globset_build(b: &globset::GlobSetBuilder) -> (r: Option<globset::GlobSet>)
    ensures
        r is Some <==> globset_build_ok(builder_patterns(*b)),
        r is Some ==> globset_patterns(r.unwrap()) == builder_patterns(*b),
{
    b.build().ok()
}

/// Relies on `globset::GlobSet::empty`: a set holding no patterns.
#[verifier::external_body]
fn globset_empty() -> (r: globset::GlobSet)
    ensures
        globset_patterns(r) == Seq::<Seq<char>>::empty(),
{
    globset::GlobSet::empty()
}

/// Relies on `globset::GlobSet::is_match`: whether any held pattern
/// matches the path; a function of the patterns and the path.
#[verifier::external_body]
fn globset_is_match(s: &globset::GlobSet, path: &str) -> (r: bool)
    ensures
        r == globset_match(globset_patterns(*s), path@),
{
    s.is_match(path)
}

proof fn lemma_filter_push_pattern(
    s: Seq<Seq<char>>,
    pred: spec_fn(Seq<char>) -> bool,
    x: Seq<char>,
)
    ensures
        pred(x) ==> s.push(x).filter(pred) == s.filter(pred).push(x),
        !pred(x) ==> s.push(x).filter(pred) == s.filter(pred),
{
    reveal(Seq::filter);
    assert(s.push(x).drop_last() =~= s);
}

/// `glob_ok` as a value, so that every use names one function.
pub open spec fn glob_ok_pred() -> spec_fn(Seq<char>) -> bool {
    |p: Seq<char>| glob_ok(p)
}

/// The patterns of `pats` that parse as globs; the rest are dropped.
pub open spec fn valid_patterns(pats: Seq<Seq<char>>) -> Seq<Seq<char>> {
    pats.filter(glob_ok_pred())
}

/// `path` looks like a test file: the usual test and mock markers, or
/// a `_test`/`_spec` suffix before the extension.
pub open spec fn walker_test_file(path: Seq<char>) -> bool {
    ||| contains_seq(lower_of(path), ".test."@)
    ||| contains_seq(lower_of(path), ".spec."@)
    ||| contains_seq(lower_of(path), "__tests__"@)
    ||| contains_seq(lower_of(path), "__mocks__"@)
    ||| ends_with_seq(stem_of(lower_of(path)), "_test"@)
    ||| ends_with_seq(stem_of(lower_of(path)), "_spec"@)
}

/// `path` carries one of the allowed extensions; an empty allow-list
/// admits everything.
pub open spec fn valid_extension(exts: Seq<Seq<char>>, path: Seq<char>) -> bool {
    if exts.len() == 0 {
        true
    } else {
        match ext_of(path) {
            Some(e) => exts.contains(e),
            None => false,
        }
    }
}

/// Walks the file system collecting relevant source files.
pub struct FileWalker {
    /// Root directory of the walk.
    pub root: String,
    /// Extension allow-list; empty admits everything.
    pub extensions: Vec<String>,
    /// Compiled ignore globs.
    pub ignore_patterns: globset::GlobSet,
    /// Whether test files are wanted.
    pub include_tests: bool,
}

impl FileWalker {
    /// A walker over `root` that admits everything.
    pub fn new(root: &str) -> (r: Self)
        ensures
            r.root@ == root@,
            r.extensions@.len() == 0,
            globset_patterns(r.ignore_patterns) == Seq::<Seq<char>>::empty(),
            !r.include_tests,
    {
        FileWalker {
            root: crate::types::new_string(root),
            extensions: Vec::new(),
            ignore_patterns: globset_empty(),
            include_tests: false,
        }
    }

    /// Replaces the extension allow-list.
    pub fn with_extensions(self, extensions: &Vec<String>) -> (r: Self)
        ensures
            r.root == self.root,
            r.extensions@.map_values(|s: String| s@) == extensions@.map_values(|s: String| s@),
            r.ignore_patterns == self.ignore_patterns,
            r.include_tests == self.include_tests,
    {
        let mut copy: Vec<String> = Vec::new();
        let mut i: usize = 0;
        while i < extensions.len()
            invariant
                i <= extensions@.len(),
                copy@.len() == i,
                forall|k: int| 0 <= k < i ==> (#[trigger] copy@[k])@ == extensions@[k]@,
            decreases extensions@.len() - i,
        {
            copy.push(extensions[i].clone());
            i = i + 1;
        }
        proof {
            assert(copy@.map_values(|s: String| s@) =~= extensions@.map_values(|s: String| s@));
        }
        FileWalker { extensions: copy, ..self }
    }

    /// Compiles `patterns` into the ignore set. A pattern that does
    /// not parse is dropped; where compiling the set fails, the walker
    /// falls back to ignoring nothing.
    pub fn with_ignore_patterns(self, patterns: &Vec<String>) -> (r: Self)
        ensures
            r.root == self.root,
            r.extensions == self.extensions,
            r.include_tests == self.include_tests,
            globset_build_ok(valid_patterns(patterns@.map_values(|s: String| s@)))
                ==> globset_patterns(r.ignore_patterns) == valid_patterns(
                patterns@.map_values(|s: String| s@),
            ),
            !globset_build_ok(valid_patterns(patterns@.map_values(|s: String| s@)))
                ==> globset_patterns(r.ignore_patterns) == Seq::<Seq<char>>::empty(),
    {
        let ghost pats = patterns@.map_values(|s: String| s@);
        let mut builder = globset_builder_new();
        let mut i: usize = 0;
        proof {
            assert(pats.take(0) =~= Seq::<Seq<char>>::empty());
            assert(valid_patterns(pats.take(0)) =~= Seq::<Seq<char>>::empty()) by {
                reveal(Seq::filter);
            }
        }
        while i < patterns.len()
            invariant
                pats == patterns@.map_values(|s: String| s@),
                i <= pats.len(),
                builder_patterns(builder) == valid_patterns(pats.take(i as int)),
            decreases pats.len() - i,
        {
            proof {
                assert(pats.take(i + 1) =~= pats.take(i as int).push(pats[i as int]));
                lemma_filter_push_pattern(pats.take(i as int), glob_ok_pred(), pats[i as int]);
            }
            match glob_new(patterns[i].as_str()) {
                Some(glob) => {
                    globset_builder_add(&mut builder, glob);
                },
                None => {},
            }
            i = i + 1;
        }
        proof {
            assert(pats.take(pats.len() as int) =~= pats);
        }
        let compiled = match globset_build(&builder) {
            Some(s) => s,
            None => globset_empty(),
        };
        FileWalker { ignore_patterns: compiled, ..self }
    }

    /// Sets whether test files are wanted.
    pub fn include_tests(self, wanted: bool) -> (r: Self)
        ensures
            r.root == self.root,
            r.extensions == self.extensions,
            r.ignore_patterns == self.ignore_patterns,
            r.include_tests == wanted,
    {
        FileWalker { include_tests: wanted, ..self }
    }

    /// Whether `path` carries one of the allowed extensions.
    pub fn has_valid_extension(&self, path: &str) -> (r: bool)
        ensures
            r == valid_extension(self.extensions@.map_values(|s: String| s@), path@),
    {
        let ghost exts = self.extensions@.map_values(|s: String| s@);
        if self.extensions.len() == 0 {
            return true;
        }
        match crate::paths::extension(path) {
            None => false,
            Some(e) => {
                let n = self.extensions.len();
                let mut i: usize = 0;
                while i < n
                    invariant
                        exts == self.extensions@.map_values(|s: String| s@),
                        n == exts.len(),
                        i <= n,
                        ext_of(path@) == Some(e@),
                        forall|k: int| 0 <= k < i ==> (#[trigger] exts[k]) != e@,
                    decreases n - i,
                {
                    if str_eq(self.extensions[i].as_str(), e.as_str()) {
                        proof {
                            assert(exts[i as int] == e@);
                        }
                        return true;
                    }
                    i = i + 1;
                }
                proof {
                    if exts.contains(e@) {
                        let w = choose|k: int| 0 <= k < exts.len() && exts[k] == e@;
                        assert(exts[w] != e@);
                    }
                }
                false
            },
        }
    }

    /// Whether `path` matches one of the ignore globs.
    pub fn should_ignore(&self, path: &str) -> (r: bool)
        ensures
            r == globset_match(globset_patterns(self.ignore_patterns), path@),
    {
        globset_is_match(&self.ignore_patterns, path)
    }

    /// Whether `path` looks like a test file.
    pub fn is_test_file(&self, path: &str) -> (r: bool)
        ensures
            r == walker_test_file(path@),
    {
        let low = lowercase(path);
        let stem = crate::paths::file_stem(low.as_str());
        str_contains(low.as_str(), ".test.") || str_contains(low.as_str(), ".spec.")
            || str_contains(low.as_str(), "__tests__") || str_contains(low.as_str(), "__mocks__")
            || str_ends_with(stem.as_str(), "_test") || str_ends_with(stem.as_str(), "_spec")
    }

    /// Whether a regular file at `path` belongs in the scan: its
    /// extension is allowed, no ignore glob matches it, and it is not
    /// an excluded test file.
    pub fn wants_file(&self, path: &str) -> (r: bool)
        ensures
            r == (valid_extension(self.extensions@.map_values(|s: String| s@), path@)
                && !globset_match(globset_patterns(self.ignore_patterns), path@) && (
            self.include_tests || !walker_test_file(path@))),
    {
        if !self.has_valid_extension(path) {
            return false;
        }
        if self.should_ignore(path) {
            return false;
        }
        if !self.include_tests && self.is_test_file(path) {
            return false;
        }
        true
    }
}

} // verus!
