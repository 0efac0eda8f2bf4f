//! The project-wide reference graph: per-file fact sheets indexed by
//! path, import resolution, and the dead-code detection passes.

use vstd::prelude::*;
use vstd::string::StrSliceExecFns;
use vstd::string::StringExecFns;
use crate::paths::{
    norm_of, same_path, join_of, parent_of, stem_of, normalize_path, join_path, parent_path,
    paths_eq, rel_display_of, rel_display,
};
use crate::strutil::{
    contains_seq, starts_with_seq, ends_with_seq, lower_of, lowercase, str_contains, str_eq,
    str_starts_with, str_ends_with,
};
use crate::text::{FileTexts, text_of, snippet_of, code_snippet};
use crate::types::{
    CodeSpan, DeadCodeContext, DeadCodeItem, DeadCodeKind, ExportedSymbol, ImportedSymbol,
    ReferenceNode,
};

verus! {

// ---------------------------------------------------------------------
// The name and source indices: association lists from a name to the
// files that declare it, in insertion order.
// ---------------------------------------------------------------------

/// The view of one index.
pub open spec fn entries_view(ix: Seq<(String, Vec<String>)>) -> Seq<(Seq<char>, Seq<Seq<char>>)> {
    ix.map_values(|e: (String, Vec<String>)| (e.0@, e.1@.map_values(|s: String| s@)))
}

/// Whether some entry has the key `key`.
pub open spec fn assoc_has(ix: Seq<(Seq<char>, Seq<Seq<char>>)>, key: Seq<char>) -> bool
    decreases ix.len(),
{
    if ix.len() == 0 {
        false
    } else if ix[0].0 == key {
        true
    } else {
        assoc_has(ix.drop_first(), key)
    }
}

proof fn lemma_assoc_has_skip(ix: Seq<(Seq<char>, Seq<Seq<char>>)>, key: Seq<char>, i: int)
    requires
        0 <= i <= ix.len(),
        forall|k: int| 0 <= k < i ==> (#[trigger] ix[k].0) != key,
    ensures
        assoc_has(ix, key) == assoc_has(ix.skip(i), key),
    decreases i,
{
    if i > 0 {
        assert(ix.skip(i - 1).drop_first() =~= ix.skip(i));
        lemma_assoc_has_skip(ix, key, i - 1);
    } else {
        assert(ix.skip(0) =~= ix);
    }
}

/// The index after recording that `val` declares `key`: the value list
/// of the first entry for `key` grows, or a fresh entry is appended.
pub open spec fn assoc_add(
    ix: Seq<(Seq<char>, Seq<Seq<char>>)>,
    key: Seq<char>,
    val: Seq<char>,
) -> Seq<(Seq<char>, Seq<Seq<char>>)>
    decreases ix.len(),
{
    if ix.len() == 0 {
        seq![(key, seq![val])]
    } else if ix[0].0 == key {
        seq![(ix[0].0, ix[0].1.push(val))] + ix.drop_first()
    } else {
        seq![ix[0]] + assoc_add(ix.drop_first(), key, val)
    }
}

proof fn lemma_assoc_add_skip(ix: Seq<(Seq<char>, Seq<Seq<char>>)>, key: Seq<char>, val: Seq<char>, i: int)
    requires
        0 <= i <= ix.len(),
        forall|k: int| 0 <= k < i ==> (#[trigger] ix[k].0) != key,
    ensures
        assoc_add(ix, key, val) == ix.take(i) + assoc_add(ix.skip(i), key, val),
    decreases i,
{
    if i > 0 {
        assert(ix.skip(i - 1).drop_first() =~= ix.skip(i));
        lemma_assoc_add_skip(ix, key, val, i - 1);
        assert(ix.take(i - 1) + assoc_add(ix.skip(i - 1), key, val) =~= ix.take(i) + assoc_add(
            ix.skip(i),
            key,
            val,
        ));
    } else {
        assert(ix.skip(0) =~= ix);
        assert(ix.take(0) + assoc_add(ix, key, val) =~= assoc_add(ix, key, val));
    }
}

/// The index after recording `val` under each key of `keys` in turn.
pub open spec fn assoc_add_all(
    ix: Seq<(Seq<char>, Seq<Seq<char>>)>,
    keys: Seq<Seq<char>>,
    val: Seq<char>,
) -> Seq<(Seq<char>, Seq<Seq<char>>)>
    decreases keys.len(),
{
    if keys.len() == 0 {
        ix
    } else {
        assoc_add(assoc_add_all(ix, keys.drop_last(), val), keys.last(), val)
    }
}

/// Records that `val` declares `key`.
fn index_push(ix: &mut Vec<(String, Vec<String>)>, key: &String, val: String)
    ensures
        entries_view(final(ix)@) == assoc_add(entries_view(old(ix)@), key@, val@),
{
    let ghost old_view = entries_view(old(ix)@);
    let n = ix.len();
    let mut i: usize = 0;
    while i < n
        invariant
            n == ix@.len(),
            i <= n,
            ix@ == old(ix)@,
            old_view == entries_view(old(ix)@),
            forall|k: int| 0 <= k < i ==> (#[trigger] old_view[k].0) != key@,
        decreases n - i,
    {
        if str_eq(ix[i].0.as_str(), key.as_str()) {
            proof {
                assert(old_view[i as int].0 == ix@[i as int].0@);
                lemma_assoc_add_skip(old_view, key@, val@, i as int);
                assert(old_view.skip(i as int)[0] == old_view[i as int]);
                assert(old_view.skip(i as int).drop_first() =~= old_view.skip(i + 1));
            }
            let mut pair = ix.remove(i);
            pair.1.push(val);
            ix.insert(i, pair);
            proof {
                assert(entries_view(ix@) =~~= assoc_add(old_view, key@, val@));
            }
            return ;
        }
        proof {
            assert(old_view[i as int].0 == ix@[i as int].0@);
        }
        i = i + 1;
    }
    let mut fresh: Vec<String> = Vec::new();
    fresh.push(val);
    ix.push((key.clone(), fresh));
    proof {
        lemma_assoc_add_skip(old_view, key@, val@, old_view.len() as int);
        assert(old_view.skip(old_view.len() as int) =~= Seq::<(Seq<char>, Seq<Seq<char>>)>::empty());
        assert(entries_view(ix@) =~~= assoc_add(old_view, key@, val@));
    }
}

// ---------------------------------------------------------------------
// The graph itself.
// ---------------------------------------------------------------------

/// Graph of all file references in the project.
pub struct ReferenceGraph {
    /// All analyzed files, in insertion order.
    pub nodes: Vec<ReferenceNode>,
    /// Map from export name to the files that export it.
    pub export_index: Vec<(String, Vec<String>)>,
    /// Map from import source to the files that import it.
    pub import_index: Vec<(String, Vec<String>)>,
}

/// The node list after taking in `node`: it replaces the first node
/// naming the same file, or is appended.
pub open spec fn node_upsert(nodes: Seq<ReferenceNode>, node: ReferenceNode) -> Seq<ReferenceNode>
    decreases nodes.len(),
{
    if nodes.len() == 0 {
        seq![node]
    } else if same_path(nodes[0].file_path@, node.file_path@) {
        seq![node] + nodes.drop_first()
    } else {
        seq![nodes[0]] + node_upsert(nodes.drop_first(), node)
    }
}

proof fn lemma_node_upsert_skip(nodes: Seq<ReferenceNode>, node: ReferenceNode, i: int)
    requires
        0 <= i <= nodes.len(),
        forall|k: int| 0 <= k < i ==> !same_path(#[trigger] nodes[k].file_path@, node.file_path@),
    ensures
        node_upsert(nodes, node) == nodes.take(i) + node_upsert(nodes.skip(i), node),
    decreases i,
{
    if i > 0 {
        assert(nodes.skip(i - 1).drop_first() =~= nodes.skip(i));
        lemma_node_upsert_skip(nodes, node, i - 1);
        assert(nodes.take(i - 1) + node_upsert(nodes.skip(i - 1), node) =~= nodes.take(i)
            + node_upsert(nodes.skip(i), node));
    } else {
        assert(nodes.skip(0) =~= nodes);
        assert(nodes.take(0) + node_upsert(nodes, node) =~= node_upsert(nodes, node));
    }
}

/// The set of files the graph knows, by normal form.
pub open spec fn key_set(nodes: Seq<ReferenceNode>) -> Set<Seq<char>> {
    nodes.map_values(|n: ReferenceNode| norm_of(n.file_path@)).to_set()
}

/// The module specifier `source` is a relative or absolute reference
/// rather than an external package name.
pub open spec fn source_is_relative(source: Seq<char>) -> bool {
    source.len() > 0 && (source[0] == '.' || source[0] == '/')
}

/// The probe paths tried for a resolved base path, in order: the
/// literal path, the script extensions, then the index files.
pub open spec fn probe_list(base: Seq<char>) -> Seq<Seq<char>> {
    seq![
        base,
        base + ".ts"@,
        base + ".tsx"@,
        base + ".js"@,
        base + ".jsx"@,
        base + "/index.ts"@,
        base + "/index.tsx"@,
        base + "/index.js"@,
    ]
}

/// The first probe that names a known file.
pub open spec fn first_hit(keys: Set<Seq<char>>, probes: Seq<Seq<char>>) -> Option<Seq<char>>
    decreases probes.len(),
{
    if probes.len() == 0 {
        None
    } else if keys.contains(probes[0]) {
        Some(probes[0])
    } else {
        first_hit(keys, probes.drop_first())
    }
}

proof fn lemma_first_hit_skip(keys: Set<Seq<char>>, probes: Seq<Seq<char>>, i: int)
    requires
        0 <= i <= probes.len(),
        forall|k: int| 0 <= k < i ==> !keys.contains(#[trigger] probes[k]),
    ensures
        first_hit(keys, probes) == first_hit(keys, probes.skip(i)),
    decreases i,
{
    if i > 0 {
        assert(probes.skip(i - 1).drop_first() =~= probes.skip(i));
        lemma_first_hit_skip(keys, probes, i - 1);
    } else {
        assert(probes.skip(0) =~= probes);
    }
}

/// What resolving `source` written in `from` comes to, over the known
/// file set `keys`: nothing for an external package reference or a
/// parentless file, else the first hit among the probes of the joined,
/// normalized base path.
pub open spec fn resolve_of(
    keys: Set<Seq<char>>,
    from: Seq<char>,
    source: Seq<char>,
) -> Option<Seq<char>> {
    if !source_is_relative(source) {
        None
    } else {
        match parent_of(norm_of(from)) {
            None => None,
            Some(dir) => first_hit(keys, probe_list(norm_of(join_of(dir, source)))),
        }
    }
}

// ---------------------------------------------------------------------
// Heuristic predicates and confidence scores.
// ---------------------------------------------------------------------

/// `name` matches the lexicon of names that frameworks often reach
/// through dynamic dispatch.
pub open spec fn dynamic_name(name: Seq<char>) -> bool {
    ||| contains_seq(lower_of(name), "handler"@)
    ||| contains_seq(lower_of(name), "middleware"@)
    ||| contains_seq(lower_of(name), "plugin"@)
    ||| contains_seq(lower_of(name), "route"@)
    ||| contains_seq(lower_of(name), "controller"@)
    ||| contains_seq(lower_of(name), "model"@)
}

/// `path` looks like a test file.
pub open spec fn test_file(path: Seq<char>) -> bool {
    ||| contains_seq(lower_of(path), ".test."@)
    ||| contains_seq(lower_of(path), ".spec."@)
    ||| contains_seq(lower_of(path), "__tests__"@)
}

/// `path` looks like a package entry point, seen relative to `root`.
pub open spec fn public_api(path: Seq<char>, root: Seq<char>) -> bool {
    let rel = rel_display_of(path, root);
    ||| rel == "index.ts"@
    ||| rel == "index.js"@
    ||| starts_with_seq(rel, "src/index"@)
    ||| starts_with_seq(rel, "lib/index"@)
}

/// The file name of `path` is a conventional entry-point name.
pub open spec fn entry_stem(path: Seq<char>) -> bool {
    ||| stem_of(path) == "index"@
    ||| stem_of(path) == "main"@
    ||| stem_of(path) == "app"@
}

/// `path` is likely loaded from outside the analyzed set, seen
/// relative to `root`.
pub open spec fn likely_entry_point(path: Seq<char>, root: Seq<char>) -> bool {
    let rel = rel_display_of(path, root);
    ||| entry_stem(path)
    ||| ends_with_seq(rel, "index.ts"@)
    ||| ends_with_seq(rel, "index.js"@)
    ||| contains_seq(rel, "pages/"@)
    ||| contains_seq(rel, "routes/"@)
}

/// The confidence that an unused export of `name` in `path` is dead:
/// nine tenths, less two tenths for a dynamic-dispatch name, three
/// tenths for a test file, two tenths for an entry-point file name,
/// and never below one tenth. In hundredths.
pub open spec fn export_confidence(path: Seq<char>, name: Seq<char>) -> int {
    let c = 90 - (if dynamic_name(name) {
        20int
    } else {
        0int
    }) - (if test_file(path) {
        30int
    } else {
        0int
    }) - (if entry_stem(path) {
        20int
    } else {
        0int
    });
    if c < 10 {
        10
    } else {
        c
    }
}

/// The confidence that a never-imported file is dead: three tenths for
/// a test file, seven tenths otherwise. In hundredths.
pub open spec fn zombie_confidence(path: Seq<char>) -> int {
    if test_file(path) {
        30
    } else {
        70
    }
}

/// The confidence that an unreferenced import is dead: six tenths for
/// a type-only import, nine tenths otherwise. In hundredths.
pub open spec fn import_confidence(is_type_only: bool) -> int {
    if is_type_only {
        60
    } else {
        90
    }
}

/// Some file other than `file` itself imports `name` from `file`.
pub open spec fn use_witness(
    nodes: Seq<ReferenceNode>,
    file: Seq<char>,
    name: Seq<char>,
    k: int,
    l: int,
) -> bool {
    &&& 0 <= k < nodes.len()
    &&& !same_path(nodes[k].file_path@, file)
    &&& 0 <= l < nodes[k].imports@.len()
    &&& resolve_of(key_set(nodes), nodes[k].file_path@, nodes[k].imports@[l].source@) == Some(
        norm_of(file),
    )
    &&& nodes[k].imports@[l].name@ == name
}

/// The export `name` of `file` is imported somewhere else.
pub open spec fn export_used(nodes: Seq<ReferenceNode>, file: Seq<char>, name: Seq<char>) -> bool {
    exists|k: int, l: int| use_witness(nodes, file, name, k, l)
}

/// Some file other than `file` itself resolves an import to `file`.
pub open spec fn import_witness(nodes: Seq<ReferenceNode>, file: Seq<char>, k: int, l: int) -> bool {
    &&& 0 <= k < nodes.len()
    &&& !same_path(nodes[k].file_path@, file)
    &&& 0 <= l < nodes[k].imports@.len()
    &&& resolve_of(key_set(nodes), nodes[k].file_path@, nodes[k].imports@[l].source@) == Some(
        norm_of(file),
    )
}

/// Some other file's resolved import set contains `file`.
pub open spec fn file_imported(nodes: Seq<ReferenceNode>, file: Seq<char>) -> bool {
    exists|k: int, l: int| import_witness(nodes, file, k, l)
}

impl ReferenceGraph {
    /// The empty graph.
    pub fn new() -> (r: Self)
        ensures
            r.nodes@.len() == 0,
            r.export_index@.len() == 0,
            r.import_index@.len() == 0,
    {
        ReferenceGraph { nodes: Vec::new(), export_index: Vec::new(), import_index: Vec::new() }
    }

    /// Adds a file's fact sheet to the graph. Its exports and imports
    /// are indexed, and the node replaces an earlier node for the same
    /// file, or is appended.
    pub fn add_node(&mut self, node: ReferenceNode)
        ensures
            final(self).nodes@ == node_upsert(old(self).nodes@, node),
            entries_view(final(self).export_index@) == assoc_add_all(
                entries_view(old(self).export_index@),
                node.exports@.map_values(|e: ExportedSymbol| e.name@),
                node.file_path@,
            ),
            entries_view(final(self).import_index@) == assoc_add_all(
                entries_view(old(self).import_index@),
                node.imports@.map_values(|im: ImportedSymbol| im.source@),
                node.file_path@,
            ),
    {
        let ghost export_names = node.exports@.map_values(|e: ExportedSymbol| e.name@);
        let ghost import_sources = node.imports@.map_values(|im: ImportedSymbol| im.source@);
        let ghost old_exports = entries_view(old(self).export_index@);
        let ghost old_imports = entries_view(old(self).import_index@);

        let mut i: usize = 0;
        proof {
            assert(export_names.take(0) =~= Seq::<Seq<char>>::empty());
        }
        while i < node.exports.len()
            invariant
                i <= node.exports@.len(),
                export_names == node.exports@.map_values(|e: ExportedSymbol| e.name@),
                old_exports == entries_view(old(self).export_index@),
                entries_view(self.export_index@) == assoc_add_all(
                    old_exports,
                    export_names.take(i as int),
                    node.file_path@,
                ),
                self.import_index@ == old(self).import_index@,
                self.nodes@ == old(self).nodes@,
            decreases node.exports@.len() - i,
        {
            index_push(&mut self.export_index, &node.exports[i].name, node.file_path.clone());
            proof {
                let t = export_names.take(i + 1);
                assert(t.drop_last() =~= export_names.take(i as int));
                assert(t.last() == export_names[i as int]);
            }
            i = i + 1;
        }
        proof {
            assert(export_names.take(node.exports@.len() as int) =~= export_names);
        }

        let mut j: usize = 0;
        proof {
            assert(import_sources.take(0) =~= Seq::<Seq<char>>::empty());
        }
        while j < node.imports.len()
            invariant
                j <= node.imports@.len(),
                import_sources == node.imports@.map_values(|im: ImportedSymbol| im.source@),
                old_imports == entries_view(old(self).import_index@),
                old_exports == entries_view(old(self).export_index@),
                export_names == node.exports@.map_values(|e: ExportedSymbol| e.name@),
                entries_view(self.import_index@) == assoc_add_all(
                    old_imports,
                    import_sources.take(j as int),
                    node.file_path@,
                ),
                entries_view(self.export_index@) == assoc_add_all(
                    old_exports,
                    export_names,
                    node.file_path@,
                ),
                self.nodes@ == old(self).nodes@,
            decreases node.imports@.len() - j,
        {
            index_push(&mut self.import_index, &node.imports[j].source, node.file_path.clone());
            proof {
                let t = import_sources.take(j + 1);
                assert(t.drop_last() =~= import_sources.take(j as int));
                assert(t.last() == import_sources[j as int]);
            }
            j = j + 1;
        }
        proof {
            assert(import_sources.take(node.imports@.len() as int) =~= import_sources);
        }

        let n = self.nodes.len();
        let mut k: usize = 0;
        while k < n
            invariant
                n == self.nodes@.len(),
                k <= n,
                self.nodes@ == old(self).nodes@,
                old_exports == entries_view(old(self).export_index@),
                old_imports == entries_view(old(self).import_index@),
                export_names == node.exports@.map_values(|e: ExportedSymbol| e.name@),
                import_sources == node.imports@.map_values(|im: ImportedSymbol| im.source@),
                entries_view(self.export_index@) == assoc_add_all(
                    old_exports,
                    export_names,
                    node.file_path@,
                ),
                entries_view(self.import_index@) == assoc_add_all(
                    old_imports,
                    import_sources,
                    node.file_path@,
                ),
                forall|t: int|
                    0 <= t < k ==> !same_path(#[trigger] self.nodes@[t].file_path@, node.file_path@),
            decreases n - k,
        {
            if paths_eq(self.nodes[k].file_path.as_str(), node.file_path.as_str()) {
                proof {
                    lemma_node_upsert_skip(self.nodes@, node, k as int);
                    assert(self.nodes@.skip(k as int)[0] == self.nodes@[k as int]);
                    assert(self.nodes@.skip(k as int).drop_first() =~= self.nodes@.skip(k + 1));
                }
                let _ = self.nodes.remove(k);
                self.nodes.insert(k, node);
                proof {
                    assert(self.nodes@ =~= node_upsert(old(self).nodes@, node));
                }
                return ;
            }
            k = k + 1;
        }
        proof {
            lemma_node_upsert_skip(self.nodes@, node, self.nodes@.len() as int);
            assert(self.nodes@.skip(self.nodes@.len() as int) =~= Seq::<ReferenceNode>::empty());
        }
        self.nodes.push(node);
        proof {
            assert(self.nodes@ =~= node_upsert(old(self).nodes@, node));
        }
    }

    /// Whether the export index has an entry for `name`.
    pub fn export_index_contains(&self, name: &str) -> (r: bool)
        ensures
            r == assoc_has(entries_view(self.export_index@), name@),
    {
        let ghost view = entries_view(self.export_index@);
        let n = self.export_index.len();
        let mut i: usize = 0;
        while i < n
            invariant
                n == self.export_index@.len(),
                view == entries_view(self.export_index@),
                i <= n,
                forall|k: int| 0 <= k < i ==> (#[trigger] view[k].0) != name@,
            decreases n - i,
        {
            if str_eq(self.export_index[i].0.as_str(), name) {
                proof {
                    assert(view[i as int].0 == self.export_index@[i as int].0@);
                    lemma_assoc_has_skip(view, name@, i as int);
                    assert(view.skip(i as int)[0] == view[i as int]);
                }
                return true;
            }
            proof {
                assert(view[i as int].0 == self.export_index@[i as int].0@);
            }
            i = i + 1;
        }
        proof {
            lemma_assoc_has_skip(view, name@, n as int);
            assert(view.skip(n as int) =~= Seq::<(Seq<char>, Seq<Seq<char>>)>::empty());
        }
        false
    }

    /// Whether a path with the normal form `cand` is in the graph.
    fn contains_key_norm(&self, cand: &str) -> (r: bool)
        ensures
            r == key_set(self.nodes@).contains(cand@),
    {
        let n = self.nodes.len();
        let ghost keys = self.nodes@.map_values(|nd: ReferenceNode| norm_of(nd.file_path@));
        let mut i: usize = 0;
        while i < n
            invariant
                n == self.nodes@.len(),
                keys == self.nodes@.map_values(|nd: ReferenceNode| norm_of(nd.file_path@)),
                i <= n,
                forall|k: int| 0 <= k < i ==> (#[trigger] keys[k]) != cand@,
            decreases n - i,
        {
            let norm = normalize_path(self.nodes[i].file_path.as_str());
            if str_eq(norm.as_str(), cand) {
                proof {
                    assert(keys[i as int] == cand@);
                    assert(keys.contains(cand@));
                }
                return true;
            }
            i = i + 1;
        }
        proof {
            if keys.contains(cand@) {
                let w = choose|k: int| 0 <= k < keys.len() && keys[k] == cand@;
                assert(keys[w] != cand@);
            }
        }
        false
    }

    /// Resolves the module specifier `source`, as written in
    /// `from_file`, to a known file, by its normal form.
    pub fn resolve_import(&self, from_file: &str, source: &str) -> (r: Option<String>)
        ensures
            match r {
                Some(s) => resolve_of(key_set(self.nodes@), from_file@, source@) == Some(s@),
                None => resolve_of(key_set(self.nodes@), from_file@, source@) is None,
            },
    {
        if source.is_empty() {
            return None;
        }
        let c0 = source.get_char(0);
        if c0 != '.' && c0 != '/' {
            return None;
        }
        let from_norm = normalize_path(from_file);
        let dir = match parent_path(from_norm.as_str()) {
            None => {
                return None;
            },
            Some(d) => d,
        };
        let joined = join_path(dir.as_str(), source);
        let base = normalize_path(joined.as_str());
        let ghost base_v = norm_of(join_of(parent_of(norm_of(from_file@)).unwrap(), source@));
        proof {
            assert(base@ == base_v);
        }

        let mut probes: Vec<String> = Vec::new();
        probes.push(base.clone());
        probes.push(append_str(&base, ".ts"));
        probes.push(append_str(&base, ".tsx"));
        probes.push(append_str(&base, ".js"));
        probes.push(append_str(&base, ".jsx"));
        probes.push(append_str(&base, "/index.ts"));
        probes.push(append_str(&base, "/index.tsx"));
        probes.push(append_str(&base, "/index.js"));
        proof {
            assert(probes@.map_values(|s: String| s@) =~= probe_list(base_v));
        }
        let ghost probes_v = probe_list(base_v);
        let ghost keys = key_set(self.nodes@);
        proof {
            assert(resolve_of(keys, from_file@, source@) == first_hit(keys, probes_v));
        }

        let mut k: usize = 0;
        while k < probes.len()
            invariant
                probes@.map_values(|s: String| s@) == probes_v,
                k <= probes@.len(),
                keys == key_set(self.nodes@),
                resolve_of(keys, from_file@, source@) == first_hit(keys, probes_v),
                forall|t: int| 0 <= t < k ==> !keys.contains(#[trigger] probes_v[t]),
            decreases probes@.len() - k,
        {
            if self.contains_key_norm(probes[k].as_str()) {
                proof {
                    lemma_first_hit_skip(keys, probes_v, k as int);
                    assert(probes_v.skip(k as int)[0] == probes_v[k as int]);
                }
                let hit = probes[k].clone();
                return Some(hit);
            }
            k = k + 1;
        }
        proof {
            lemma_first_hit_skip(keys, probes_v, probes_v.len() as int);
            assert(probes_v.skip(probes_v.len() as int) =~= Seq::<Seq<char>>::empty());
        }
        None
    }

    /// Whether `name`, exported by `export_file`, is imported by some
    /// other file of the graph.
    pub fn is_export_used(&self, export_file: &str, export_name: &str) -> (r: bool)
        ensures
            r == export_used(self.nodes@, export_file@, export_name@),
    {
        let file_norm = normalize_path(export_file);
        let n = self.nodes.len();
        let mut k: usize = 0;
        while k < n
            invariant
                n == self.nodes@.len(),
                file_norm@ == norm_of(export_file@),
                k <= n,
                forall|t: int, l: int|
                    0 <= t < k ==> !use_witness(self.nodes@, export_file@, export_name@, t, l),
            decreases n - k,
        {
            if !paths_eq(self.nodes[k].file_path.as_str(), export_file) {
                let m = self.nodes[k].imports.len();
                let mut l: usize = 0;
                while l < m
                    invariant
                        n == self.nodes@.len(),
                        k < n,
                        m == self.nodes@[k as int].imports@.len(),
                        !same_path(self.nodes@[k as int].file_path@, export_file@),
                        file_norm@ == norm_of(export_file@),
                        l <= m,
                        forall|t: int, u: int|
                            0 <= t < k ==> !use_witness(
                                self.nodes@,
                                export_file@,
                                export_name@,
                                t,
                                u,
                            ),
                        forall|u: int|
                            0 <= u < l ==> !use_witness(
                                self.nodes@,
                                export_file@,
                                export_name@,
                                k as int,
                                u,
                            ),
                    decreases m - l,
                {
                    let import = &self.nodes[k].imports[l];
                    match self.resolve_import(
                        self.nodes[k].file_path.as_str(),
                        import.source.as_str(),
                    ) {
                        Some(resolved) => {
                            if str_eq(resolved.as_str(), file_norm.as_str()) && str_eq(
                                import.name.as_str(),
                                export_name,
                            ) {
                                proof {
                                    assert(use_witness(
                                        self.nodes@,
                                        export_file@,
                                        export_name@,
                                        k as int,
                                        l as int,
                                    ));
                                }
                                return true;
                            }
                        },
                        None => {},
                    }
                    l = l + 1;
                }
            }
            k = k + 1;
        }
        false
    }

    /// Whether `name` matches the dynamic-dispatch lexicon.
    pub fn might_be_dynamic_import(&self, name: &str) -> (r: bool)
        ensures
            r == dynamic_name(name@),
    {
        let low = lowercase(name);
        str_contains(low.as_str(), "handler") || str_contains(low.as_str(), "middleware")
            || str_contains(low.as_str(), "plugin") || str_contains(low.as_str(), "route")
            || str_contains(low.as_str(), "controller") || str_contains(low.as_str(), "model")
    }

    /// Whether `path` looks like a test file.
    pub fn is_test_file(&self, path: &str) -> (r: bool)
        ensures
            r == test_file(path@),
    {
        let low = lowercase(path);
        str_contains(low.as_str(), ".test.") || str_contains(low.as_str(), ".spec.")
            || str_contains(low.as_str(), "__tests__")
    }

    /// Whether `path` looks like a package entry point under `root`.
    pub fn is_public_api(&self, path: &str, root: &str) -> (r: bool)
        ensures
            r == public_api(path@, root@),
    {
        let rel = rel_display(path, root);
        str_eq(rel.as_str(), "index.ts") || str_eq(rel.as_str(), "index.js") || str_starts_with(
            rel.as_str(),
            "src/index",
        ) || str_starts_with(rel.as_str(), "lib/index")
    }

    /// Whether `path` is likely loaded from outside the analyzed set.
    pub fn is_likely_entry_point(&self, path: &str, root: &str) -> (r: bool)
        ensures
            r == likely_entry_point(path@, root@),
    {
        let stem = crate::paths::file_stem(path);
        let rel = rel_display(path, root);
        str_eq(stem.as_str(), "index") || str_eq(stem.as_str(), "main") || str_eq(
            stem.as_str(),
            "app",
        ) || str_ends_with(rel.as_str(), "index.ts") || str_ends_with(rel.as_str(), "index.js")
            || str_contains(rel.as_str(), "pages/") || str_contains(rel.as_str(), "routes/")
    }

    /// The confidence score for an unused export of `export_name` in
    /// `file_path`, in hundredths.
    pub fn calculate_export_confidence(&self, file_path: &str, export_name: &str) -> (r: u32)
        ensures
            r == export_confidence(file_path@, export_name@),
            10 <= r <= 90,
    {
        let mut confidence: u32 = 90;

        if self.might_be_dynamic_import(export_name) {
            confidence = confidence - 20;
        }
        if self.is_test_file(file_path) {
            confidence = confidence - 30;
        }
        let stem = crate::paths::file_stem(file_path);
        if str_eq(stem.as_str(), "index") || str_eq(stem.as_str(), "main") || str_eq(
            stem.as_str(),
            "app",
        ) {
            confidence = confidence - 20;
        }
        if confidence < 10 {
            10
        } else {
            confidence
        }
    }
}

impl ReferenceGraph {
    /// Whether some other file of the graph resolves an import to
    /// `file`.
    fn is_file_imported(&self, file: &str) -> (r: bool)
        ensures
            r == file_imported(self.nodes@, file@),
    {
        let file_norm = normalize_path(file);
        let n = self.nodes.len();
        let mut k: usize = 0;
        while k < n
            invariant
                n == self.nodes@.len(),
                file_norm@ == norm_of(file@),
                k <= n,
                forall|t: int, l: int|
                    0 <= t < k ==> !import_witness(self.nodes@, file@, t, l),
            decreases n - k,
        {
            if !paths_eq(self.nodes[k].file_path.as_str(), file) {
                let m = self.nodes[k].imports.len();
                let mut l: usize = 0;
                while l < m
                    invariant
                        n == self.nodes@.len(),
                        k < n,
                        m == self.nodes@[k as int].imports@.len(),
                        !same_path(self.nodes@[k as int].file_path@, file@),
                        file_norm@ == norm_of(file@),
                        l <= m,
                        forall|t: int, u: int|
                            0 <= t < k ==> !import_witness(self.nodes@, file@, t, u),
                        forall|u: int|
                            0 <= u < l ==> !import_witness(self.nodes@, file@, k as int, u),
                    decreases m - l,
                {
                    let import = &self.nodes[k].imports[l];
                    match self.resolve_import(
                        self.nodes[k].file_path.as_str(),
                        import.source.as_str(),
                    ) {
                        Some(resolved) => {
                            if str_eq(resolved.as_str(), file_norm.as_str()) {
                                proof {
                                    assert(import_witness(self.nodes@, file@, k as int, l as int));
                                }
                                return true;
                            }
                        },
                        None => {},
                    }
                    l = l + 1;
                }
            }
            k = k + 1;
        }
        false
    }

    /// The snippet for `span` of `path`, from the stored text of the
    /// file; the empty string where no text is stored.
    fn snippet_for(&self, texts: &FileTexts, path: &str, span: &CodeSpan) -> (r: String)
        ensures
            r@ == snippet_of(text_of(texts.entries@, path@), *span),
    {
        match texts.lookup(path) {
            Some(t) => code_snippet(t.as_str(), span),
            None => {
                proof {
                    assert(snippet_of(Seq::<char>::empty(), *span) =~= Seq::<char>::empty()) by {
                        crate::paths::lemma_split_sep_len(Seq::<char>::empty(), '\n');
                        assert(crate::text::lines_of(Seq::<char>::empty())
                            =~= Seq::<Seq<char>>::empty());
                    }
                }
                String::new()
            },
        }
    }

    /// Finds exports that are never imported.
    fn find_unused_exports(&self, root: &str, texts: &FileTexts) -> (r: Vec<DeadCodeItem>)
        ensures
            r@.len() == export_pairs(self.nodes@).len(),
            forall|k: int|
                0 <= k < r@.len() ==> matches_unused_export(
                    #[trigger] r@[k],
                    self.nodes@,
                    root@,
                    texts.entries@,
                    export_pairs(self.nodes@)[k].0,
                    export_pairs(self.nodes@)[k].1,
                ),
    {
        let ghost nodes = self.nodes@;
        let mut r: Vec<DeadCodeItem> = Vec::new();
        let n = self.nodes.len();
        let mut i: usize = 0;
        while i < n
            invariant
                nodes == self.nodes@,
                n == nodes.len(),
                i <= n,
                r@.len() == export_pairs_upto(nodes, i as int).len(),
                forall|k: int|
                    0 <= k < r@.len() ==> matches_unused_export(
                        #[trigger] r@[k],
                        nodes,
                        root@,
                        texts.entries@,
                        export_pairs_upto(nodes, i as int)[k].0,
                        export_pairs_upto(nodes, i as int)[k].1,
                    ),
            decreases n - i,
        {
            let ghost base = export_pairs_upto(nodes, i as int);
            let m = self.nodes[i].exports.len();
            let mut j: usize = 0;
            proof {
                assert(export_pairs_partial(nodes, i as int, 0) =~= Seq::<(int, int)>::empty())
                    by {
                    assert(Seq::new(0, |jj: int| (i as int, jj))
                        =~= Seq::<(int, int)>::empty());
                    Seq::<(int, int)>::empty().lemma_filter_len(export_pair_pred(nodes));
                    reveal(Seq::filter);
                }
            }
            while j < m
                invariant
                    nodes == self.nodes@,
                    n == nodes.len(),
                    i < n,
                    m == nodes[i as int].exports@.len(),
                    j <= m,
                    base == export_pairs_upto(nodes, i as int),
                    r@.len() == base.len() + export_pairs_partial(nodes, i as int, j as int).len(),
                    forall|k: int|
                        0 <= k < base.len() ==> matches_unused_export(
                            #[trigger] r@[k],
                            nodes,
                            root@,
                            texts.entries@,
                            base[k].0,
                            base[k].1,
                        ),
                    forall|k: int|
                        0 <= k < export_pairs_partial(nodes, i as int, j as int).len()
                            ==> matches_unused_export(
                            #[trigger] r@[base.len() + k],
                            nodes,
                            root@,
                            texts.entries@,
                            export_pairs_partial(nodes, i as int, j as int)[k].0,
                            export_pairs_partial(nodes, i as int, j as int)[k].1,
                        ),
                decreases m - j,
            {
                let ghost partial = export_pairs_partial(nodes, i as int, j as int);
                proof {
                    assert(Seq::new((j + 1) as nat, |jj: int| (i as int, jj)) =~= Seq::new(
                        j as nat,
                        |jj: int| (i as int, jj),
                    ).push((i as int, j as int)));
                    lemma_pair_filter_push(
                        Seq::new(j as nat, |jj: int| (i as int, jj)),
                        export_pair_pred(nodes),
                        (i as int, j as int),
                    );
                }
                let eligible = {
                    let e = &self.nodes[i].exports[j];
                    !e.is_reexport && !str_eq(e.name.as_str(), "*") && !e.is_default
                };
                if eligible {
                    let used = self.is_export_used(
                        self.nodes[i].file_path.as_str(),
                        self.nodes[i].exports[j].name.as_str(),
                    );
                    if !used {
                        let code_snippet = self.snippet_for(
                            texts,
                            self.nodes[i].file_path.as_str(),
                            &self.nodes[i].exports[j].span,
                        );
                        let relative_path = rel_display(self.nodes[i].file_path.as_str(), root);
                        let confidence = self.calculate_export_confidence(
                            self.nodes[i].file_path.as_str(),
                            self.nodes[i].exports[j].name.as_str(),
                        );
                        let context = DeadCodeContext {
                            possibly_dynamic: self.might_be_dynamic_import(
                                self.nodes[i].exports[j].name.as_str(),
                            ),
                            in_test_file: self.is_test_file(self.nodes[i].file_path.as_str()),
                            public_api: self.is_public_api(
                                self.nodes[i].file_path.as_str(),
                                root,
                            ),
                            partial_references: Vec::new(),
                            doc_comment: None,
                        };
                        let mut reason = crate::types::new_string("Export '");
                        reason.append(self.nodes[i].exports[j].name.as_str());
                        reason.append("' has 0 references in the codebase");
                        let item = DeadCodeItem {
                            file_path: self.nodes[i].file_path.clone(),
                            relative_path,
                            span: self.nodes[i].exports[j].span,
                            code_snippet,
                            kind: DeadCodeKind::UnusedExport,
                            name: self.nodes[i].exports[j].name.clone(),
                            reason,
                            confidence,
                            context: Some(context),
                        };
                        r.push(item);
                        proof {
                            assert(unused_export_flag(nodes, i as int, j as int));
                            assert(export_pairs_partial(nodes, i as int, j + 1) =~= partial.push(
                                (i as int, j as int),
                            ));
                            assert(matches_unused_export(
                                r@[base.len() + partial.len() as int],
                                nodes,
                                root@,
                                texts.entries@,
                                i as int,
                                j as int,
                            ));
                        }
                    } else {
                        proof {
                            assert(!unused_export_flag(nodes, i as int, j as int));
                            assert(export_pairs_partial(nodes, i as int, j + 1) =~= partial);
                        }
                    }
                } else {
                    proof {
                        assert(!unused_export_flag(nodes, i as int, j as int));
                        assert(export_pairs_partial(nodes, i as int, j + 1) =~= partial);
                    }
                }
                j = j + 1;
            }
            proof {
                let partial_m = export_pairs_partial(nodes, i as int, m as int);
                assert(export_pairs_upto(nodes, i + 1) =~= base + partial_m);
                assert forall|k: int|
                    0 <= k < r@.len() implies matches_unused_export(
                    #[trigger] r@[k],
                    nodes,
                    root@,
                    texts.entries@,
                    export_pairs_upto(nodes, i + 1)[k].0,
                    export_pairs_upto(nodes, i + 1)[k].1,
                ) by {
                    if k >= base.len() {
                        let kk = k - base.len();
                        assert(matches_unused_export(
                            r@[base.len() + kk],
                            nodes,
                            root@,
                            texts.entries@,
                            partial_m[kk].0,
                            partial_m[kk].1,
                        ));
                    }
                };
            }
            i = i + 1;
        }
        r
    }

    /// Finds files that no file imports.
    fn find_zombie_files(&self, root: &str) -> (r: Vec<DeadCodeItem>)
        ensures
            r@.len() == zombie_list(self.nodes@, root@).len(),
            forall|k: int|
                0 <= k < r@.len() ==> matches_zombie(
                    #[trigger] r@[k],
                    self.nodes@,
                    root@,
                    zombie_list(self.nodes@, root@)[k],
                ),
    {
        let ghost nodes = self.nodes@;
        let mut r: Vec<DeadCodeItem> = Vec::new();
        let n = self.nodes.len();
        let mut i: usize = 0;
        while i < n
            invariant
                nodes == self.nodes@,
                n == nodes.len(),
                i <= n,
                r@.len() == zombie_list_upto(nodes, root@, i as int).len(),
                forall|k: int|
                    0 <= k < r@.len() ==> matches_zombie(
                        #[trigger] r@[k],
                        nodes,
                        root@,
                        zombie_list_upto(nodes, root@, i as int)[k],
                    ),
            decreases n - i,
        {
            let ghost base = zombie_list_upto(nodes, root@, i as int);
            let entry = self.is_likely_entry_point(self.nodes[i].file_path.as_str(), root);
            let has_exports = self.nodes[i].exports.len() > 0;
            if !entry && has_exports {
                let imported = self.is_file_imported(self.nodes[i].file_path.as_str());
                if !imported {
                    let relative_path = rel_display(self.nodes[i].file_path.as_str(), root);
                    let confidence: u32 = if self.is_test_file(self.nodes[i].file_path.as_str()) {
                        30
                    } else {
                        70
                    };
                    let context = DeadCodeContext {
                        possibly_dynamic: true,
                        in_test_file: self.is_test_file(self.nodes[i].file_path.as_str()),
                        public_api: self.is_public_api(self.nodes[i].file_path.as_str(), root),
                        partial_references: Vec::new(),
                        doc_comment: None,
                    };
                    let mut code_snippet = crate::types::new_string("// Entire file: ");
                    code_snippet.append(relative_path.as_str());
                    let item = DeadCodeItem {
                        file_path: self.nodes[i].file_path.clone(),
                        relative_path: relative_path.clone(),
                        span: CodeSpan { start: 1, end: 1, col_start: 0, col_end: 0 },
                        code_snippet,
                        kind: DeadCodeKind::ZombieFile,
                        name: relative_path,
                        reason: crate::types::new_string(
                            "File is never imported by any other file in the project",
                        ),
                        confidence,
                        context: Some(context),
                    };
                    r.push(item);
                    proof {
                        assert(zombie_flag(nodes, root@, i as int));
                        assert(zombie_list_upto(nodes, root@, i + 1) =~= base.push(i as int));
                        assert(matches_zombie(r@[base.len() as int], nodes, root@, i as int));
                    }
                } else {
                    proof {
                        assert(!zombie_flag(nodes, root@, i as int));
                        assert(zombie_list_upto(nodes, root@, i + 1) =~= base);
                    }
                }
            } else {
                proof {
                    assert(!zombie_flag(nodes, root@, i as int));
                    assert(zombie_list_upto(nodes, root@, i + 1) =~= base);
                }
            }
            i = i + 1;
        }
        r
    }

    /// Whether `name` occurs among the referenced identifier names of
    /// node `i`.
    fn refs_contain(&self, i: usize, name: &str) -> (r: bool)
        requires
            i < self.nodes@.len(),
        ensures
            r == self.nodes@[i as int].internal_refs@.map_values(|s: String| s@).contains(name@),
    {
        let ghost refs = self.nodes@[i as int].internal_refs@.map_values(|s: String| s@);
        let m = self.nodes[i].internal_refs.len();
        let mut k: usize = 0;
        while k < m
            invariant
                i < self.nodes@.len(),
                refs == self.nodes@[i as int].internal_refs@.map_values(|s: String| s@),
                m == refs.len(),
                k <= m,
                forall|t: int| 0 <= t < k ==> (#[trigger] refs[t]) != name@,
            decreases m - k,
        {
            if str_eq(self.nodes[i].internal_refs[k].as_str(), name) {
                proof {
                    assert(refs[k as int] == name@);
                }
                return true;
            }
            k = k + 1;
        }
        proof {
            if refs.contains(name@) {
                let w = choose|t: int| 0 <= t < refs.len() && refs[t] == name@;
                assert(refs[w] != name@);
            }
        }
        false
    }

    /// Finds imports that are declared but never used.
    fn find_unused_imports(&self, root: &str, texts: &FileTexts) -> (r: Vec<DeadCodeItem>)
        ensures
            r@.len() == import_pairs(self.nodes@).len(),
            forall|k: int|
                0 <= k < r@.len() ==> matches_unused_import(
                    #[trigger] r@[k],
                    self.nodes@,
                    root@,
                    texts.entries@,
                    import_pairs(self.nodes@)[k].0,
                    import_pairs(self.nodes@)[k].1,
                ),
    {
        let ghost nodes = self.nodes@;
        let mut r: Vec<DeadCodeItem> = Vec::new();
        let n = self.nodes.len();
        let mut i: usize = 0;
        while i < n
            invariant
                nodes == self.nodes@,
                n == nodes.len(),
                i <= n,
                r@.len() == import_pairs_upto(nodes, i as int).len(),
                forall|k: int|
                    0 <= k < r@.len() ==> matches_unused_import(
                        #[trigger] r@[k],
                        nodes,
                        root@,
                        texts.entries@,
                        import_pairs_upto(nodes, i as int)[k].0,
                        import_pairs_upto(nodes, i as int)[k].1,
                    ),
            decreases n - i,
        {
            let ghost base = import_pairs_upto(nodes, i as int);
            let m = self.nodes[i].imports.len();
            let mut l: usize = 0;
            proof {
                assert(import_pairs_partial(nodes, i as int, 0) =~= Seq::<(int, int)>::empty())
                    by {
                    assert(Seq::new(0, |ll: int| (i as int, ll))
                        =~= Seq::<(int, int)>::empty());
                    reveal(Seq::filter);
                }
            }
            while l < m
                invariant
                    nodes == self.nodes@,
                    n == nodes.len(),
                    i < n,
                    m == nodes[i as int].imports@.len(),
                    l <= m,
                    base == import_pairs_upto(nodes, i as int),
                    r@.len() == base.len() + import_pairs_partial(nodes, i as int, l as int).len(),
                    forall|k: int|
                        0 <= k < base.len() ==> matches_unused_import(
                            #[trigger] r@[k],
                            nodes,
                            root@,
                            texts.entries@,
                            base[k].0,
                            base[k].1,
                        ),
                    forall|k: int|
                        0 <= k < import_pairs_partial(nodes, i as int, l as int).len()
                            ==> matches_unused_import(
                            #[trigger] r@[base.len() + k],
                            nodes,
                            root@,
                            texts.entries@,
                            import_pairs_partial(nodes, i as int, l as int)[k].0,
                            import_pairs_partial(nodes, i as int, l as int)[k].1,
                        ),
                decreases m - l,
            {
                let ghost partial = import_pairs_partial(nodes, i as int, l as int);
                proof {
                    assert(Seq::new((l + 1) as nat, |ll: int| (i as int, ll)) =~= Seq::new(
                        l as nat,
                        |ll: int| (i as int, ll),
                    ).push((i as int, l as int)));
                    lemma_pair_filter_push(
                        Seq::new(l as nat, |ll: int| (i as int, ll)),
                        import_pair_pred(nodes),
                        (i as int, l as int),
                    );
                }
                let name_is_star = {
                    let import = &self.nodes[i].imports[l];
                    let name_to_check = match &import.alias {
                        Some(a) => a,
                        None => &import.name,
                    };
                    str_eq(name_to_check.as_str(), "*")
                };
                let referenced = {
                    let used;
                    let import = &self.nodes[i].imports[l];
                    match &import.alias {
                        Some(a) => {
                            let owned = a.clone();
                            used = self.refs_contain(i, owned.as_str());
                        },
                        None => {
                            let owned = import.name.clone();
                            used = self.refs_contain(i, owned.as_str());
                        },
                    }
                    used
                };
                if !referenced && !name_is_star {
                    let code_snippet = self.snippet_for(
                        texts,
                        self.nodes[i].file_path.as_str(),
                        &self.nodes[i].imports[l].span,
                    );
                    let relative_path = rel_display(self.nodes[i].file_path.as_str(), root);
                    let confidence: u32 = if self.nodes[i].imports[l].is_type_only {
                        60
                    } else {
                        90
                    };
                    let name = match &self.nodes[i].imports[l].alias {
                        Some(a) => a.clone(),
                        None => self.nodes[i].imports[l].name.clone(),
                    };
                    let mut reason = crate::types::new_string("Import '");
                    reason.append(name.as_str());
                    reason.append("' from '");
                    reason.append(self.nodes[i].imports[l].source.as_str());
                    reason.append("' is never used in this file");
                    let item = DeadCodeItem {
                        file_path: self.nodes[i].file_path.clone(),
                        relative_path,
                        span: self.nodes[i].imports[l].span,
                        code_snippet,
                        kind: DeadCodeKind::UnusedImport,
                        name,
                        reason,
                        confidence,
                        context: None,
                    };
                    r.push(item);
                    proof {
                        assert(unused_import_flag(nodes, i as int, l as int));
                        assert(import_pairs_partial(nodes, i as int, l + 1) =~= partial.push(
                            (i as int, l as int),
                        ));
                        assert(matches_unused_import(
                            r@[base.len() + partial.len() as int],
                            nodes,
                            root@,
                            texts.entries@,
                            i as int,
                            l as int,
                        ));
                    }
                } else {
                    proof {
                        assert(!unused_import_flag(nodes, i as int, l as int));
                        assert(import_pairs_partial(nodes, i as int, l + 1) =~= partial);
                    }
                }
                l = l + 1;
            }
            proof {
                let partial_m = import_pairs_partial(nodes, i as int, m as int);
                assert(import_pairs_upto(nodes, i + 1) =~= base + partial_m);
                assert forall|k: int|
                    0 <= k < r@.len() implies matches_unused_import(
                    #[trigger] r@[k],
                    nodes,
                    root@,
                    texts.entries@,
                    import_pairs_upto(nodes, i + 1)[k].0,
                    import_pairs_upto(nodes, i + 1)[k].1,
                ) by {
                    if k >= base.len() {
                        let kk = k - base.len();
                        assert(matches_unused_import(
                            r@[base.len() + kk],
                            nodes,
                            root@,
                            texts.entries@,
                            partial_m[kk].0,
                            partial_m[kk].1,
                        ));
                    }
                };
            }
            i = i + 1;
        }
        r
    }

    /// Runs the three detection passes and concatenates their
    /// findings: unused exports, then zombie files, then unused
    /// imports. The threshold is carried for the presentation layer;
    /// the passes always compute full scores.
    pub fn find_dead_code(&self, root: &str, confidence_threshold: u32, texts: &FileTexts) -> (r:
        Vec<DeadCodeItem>)
        ensures
            detection_result(r@, self.nodes@, root@, texts.entries@),
    {
        let _ = confidence_threshold;
        let mut dead_code = self.find_unused_exports(root, texts);
        let mut zombies = self.find_zombie_files(root);
        let mut unused_imports = self.find_unused_imports(root, texts);
        dead_code.append(&mut zombies);
        dead_code.append(&mut unused_imports);
        dead_code
    }
}

/// What `find_dead_code` returns: the findings of the three passes,
/// in pass order — unused exports first, then zombie files, then
/// unused imports — each segment listing its flagged subjects in
/// traversal order, one finding per subject.
pub open spec fn detection_result(
    r: Seq<DeadCodeItem>,
    nodes: Seq<ReferenceNode>,
    root: Seq<char>,
    texts: Seq<(String, String)>,
) -> bool {
    let ue = export_pairs(nodes);
    let z = zombie_list(nodes, root);
    let ui = import_pairs(nodes);
    &&& r.len() == ue.len() + z.len() + ui.len()
    &&& forall|k: int|
        0 <= k < ue.len() ==> matches_unused_export(
            #[trigger] r[k],
            nodes,
            root,
            texts,
            ue[k].0,
            ue[k].1,
        )
    &&& forall|k: int|
        0 <= k < z.len() ==> matches_zombie(#[trigger] r[ue.len() + k], nodes, root, z[k])
    &&& forall|k: int|
        0 <= k < ui.len() ==> matches_unused_import(
            #[trigger] r[ue.len() + z.len() + k],
            nodes,
            root,
            texts,
            ui[k].0,
            ui[k].1,
        )
}

impl Default for ReferenceGraph {
    /// The empty graph.
    fn default() -> (r: Self)
        ensures
            r.nodes@.len() == 0,
            r.export_index@.len() == 0,
            r.import_index@.len() == 0,
    {
        ReferenceGraph::new()
    }
}

// ---------------------------------------------------------------------
// The detection passes.
// ---------------------------------------------------------------------

/// The fixed reason text for an unused export of `name`.
pub open spec fn export_reason(name: Seq<char>) -> Seq<char> {
    "Export '"@ + name + "' has 0 references in the codebase"@
}

/// The fixed reason text for an unused import of `name` from `source`.
pub open spec fn import_reason(name: Seq<char>, source: Seq<char>) -> Seq<char> {
    "Import '"@ + name + "' from '"@ + source + "' is never used in this file"@
}

/// The local name an import binds: its alias where renamed, its
/// imported name otherwise.
pub open spec fn effective_name(im: ImportedSymbol) -> Seq<char> {
    match im.alias {
        Some(a) => a@,
        None => im.name@,
    }
}

/// Export `j` of node `i` is flagged: eligible (not a re-export, not
/// the wildcard, not a default export) and imported nowhere else.
pub open spec fn unused_export_flag(nodes: Seq<ReferenceNode>, i: int, j: int) -> bool {
    &&& 0 <= i < nodes.len()
    &&& 0 <= j < nodes[i].exports@.len()
    &&& !nodes[i].exports@[j].is_reexport
    &&& nodes[i].exports@[j].name@ != "*"@
    &&& !nodes[i].exports@[j].is_default
    &&& !export_used(nodes, nodes[i].file_path@, nodes[i].exports@[j].name@)
}

/// `unused_export_flag` over one pair value.
pub open spec fn export_pair_pred(nodes: Seq<ReferenceNode>) -> spec_fn((int, int)) -> bool {
    |p: (int, int)| unused_export_flag(nodes, p.0, p.1)
}

/// The flagged exports of node `i`, among its first `j` exports.
pub open spec fn export_pairs_partial(nodes: Seq<ReferenceNode>, i: int, j: int) -> Seq<(int, int)> {
    Seq::new(j as nat, |jj: int| (i, jj)).filter(export_pair_pred(nodes))
}

/// The flagged exports of the first `i` nodes, in traversal order.
pub open spec fn export_pairs_upto(nodes: Seq<ReferenceNode>, i: int) -> Seq<(int, int)>
    decreases i,
{
    if i <= 0 {
        Seq::<(int, int)>::empty()
    } else {
        export_pairs_upto(nodes, i - 1) + export_pairs_partial(
            nodes,
            i - 1,
            nodes[i - 1].exports@.len() as int,
        )
    }
}

/// The flagged exports of the whole graph, in traversal order.
pub open spec fn export_pairs(nodes: Seq<ReferenceNode>) -> Seq<(int, int)> {
    export_pairs_upto(nodes, nodes.len() as int)
}

/// `item` is exactly the finding for flagged export `j` of node `i`.
pub open spec fn matches_unused_export(
    item: DeadCodeItem,
    nodes: Seq<ReferenceNode>,
    root: Seq<char>,
    texts: Seq<(String, String)>,
    i: int,
    j: int,
) -> bool {
    let path = nodes[i].file_path@;
    let name = nodes[i].exports@[j].name@;
    &&& unused_export_flag(nodes, i, j)
    &&& item.file_path@ == path
    &&& item.relative_path@ == rel_display_of(path, root)
    &&& item.span == nodes[i].exports@[j].span
    &&& item.code_snippet@ == snippet_of(text_of(texts, path), nodes[i].exports@[j].span)
    &&& item.kind == DeadCodeKind::UnusedExport
    &&& item.name@ == name
    &&& item.reason@ == export_reason(name)
    &&& item.confidence == export_confidence(path, name)
    &&& match item.context {
        Some(ctx) => {
            &&& ctx.possibly_dynamic == dynamic_name(name)
            &&& ctx.in_test_file == test_file(path)
            &&& ctx.public_api == public_api(path, root)
            &&& ctx.partial_references@.len() == 0
            &&& ctx.doc_comment is None
        },
        None => false,
    }
}

/// Node `i` is flagged as a zombie: not an entry point, exporting
/// something, and imported by no file.
pub open spec fn zombie_flag(nodes: Seq<ReferenceNode>, root: Seq<char>, i: int) -> bool {
    &&& 0 <= i < nodes.len()
    &&& !likely_entry_point(nodes[i].file_path@, root)
    &&& nodes[i].exports@.len() > 0
    &&& !file_imported(nodes, nodes[i].file_path@)
}

/// The flagged nodes among the first `i`, in order.
pub open spec fn zombie_list_upto(nodes: Seq<ReferenceNode>, root: Seq<char>, i: int) -> Seq<int>
    decreases i,
{
    if i <= 0 {
        Seq::<int>::empty()
    } else {
        zombie_list_upto(nodes, root, i - 1) + (if zombie_flag(nodes, root, i - 1) {
            seq![i - 1]
        } else {
            Seq::<int>::empty()
        })
    }
}

/// The flagged nodes of the whole graph, in order.
pub open spec fn zombie_list(nodes: Seq<ReferenceNode>, root: Seq<char>) -> Seq<int> {
    zombie_list_upto(nodes, root, nodes.len() as int)
}

/// The whole-file span a zombie finding carries.
pub open spec fn whole_file_span() -> CodeSpan {
    CodeSpan { start: 1, end: 1, col_start: 0, col_end: 0 }
}

/// `item` is exactly the finding for flagged zombie node `i`.
pub open spec fn matches_zombie(
    item: DeadCodeItem,
    nodes: Seq<ReferenceNode>,
    root: Seq<char>,
    i: int,
) -> bool {
    let path = nodes[i].file_path@;
    let rel = rel_display_of(path, root);
    &&& zombie_flag(nodes, root, i)
    &&& item.file_path@ == path
    &&& item.relative_path@ == rel
    &&& item.span == whole_file_span()
    &&& item.code_snippet@ == "// Entire file: "@ + rel
    &&& item.kind == DeadCodeKind::ZombieFile
    &&& item.name@ == rel
    &&& item.reason@ == "File is never imported by any other file in the project"@
    &&& item.confidence == zombie_confidence(path)
    &&& match item.context {
        Some(ctx) => {
            &&& ctx.possibly_dynamic == true
            &&& ctx.in_test_file == test_file(path)
            &&& ctx.public_api == public_api(path, root)
            &&& ctx.partial_references@.len() == 0
            &&& ctx.doc_comment is None
        },
        None => false,
    }
}

/// Import `l` of node `i` is flagged: not a namespace import, and its
/// local name is referenced nowhere in the file.
pub open spec fn unused_import_flag(nodes: Seq<ReferenceNode>, i: int, l: int) -> bool {
    let eff = effective_name(nodes[i].imports@[l]);
    &&& 0 <= i < nodes.len()
    &&& 0 <= l < nodes[i].imports@.len()
    &&& !nodes[i].internal_refs@.map_values(|s: String| s@).contains(eff)
    &&& eff != "*"@
}

/// `unused_import_flag` over one pair value.
pub open spec fn import_pair_pred(nodes: Seq<ReferenceNode>) -> spec_fn((int, int)) -> bool {
    |p: (int, int)| unused_import_flag(nodes, p.0, p.1)
}

/// The flagged imports of node `i`, among its first `l` imports.
pub open spec fn import_pairs_partial(nodes: Seq<ReferenceNode>, i: int, l: int) -> Seq<(int, int)> {
    Seq::new(l as nat, |ll: int| (i, ll)).filter(import_pair_pred(nodes))
}

/// The flagged imports of the first `i` nodes, in traversal order.
pub open spec fn import_pairs_upto(nodes: Seq<ReferenceNode>, i: int) -> Seq<(int, int)>
    decreases i,
{
    if i <= 0 {
        Seq::<(int, int)>::empty()
    } else {
        import_pairs_upto(nodes, i - 1) + import_pairs_partial(
            nodes,
            i - 1,
            nodes[i - 1].imports@.len() as int,
        )
    }
}

/// The flagged imports of the whole graph, in traversal order.
pub open spec fn import_pairs(nodes: Seq<ReferenceNode>) -> Seq<(int, int)> {
    import_pairs_upto(nodes, nodes.len() as int)
}

/// `item` is exactly the finding for flagged import `l` of node `i`.
pub open spec fn matches_unused_import(
    item: DeadCodeItem,
    nodes: Seq<ReferenceNode>,
    root: Seq<char>,
    texts: Seq<(String, String)>,
    i: int,
    l: int,
) -> bool {
    let path = nodes[i].file_path@;
    let eff = effective_name(nodes[i].imports@[l]);
    &&& unused_import_flag(nodes, i, l)
    &&& item.file_path@ == path
    &&& item.relative_path@ == rel_display_of(path, root)
    &&& item.span == nodes[i].imports@[l].span
    &&& item.code_snippet@ == snippet_of(text_of(texts, path), nodes[i].imports@[l].span)
    &&& item.kind == DeadCodeKind::UnusedImport
    &&& item.name@ == eff
    &&& item.reason@ == import_reason(eff, nodes[i].imports@[l].source@)
    &&& item.confidence == import_confidence(nodes[i].imports@[l].is_type_only)
    &&& item.context is None
}

/// Filtering a sequence extended by one pair keeps the old front and
/// appends the pair exactly when it passes.
proof fn lemma_pair_filter_push(s: Seq<(int, int)>, pred: spec_fn((int, int)) -> bool, x: (int, int))
    ensures
        pred(x) ==> s.push(x).filter(pred) == s.filter(pred).push(x),
        !pred(x) ==> s.push(x).filter(pred) == s.filter(pred),
{
    reveal(Seq::filter);
    assert(s.push(x).drop_last() =~= s);
}

/// `a` followed by `b`, as a fresh string.
fn append_str(a: &String, b: &str) -> (r: String)
    ensures
        r@ == a@ + b@,
{
    let mut r = a.clone();
    r.append(b);
    r
}

} // verus!
