//! The scan pipeline: configuration, graph assembly over analyzed
//! fact sheets, detection, and the report totals.
//!
//! Walking the tree, reading files and parsing them happen outside;
//! this module takes the resulting fact sheets and file texts and
//! produces the report.

use vstd::prelude::*;
use vstd::string::StringExecFns;
use crate::graph::{detection_result, export_pairs, import_pairs, zombie_list, ReferenceGraph,
    node_upsert, export_pairs_upto, export_pairs_partial, import_pairs_upto,
    import_pairs_partial, zombie_list_upto};
use crate::text::FileTexts;
use crate::types::{
    new_string, DeadCodeItem, ReferenceNode, ScanOutput, ScanResult, ScanResultItem, ScanSummary,
    kind_label,
};
use crate::strutil::{dec_of, u64_to_string};

verus! {

/// How many facts one fact sheet holds: its exports and imports.
pub open spec fn node_facts(n: ReferenceNode) -> nat {
    n.exports@.len() + n.imports@.len()
}

/// How many facts a list of fact sheets holds.
pub open spec fn total_facts(nodes: Seq<ReferenceNode>) -> nat
    decreases nodes.len(),
{
    if nodes.len() == 0 {
        0
    } else {
        total_facts(nodes.drop_last()) + node_facts(nodes.last())
    }
}

proof fn lemma_total_facts_take(nodes: Seq<ReferenceNode>, i: int)
    requires
        0 <= i <= nodes.len(),
    ensures
        total_facts(nodes.take(i)) <= total_facts(nodes),
    decreases nodes.len() - i,
{
    if i == nodes.len() {
        assert(nodes.take(i) =~= nodes);
    } else {
        lemma_total_facts_take(nodes, i + 1);
        assert(nodes.take(i + 1).drop_last() =~= nodes.take(i));
        assert(nodes.take(i + 1).last() == nodes[i]);
    }
}

/// The node list of a graph filled from `nodes` in order.
pub open spec fn build_nodes(nodes: Seq<ReferenceNode>) -> Seq<ReferenceNode>
    decreases nodes.len(),
{
    if nodes.len() == 0 {
        Seq::<ReferenceNode>::empty()
    } else {
        node_upsert(build_nodes(nodes.drop_last()), nodes.last())
    }
}

proof fn lemma_total_facts_single(n: ReferenceNode)
    ensures
        total_facts(seq![n]) == node_facts(n),
{
    assert(seq![n].drop_last() =~= Seq::<ReferenceNode>::empty());
    assert(total_facts(Seq::<ReferenceNode>::empty()) == 0);
}

proof fn lemma_upsert_bounds(ns: Seq<ReferenceNode>, nd: ReferenceNode)
    ensures
        node_upsert(ns, nd).len() <= ns.len() + 1,
        total_facts(node_upsert(ns, nd)) <= total_facts(ns) + node_facts(nd),
    decreases ns.len(),
{
    if ns.len() == 0 {
        lemma_total_facts_single(nd);
    } else if crate::paths::same_path(ns[0].file_path@, nd.file_path@) {
        lemma_total_facts_single(nd);
        lemma_total_facts_single(ns[0]);
        lemma_total_facts_concat(seq![nd], ns.drop_first());
        lemma_total_facts_concat(seq![ns[0]], ns.drop_first());
        assert(ns =~= seq![ns[0]] + ns.drop_first());
    } else {
        lemma_upsert_bounds(ns.drop_first(), nd);
        lemma_total_facts_single(ns[0]);
        lemma_total_facts_concat(seq![ns[0]], node_upsert(ns.drop_first(), nd));
        lemma_total_facts_concat(seq![ns[0]], ns.drop_first());
        assert(ns =~= seq![ns[0]] + ns.drop_first());
    }
}

proof fn lemma_total_facts_concat(a: Seq<ReferenceNode>, b: Seq<ReferenceNode>)
    ensures
        total_facts(a + b) == total_facts(a) + total_facts(b),
    decreases b.len(),
{
    if b.len() == 0 {
        assert(a + b =~= a);
    } else {
        lemma_total_facts_concat(a, b.drop_last());
        assert((a + b).drop_last() =~= a + b.drop_last());
        assert((a + b).last() == b.last());
    }
}

proof fn lemma_build_nodes_bounds(nodes: Seq<ReferenceNode>)
    ensures
        build_nodes(nodes).len() <= nodes.len(),
        total_facts(build_nodes(nodes)) <= total_facts(nodes),
    decreases nodes.len(),
{
    if nodes.len() > 0 {
        lemma_build_nodes_bounds(nodes.drop_last());
        lemma_upsert_bounds(build_nodes(nodes.drop_last()), nodes.last());
    }
}

proof fn lemma_export_pairs_len(nodes: Seq<ReferenceNode>, i: int)
    requires
        0 <= i <= nodes.len(),
    ensures
        export_pairs_upto(nodes, i).len() <= total_facts(nodes.take(i)),
    decreases i,
{
    if i > 0 {
        lemma_export_pairs_len(nodes, i - 1);
        let m = nodes[i - 1].exports@.len() as int;
        Seq::new(m as nat, |jj: int| (i - 1, jj)).lemma_filter_len(
            crate::graph::export_pair_pred(nodes),
        );
        assert(export_pairs_partial(nodes, i - 1, m).len() <= m as nat);
        assert(nodes.take(i).drop_last() =~= nodes.take(i - 1));
        assert(nodes.take(i).last() == nodes[i - 1]);
    }
}

proof fn lemma_import_pairs_len(nodes: Seq<ReferenceNode>, i: int)
    requires
        0 <= i <= nodes.len(),
    ensures
        import_pairs_upto(nodes, i).len() <= total_facts(nodes.take(i)),
    decreases i,
{
    if i > 0 {
        lemma_import_pairs_len(nodes, i - 1);
        let m = nodes[i - 1].imports@.len() as int;
        Seq::new(m as nat, |ll: int| (i - 1, ll)).lemma_filter_len(
            crate::graph::import_pair_pred(nodes),
        );
        assert(import_pairs_partial(nodes, i - 1, m).len() <= m as nat);
        assert(nodes.take(i).drop_last() =~= nodes.take(i - 1));
        assert(nodes.take(i).last() == nodes[i - 1]);
    }
}

proof fn lemma_zombie_list_len(nodes: Seq<ReferenceNode>, root: Seq<char>, i: int)
    requires
        0 <= i,
    ensures
        zombie_list_upto(nodes, root, i).len() <= i,
    decreases i,
{
    if i > 0 {
        lemma_zombie_list_len(nodes, root, i - 1);
    }
}

/// How many findings detection can produce over `nodes`: at most one
/// per export, one per file, one per import.
pub proof fn lemma_detection_len_bound(nodes: Seq<ReferenceNode>, root: Seq<char>)
    ensures
        export_pairs(nodes).len() + zombie_list(nodes, root).len() + import_pairs(nodes).len()
            <= total_facts(nodes) + nodes.len() + total_facts(nodes),
{
    lemma_export_pairs_len(nodes, nodes.len() as int);
    lemma_import_pairs_len(nodes, nodes.len() as int);
    lemma_zombie_list_len(nodes, root, nodes.len() as int);
    assert(nodes.take(nodes.len() as int) =~= nodes);
}

/// The summary after counting `items` one by one.
pub open spec fn summary_fold(items: Seq<DeadCodeItem>) -> ScanSummary
    decreases items.len(),
{
    if items.len() == 0 {
        ScanSummary::zero()
    } else {
        summary_fold(items.drop_last()).bumped(items.last().kind, items.last().confidence)
    }
}

/// Folds the findings into counter totals.
pub fn summarize(items: &Vec<DeadCodeItem>) -> (r: ScanSummary)
    requires
        items@.len() <= u32::MAX,
    ensures
        r == summary_fold(items@),
        r.is_wf(),
        r.total_issues == items@.len(),
        r.high_confidence_issues + r.low_confidence_issues == r.total_issues,
{
    let mut summary = ScanSummary::new();
    let mut i: usize = 0;
    proof {
        assert(items@.take(0) =~= Seq::<DeadCodeItem>::empty());
    }
    while i < items.len()
        invariant
            items@.len() <= u32::MAX,
            i <= items@.len(),
            summary == summary_fold(items@.take(i as int)),
            summary.is_wf(),
            summary.total_issues == i,
        decreases items@.len() - i,
    {
        summary.add(&items[i]);
        proof {
            assert(items@.take(i + 1).drop_last() =~= items@.take(i as int));
            assert(items@.take(i + 1).last() == items@[i as int]);
        }
        i = i + 1;
    }
    proof {
        assert(items@.take(items@.len() as int) =~= items@);
    }
    summary
}

/// Relies on the system clock: seconds since the epoch, whatever the
/// clock reads; zero where the clock lies before the epoch.
#[verifier::external_body]
fn unix_time_secs() -> u64 {
    match std::time::SystemTime::now().duration_since(std::time::UNIX_EPOCH) {
        Ok(d) => d.as_secs(),
        Err(_) => 0,
    }
}

/// The moment of the call as a decimal string of epoch seconds.
pub fn chrono_lite_now() -> (r: String)
    ensures
        exists|t: nat| r@ == dec_of(t),
{
    let secs = unix_time_secs();
    let r = u64_to_string(secs);
    proof {
        assert(r@ == dec_of(secs as nat));
    }
    r
}

/// The main scanner, holding the scan configuration.
pub struct Scanner {
    /// Root directory of the scan.
    pub root: String,
    /// File extensions to scan.
    pub extensions: Vec<String>,
    /// Glob patterns to ignore.
    pub ignore_patterns: Vec<String>,
    /// Whether test files take part.
    pub include_tests: bool,
    /// Minimum confidence for reporting, in hundredths.
    pub confidence_threshold: u32,
}

impl Scanner {
    /// A scanner over `root` with the stock configuration.
    pub fn new(root: &str) -> (r: Self)
        ensures
            r.root@ == root@,
            r.extensions@.map_values(|s: String| s@) == crate::types::default_extensions(),
            r.ignore_patterns@.map_values(|s: String| s@) == seq![
                "**/node_modules/**"@,
                "**/dist/**"@,
                "**/build/**"@,
                "**/.git/**"@,
            ],
            !r.include_tests,
            r.confidence_threshold == 50,
    {
        let mut extensions: Vec<String> = Vec::new();
        extensions.push(new_string("ts"));
        extensions.push(new_string("tsx"));
        extensions.push(new_string("js"));
        extensions.push(new_string("jsx"));
        extensions.push(new_string("mjs"));
        extensions.push(new_string("cjs"));
        let mut ignore_patterns: Vec<String> = Vec::new();
        ignore_patterns.push(new_string("**/node_modules/**"));
        ignore_patterns.push(new_string("**/dist/**"));
        ignore_patterns.push(new_string("**/build/**"));
        ignore_patterns.push(new_string("**/.git/**"));
        proof {
            assert(extensions@.map_values(|s: String| s@)
                =~= crate::types::default_extensions());
            assert(ignore_patterns@.map_values(|s: String| s@) =~= seq![
                "**/node_modules/**"@,
                "**/dist/**"@,
                "**/build/**"@,
                "**/.git/**"@,
            ]);
        }
        Scanner {
            root: new_string(root),
            extensions,
            ignore_patterns,
            include_tests: false,
            confidence_threshold: 50,
        }
    }

    /// Replaces the extension allow-list, unless the new list is
    /// empty.
    pub fn with_extensions(self, extensions: Vec<String>) -> (r: Self)
        ensures
            extensions@.len() > 0 ==> r == (Self { extensions, ..self }),
            extensions@.len() == 0 ==> r == self,
    {
        if extensions.len() > 0 {
            Scanner { extensions, ..self }
        } else {
            self
        }
    }

    /// Replaces the ignore patterns, unless the new list is empty.
    pub fn with_ignore_patterns(self, patterns: Vec<String>) -> (r: Self)
        ensures
            patterns@.len() > 0 ==> r == (Self { ignore_patterns: patterns, ..self }),
            patterns@.len() == 0 ==> r == self,
    {
        if patterns.len() > 0 {
            Scanner { ignore_patterns: patterns, ..self }
        } else {
            self
        }
    }

    /// Sets whether test files take part.
    pub fn include_tests(self, enabled: bool) -> (r: Self)
        ensures
            r == (Self { include_tests: enabled, ..self }),
    {
        Scanner { include_tests: enabled, ..self }
    }

    /// Sets the minimum confidence threshold, in hundredths.
    pub fn with_confidence_threshold(self, threshold: u32) -> (r: Self)
        ensures
            r == (Self { confidence_threshold: threshold, ..self }),
    {
        Scanner { confidence_threshold: threshold, ..self }
    }

    /// Assembles the report over analyzed fact sheets: the sheets are
    /// folded into a reference graph, the detection passes run, and
    /// the findings are counted. `texts` supplies file contents for
    /// snippets; `total_files_scanned` and `scan_duration` come from
    /// the caller who walked and timed.
    pub fn scan_nodes(
        &self,
        nodes: Vec<ReferenceNode>,
        texts: &FileTexts,
        total_files_scanned: u32,
        scan_duration: u64,
    ) -> (r: ScanOutput)
        requires
            nodes@.len() + 2 * total_facts(nodes@) <= u32::MAX,
        ensures
            detection_result(r.dead_code@, build_nodes(nodes@), self.root@, texts.entries@),
            r.version@ == "0.1.0"@,
            r.root@ == self.root@,
            exists|t: nat| r.timestamp@ == dec_of(t),
            r.total_files_scanned == total_files_scanned,
            r.total_lines == total_facts(nodes@),
            r.scan_duration == scan_duration,
            r.summary == summary_fold(r.dead_code@),
            r.summary.total_issues == r.dead_code@.len(),
            r.summary.high_confidence_issues + r.summary.low_confidence_issues
                == r.summary.total_issues,
    {
        let ghost orig = nodes@;

        // Count the gathered facts.
        let mut total_lines: u64 = 0;
        let mut i: usize = 0;
        proof {
            assert(orig.take(0) =~= Seq::<ReferenceNode>::empty());
        }
        while i < nodes.len()
            invariant
                nodes@ == orig,
                orig.len() + 2 * total_facts(orig) <= u32::MAX,
                i <= orig.len(),
                total_lines == total_facts(orig.take(i as int)),
            decreases orig.len() - i,
        {
            proof {
                lemma_total_facts_take(orig, i + 1);
                assert(orig.take(i + 1).drop_last() =~= orig.take(i as int));
                assert(orig.take(i + 1).last() == orig[i as int]);
            }
            let lines = nodes[i].exports.len() + nodes[i].imports.len();
            total_lines = total_lines + (lines as u64);
            i = i + 1;
        }
        proof {
            assert(orig.take(orig.len() as int) =~= orig);
        }

        // Fold the fact sheets into the graph.
        let mut graph = ReferenceGraph::new();
        let mut nodes = nodes;
        let mut taken: usize = 0;
        proof {
            assert(graph.nodes@ =~= build_nodes(orig.take(0)));
        }
        while nodes.len() > 0
            invariant
                orig.len() <= usize::MAX,
                taken + nodes@.len() == orig.len(),
                nodes@ == orig.skip(taken as int),
                graph.nodes@ == build_nodes(orig.take(taken as int)),
            decreases nodes@.len(),
        {
            let node = nodes.remove(0);
            proof {
                assert(node == orig[taken as int]);
                assert(orig.take(taken + 1).drop_last() =~= orig.take(taken as int));
                assert(orig.take(taken + 1).last() == orig[taken as int]);
                assert(nodes@ =~= orig.skip(taken + 1));
            }
            graph.add_node(node);
            taken = taken + 1;
        }
        proof {
            assert(orig.take(orig.len() as int) =~= orig);
        }

        // Detect and count.
        let dead_code = graph.find_dead_code(self.root.as_str(), self.confidence_threshold, texts);
        proof {
            lemma_detection_len_bound(build_nodes(orig), self.root@);
            lemma_build_nodes_bounds(orig);
        }
        let summary = summarize(&dead_code);

        ScanOutput {
            version: new_string("0.1.0"),
            root: self.root.clone(),
            timestamp: chrono_lite_now(),
            dead_code,
            total_files_scanned,
            total_lines,
            scan_duration,
            summary,
        }
    }
}

/// Flattens a report into the embedding-facing result shape, one item
/// per finding, each kind shown by its serialized name.
pub fn scan_result_of(output: &ScanOutput) -> (r: ScanResult)
    ensures
        r.items@.len() == output.dead_code@.len(),
        forall|k: int|
            0 <= k < r.items@.len() ==> {
                let item = #[trigger] r.items@[k];
                let src = output.dead_code@[k];
                &&& item.file_path@ == src.file_path@
                &&& item.line_start == src.span.start
                &&& item.line_end == src.span.end
                &&& item.code_snippet@ == src.code_snippet@
                &&& item.kind@ == kind_label(src.kind)
                &&& item.name@ == src.name@
                &&& item.reason@ == src.reason@
                &&& item.confidence == src.confidence
            },
        r.total_files_scanned == output.total_files_scanned,
        r.scan_duration_ms == output.scan_duration,
{
    let mut items: Vec<ScanResultItem> = Vec::new();
    let n = output.dead_code.len();
    let mut k: usize = 0;
    while k < n
        invariant
            n == output.dead_code@.len(),
            k <= n,
            items@.len() == k,
            forall|t: int|
                0 <= t < k ==> {
                    let item = #[trigger] items@[t];
                    let src = output.dead_code@[t];
                    &&& item.file_path@ == src.file_path@
                    &&& item.line_start == src.span.start
                    &&& item.line_end == src.span.end
                    &&& item.code_snippet@ == src.code_snippet@
                    &&& item.kind@ == kind_label(src.kind)
                    &&& item.name@ == src.name@
                    &&& item.reason@ == src.reason@
                    &&& item.confidence == src.confidence
                },
        decreases n - k,
    {
        let src = &output.dead_code[k];
        items.push(
            ScanResultItem {
                file_path: src.file_path.clone(),
                line_start: src.span.start,
                line_end: src.span.end,
                code_snippet: src.code_snippet.clone(),
                kind: new_string(src.kind.as_str()),
                name: src.name.clone(),
                reason: src.reason.clone(),
                confidence: src.confidence,
            },
        );
        k = k + 1;
    }
    ScanResult {
        items,
        total_files_scanned: output.total_files_scanned,
        scan_duration_ms: output.scan_duration,
    }
}

} // verus!
