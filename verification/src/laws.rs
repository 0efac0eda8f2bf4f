//! Properties of the detection passes, proved from the contracts in
//! `graph`: unused exports are reported once and only once, used
//! exports are never reported, and import resolution depends on
//! nothing but the set of known files.

use vstd::prelude::*;
use crate::paths::{norm_of, same_path, join_of, parent_of};
use crate::types::{DeadCodeItem, DeadCodeKind, ReferenceNode};
use crate::graph::{
    detection_result, export_pairs, export_pairs_partial, export_pairs_upto, export_pair_pred,
    unused_export_flag, matches_unused_export, export_confidence, export_used, use_witness,
    key_set, resolve_of, source_is_relative, first_hit, probe_list, import_pairs, zombie_list,
    matches_zombie, matches_unused_import,
};

verus! {

proof fn lemma_export_pairs_partial_elems(nodes: Seq<ReferenceNode>, i: int, j0: int)
    requires
        0 <= j0,
    ensures
        forall|k: int|
            0 <= k < export_pairs_partial(nodes, i, j0).len() ==> {
                let p = #[trigger] export_pairs_partial(nodes, i, j0)[k];
                p.0 == i && 0 <= p.1 < j0 && unused_export_flag(nodes, i, p.1)
            },
        forall|j: int|
            0 <= j < j0 && unused_export_flag(nodes, i, j) ==> export_pairs_partial(
                nodes,
                i,
                j0,
            ).contains((i, j)),
        forall|k1: int, k2: int|
            0 <= k1 < k2 < export_pairs_partial(nodes, i, j0).len()
                ==> (#[trigger] export_pairs_partial(nodes, i, j0)[k1]).1 < (
            #[trigger] export_pairs_partial(nodes, i, j0)[k2]).1,
    decreases j0,
{
    reveal(Seq::filter);
    if j0 == 0 {
        assert(Seq::new(0, |jj: int| (i, jj)) =~= Seq::<(int, int)>::empty());
    } else {
        lemma_export_pairs_partial_elems(nodes, i, j0 - 1);
        let prev = export_pairs_partial(nodes, i, j0 - 1);
        let cur = export_pairs_partial(nodes, i, j0);
        assert(Seq::new(j0 as nat, |jj: int| (i, jj)) =~= Seq::new(
            (j0 - 1) as nat,
            |jj: int| (i, jj),
        ).push((i, j0 - 1)));
        assert(Seq::new((j0 - 1) as nat, |jj: int| (i, jj)).push((i, j0 - 1)).drop_last()
            =~= Seq::new((j0 - 1) as nat, |jj: int| (i, jj)));
        if unused_export_flag(nodes, i, j0 - 1) {
            assert(cur =~= prev.push((i, j0 - 1)));
            assert(forall|j: int|
                0 <= j < j0 - 1 && unused_export_flag(nodes, i, j) ==> prev.contains((i, j)));
            assert forall|j: int|
                0 <= j < j0 && unused_export_flag(nodes, i, j) implies cur.contains((i, j)) by {
                if j < j0 - 1 {
                    let w = choose|w: int| 0 <= w < prev.len() && prev[w] == (i, j);
                    assert(cur[w] == (i, j));
                } else {
                    assert(cur[cur.len() - 1] == (i, j));
                }
            };
        } else {
            assert(cur =~= prev);
            assert forall|j: int|
                0 <= j < j0 && unused_export_flag(nodes, i, j) implies cur.contains((i, j)) by {
                assert(j != j0 - 1);
            };
        }
    }
}

proof fn lemma_export_pairs_upto_elems(nodes: Seq<ReferenceNode>, n: int)
    requires
        0 <= n,
    ensures
        forall|k: int|
            0 <= k < export_pairs_upto(nodes, n).len() ==> {
                let p = #[trigger] export_pairs_upto(nodes, n)[k];
                0 <= p.0 < n && unused_export_flag(nodes, p.0, p.1)
            },
        forall|i: int, j: int|
            0 <= i < n && unused_export_flag(nodes, i, j) ==> export_pairs_upto(
                nodes,
                n,
            ).contains((i, j)),
        forall|k1: int, k2: int|
            0 <= k1 < k2 < export_pairs_upto(nodes, n).len() ==> (
            #[trigger] export_pairs_upto(nodes, n)[k1]) != (#[trigger] export_pairs_upto(
                nodes,
                n,
            )[k2]),
    decreases n,
{
    if n > 0 {
        lemma_export_pairs_upto_elems(nodes, n - 1);
        let prev = export_pairs_upto(nodes, n - 1);
        let block = export_pairs_partial(nodes, n - 1, nodes[n - 1].exports@.len() as int);
        let cur = export_pairs_upto(nodes, n);
        lemma_export_pairs_partial_elems(nodes, n - 1, nodes[n - 1].exports@.len() as int);
        assert(cur == prev + block);
        assert forall|i: int, j: int|
            0 <= i < n && unused_export_flag(nodes, i, j) implies cur.contains((i, j)) by {
            if i < n - 1 {
                assert(prev.contains((i, j)));
                let w = choose|w: int| 0 <= w < prev.len() && prev[w] == (i, j);
                assert(cur[w] == (i, j));
            } else {
                assert(block.contains((i, j)));
                let w = choose|w: int| 0 <= w < block.len() && block[w] == (i, j);
                assert(cur[prev.len() + w] == (i, j));
            }
        };
        assert forall|k1: int, k2: int|
            0 <= k1 < k2 < cur.len() implies (#[trigger] cur[k1]) != (#[trigger] cur[k2]) by {
            if k1 < prev.len() && k2 < prev.len() {
                assert(cur[k1] == prev[k1] && cur[k2] == prev[k2]);
            } else if k1 < prev.len() && k2 >= prev.len() {
                assert(cur[k1] == prev[k1]);
                assert(cur[k2] == block[k2 - prev.len()]);
                assert(prev[k1].0 < n - 1 && block[k2 - prev.len()].0 == n - 1);
            } else {
                assert(cur[k1] == block[k1 - prev.len()]);
                assert(cur[k2] == block[k2 - prev.len()]);
                assert(block[k1 - prev.len()].1 < block[k2 - prev.len()].1);
            }
        };
    }
}

/// Whether a symbol named `name`, exported by `file`, is imported
/// somewhere depends only on where the paths lead, not on how `file`
/// is written.
pub proof fn lemma_export_used_same_path(
    nodes: Seq<ReferenceNode>,
    a: Seq<char>,
    b: Seq<char>,
    name: Seq<char>,
)
    requires
        same_path(a, b),
    ensures
        export_used(nodes, a, name) == export_used(nodes, b, name),
{
    assert forall|k: int, l: int|
        use_witness(nodes, a, name, k, l) implies use_witness(nodes, b, name, k, l) by {
        assert(norm_of(a) == norm_of(b));
    };
    assert forall|k: int, l: int|
        use_witness(nodes, b, name, k, l) implies use_witness(nodes, a, name, k, l) by {
        assert(norm_of(a) == norm_of(b));
    };
    if export_used(nodes, a, name) {
        let (k, l) = choose|k: int, l: int| use_witness(nodes, a, name, k, l);
        assert(use_witness(nodes, b, name, k, l));
    }
    if export_used(nodes, b, name) {
        let (k, l) = choose|k: int, l: int| use_witness(nodes, b, name, k, l);
        assert(use_witness(nodes, a, name, k, l));
    }
}

/// Law: an eligible export that no other file imports is reported as
/// an `UnusedExport` finding, with confidence between one tenth and
/// nine tenths.
pub proof fn lemma_unused_export_reported(
    r: Seq<DeadCodeItem>,
    nodes: Seq<ReferenceNode>,
    root: Seq<char>,
    texts: Seq<(String, String)>,
    i: int,
    j: int,
)
    requires
        detection_result(r, nodes, root, texts),
        unused_export_flag(nodes, i, j),
    ensures
        exists|k: int|
            0 <= k < r.len() && matches_unused_export(#[trigger] r[k], nodes, root, texts, i, j)
                && 10 <= r[k].confidence <= 90,
{
    let ue = export_pairs(nodes);
    lemma_export_pairs_upto_elems(nodes, nodes.len() as int);
    assert(ue.contains((i, j)));
    let k = choose|k: int| 0 <= k < ue.len() && ue[k] == (i, j);
    assert(matches_unused_export(r[k], nodes, root, texts, i, j));
    assert(10 <= export_confidence(nodes[i].file_path@, nodes[i].exports@[j].name@) <= 90);
}

/// Law: for one unused export of a file — its name exported once
/// there, the file listed once — the report holds exactly one
/// `UnusedExport` finding naming that symbol.
pub proof fn lemma_unused_export_reported_once(
    r: Seq<DeadCodeItem>,
    nodes: Seq<ReferenceNode>,
    root: Seq<char>,
    texts: Seq<(String, String)>,
    i: int,
    j: int,
)
    requires
        detection_result(r, nodes, root, texts),
        unused_export_flag(nodes, i, j),
        forall|j2: int|
            0 <= j2 < nodes[i].exports@.len() && j2 != j ==> (
            #[trigger] nodes[i].exports@[j2].name@) != nodes[i].exports@[j].name@,
        forall|i2: int|
            0 <= i2 < nodes.len() && i2 != i ==> !same_path(
                #[trigger] nodes[i2].file_path@,
                nodes[i].file_path@,
            ),
    ensures
        exists|k: int|
            0 <= k < r.len() && matches_unused_export(#[trigger] r[k], nodes, root, texts, i, j),
        forall|k1: int, k2: int|
            0 <= k1 < k2 < r.len() && is_export_finding_for(
                #[trigger] r[k1],
                nodes[i].file_path@,
                nodes[i].exports@[j].name@,
            ) && is_export_finding_for(
                #[trigger] r[k2],
                nodes[i].file_path@,
                nodes[i].exports@[j].name@,
            ) ==> false,
{
    lemma_unused_export_reported(r, nodes, root, texts, i, j);
    let ue = export_pairs(nodes);
    let z = zombie_list(nodes, root);
    let ui = import_pairs(nodes);
    lemma_export_pairs_upto_elems(nodes, nodes.len() as int);
    let path = nodes[i].file_path@;
    let name = nodes[i].exports@[j].name@;
    assert forall|k: int|
        0 <= k < r.len() && is_export_finding_for(#[trigger] r[k], path, name) implies 0 <= k
        < ue.len() && ue[k] == (i, j) by {
        if k < ue.len() {
            let p = ue[k];
            assert(matches_unused_export(r[k], nodes, root, texts, p.0, p.1));
            assert(same_path(nodes[p.0].file_path@, path));
            assert(p.0 == i);
            assert(nodes[i].exports@[p.1].name@ == name);
            assert(p.1 == j);
        } else if k < ue.len() + z.len() {
            let kz = k - ue.len();
            assert(matches_zombie(r[ue.len() + kz], nodes, root, z[kz]));
            assert(r[k].kind == DeadCodeKind::ZombieFile);
        } else {
            let ki = k - ue.len() - z.len();
            assert(matches_unused_import(
                r[ue.len() + z.len() + ki],
                nodes,
                root,
                texts,
                ui[ki].0,
                ui[ki].1,
            ));
            assert(r[k].kind == DeadCodeKind::UnusedImport);
        }
    };
}

/// A finding that flags the export `name` of the file at `path`.
pub open spec fn is_export_finding_for(item: DeadCodeItem, path: Seq<char>, name: Seq<char>) -> bool {
    &&& item.kind == DeadCodeKind::UnusedExport
    &&& same_path(item.file_path@, path)
    &&& item.name@ == name
}

/// Law: an export that some other file imports — by matching name and
/// resolved source file — is never reported as unused.
pub proof fn lemma_used_export_not_reported(
    r: Seq<DeadCodeItem>,
    nodes: Seq<ReferenceNode>,
    root: Seq<char>,
    texts: Seq<(String, String)>,
    file: Seq<char>,
    name: Seq<char>,
)
    requires
        detection_result(r, nodes, root, texts),
        export_used(nodes, file, name),
    ensures
        forall|k: int| 0 <= k < r.len() ==> !is_export_finding_for(#[trigger] r[k], file, name),
{
    let ue = export_pairs(nodes);
    let z = zombie_list(nodes, root);
    let ui = import_pairs(nodes);
    lemma_export_pairs_upto_elems(nodes, nodes.len() as int);
    assert forall|k: int|
        0 <= k < r.len() implies !is_export_finding_for(#[trigger] r[k], file, name) by {
        if k < ue.len() {
            let p = ue[k];
            assert(matches_unused_export(r[k], nodes, root, texts, p.0, p.1));
            if is_export_finding_for(r[k], file, name) {
                assert(same_path(nodes[p.0].file_path@, file));
                lemma_export_used_same_path(nodes, nodes[p.0].file_path@, file, name);
                assert(!export_used(nodes, file, name));
            }
        } else if k < ue.len() + z.len() {
            let kz = k - ue.len();
            assert(matches_zombie(r[ue.len() + kz], nodes, root, z[kz]));
            assert(r[k].kind == DeadCodeKind::ZombieFile);
        } else {
            let ki = k - ue.len() - z.len();
            assert(matches_unused_import(
                r[ue.len() + z.len() + ki],
                nodes,
                root,
                texts,
                ui[ki].0,
                ui[ki].1,
            ));
            assert(r[k].kind == DeadCodeKind::UnusedImport);
        }
    };
}

/// Law: what an import resolves to depends only on the set of files
/// the graph knows, not on the order they were added in, and resolving
/// is deterministic.
pub proof fn lemma_resolution_order_independent(
    a: Seq<ReferenceNode>,
    b: Seq<ReferenceNode>,
    from: Seq<char>,
    source: Seq<char>,
)
    requires
        key_set(a) == key_set(b),
    ensures
        resolve_of(key_set(a), from, source) == resolve_of(key_set(b), from, source),
{
}

/// Law: where the literally named file exists, resolution returns it,
/// preferring it over every suffixed variant.
pub proof fn lemma_resolution_prefers_literal(
    keys: Set<Seq<char>>,
    from: Seq<char>,
    source: Seq<char>,
)
    requires
        source_is_relative(source),
        parent_of(norm_of(from)) is Some,
        keys.contains(norm_of(join_of(parent_of(norm_of(from)).unwrap(), source))),
    ensures
        resolve_of(keys, from, source) == Some(
            norm_of(join_of(parent_of(norm_of(from)).unwrap(), source)),
        ),
{
    let base = norm_of(join_of(parent_of(norm_of(from)).unwrap(), source));
    assert(probe_list(base)[0] == base);
    assert(first_hit(keys, probe_list(base)) == Some(base));
}

} // verus!
