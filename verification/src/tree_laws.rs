//! What holds of the assembled tree as a whole: which nodes it has, and that
//! it does not depend on the order in which the entries arrive.

use vstd::prelude::*;
use crate::paths::normal_components;
use crate::text::{lemma_lex_total, lex_lt};
use crate::tree_model::{
    build_conflicts, build_spec, fresh_node, insert_conflict, insert_spec,
    lemma_before_all_absent, lemma_insert_at_existing, lemma_insert_wf,
    lemma_lookup_after_insert, lemma_lookup_at, lemma_lookup_result, lemma_sorted_tail, level_wf,
    lookup, merged_node, names_sorted, node_wf, EntryModel, NodeModel, PathModel,
};

verus! {

/// `p` is a beginning of `q`, and shorter.
pub open spec fn is_proper_prefix(p: PathModel, q: PathModel) -> bool {
    p.len() < q.len() && q.take(p.len() as int) == p
}

/// The node found by following `path` down from `level`: whether it is a
/// directory, or nothing if there is no such node.
pub open spec fn node_at(level: Seq<NodeModel>, path: PathModel) -> Option<bool>
    decreases path.len(),
{
    if path.len() == 0 {
        None
    } else {
        match lookup(level, path[0]) {
            None => None,
            Some(n) => if path.len() == 1 {
                Some(n.is_dir)
            } else {
                node_at(n.children, path.drop_first())
            },
        }
    }
}

/// No entry that names a file is a proper beginning of another entry's path.
/// These are the inputs on which no insertion is ever skipped, whatever the
/// order.
pub open spec fn conflict_free(entries: Seq<EntryModel>) -> bool {
    forall|i: int, j: int|
        0 <= i < entries.len() && 0 <= j < entries.len() && !(#[trigger] entries[i]).1
            && entries[i].0.len() > 0 ==> !is_proper_prefix(
            entries[i].0,
            (#[trigger] entries[j]).0,
        )
}

/// Some entry's path continues below `p`.
pub open spec fn has_extension(entries: Seq<EntryModel>, p: PathModel) -> bool {
    exists|e: EntryModel| #[trigger] entries.contains(e) && is_proper_prefix(p, e.0)
}

/// What the entries say of the path `p`: a directory if an entry continues
/// below it or names it as a directory, a file if entries name it only as a
/// file, and nothing if no entry reaches it.
pub open spec fn expected_kind(entries: Seq<EntryModel>, p: PathModel) -> Option<bool> {
    if has_extension(entries, p) || entries.contains((p, true)) {
        Some(true)
    } else if entries.contains((p, false)) {
        Some(false)
    } else {
        None
    }
}

/// The two lists hold the same entries, in whatever order and number.
pub open spec fn same_entries(a: Seq<EntryModel>, b: Seq<EntryModel>) -> bool {
    forall|e: EntryModel| #[trigger] a.contains(e) <==> b.contains(e)
}

/// The entries that a list of `(path text, is directory)` pairs stands for:
/// each path by its normal components.
pub open spec fn path_entries(paths: Seq<(Seq<char>, bool)>) -> Seq<EntryModel> {
    Seq::new(paths.len(), |i: int| (normal_components(paths[i].0), paths[i].1))
}

/// An insertion that is skipped leaves the tree as it was: a path that would
/// pass through an existing file changes nothing.
pub proof fn law_conflict_changes_nothing(level: Seq<NodeModel>, comps: PathModel, is_dir: bool)
    requires
        level_wf(level),
        insert_conflict(level, comps) is Some,
    ensures
        insert_spec(level, comps, is_dir) == level,
    decreases comps.len(),
{
    lemma_lookup_result(level, comps[0]);
    let n = lookup(level, comps[0])->0;
    let k = choose|k: int| 0 <= k < level.len() && level[k] == n;
    lemma_insert_at_existing(level, k, comps, is_dir);
    let rest = comps.drop_first();
    assert(node_wf(level[k]));
    if n.is_dir {
        law_conflict_changes_nothing(n.children, rest, is_dir);
    }
    assert(merged_node(n, rest, is_dir) == n);
    assert(level.update(k, n) =~= level);
}

/// An entry for a path that is already in the tree, naming it as a file,
/// changes nothing: a node that is a directory stays one.
pub proof fn law_file_entry_changes_nothing(level: Seq<NodeModel>, comps: PathModel)
    requires
        level_wf(level),
        node_at(level, comps) is Some,
    ensures
        insert_spec(level, comps, false) == level,
    decreases comps.len(),
{
    lemma_lookup_result(level, comps[0]);
    let n = lookup(level, comps[0])->0;
    let k = choose|k: int| 0 <= k < level.len() && level[k] == n;
    lemma_insert_at_existing(level, k, comps, false);
    let rest = comps.drop_first();
    assert(node_wf(level[k]));
    if rest.len() > 0 && n.is_dir {
        law_file_entry_changes_nothing(n.children, rest);
    }
    assert(merged_node(n, rest, false) == n);
    assert(level.update(k, n) =~= level);
}

/// An entry that names a path as a directory wins: after it the path is a
/// directory, whatever it was before, unless the entry is skipped.
pub proof fn law_directory_entry_wins(level: Seq<NodeModel>, comps: PathModel)
    requires
        level_wf(level),
        comps.len() > 0,
        insert_conflict(level, comps) is None,
    ensures
        node_at(insert_spec(level, comps, true), comps) == Some(true),
{
    lemma_node_at_after_insert(level, comps, true, comps);
}

/// An insertion is skipped only if some proper beginning of the path is a
/// file in the tree; the result is the length of such a beginning.
pub proof fn lemma_conflict_witness(level: Seq<NodeModel>, comps: PathModel) -> (k: int)
    requires
        insert_conflict(level, comps) is Some,
    ensures
        0 < k < comps.len(),
        node_at(level, comps.take(k)) == Some(false),
    decreases comps.len(),
{
    let n = lookup(level, comps[0])->0;
    let rest = comps.drop_first();
    if !n.is_dir {
        assert(comps.take(1).len() == 1 && comps.take(1)[0] == comps[0]);
        1
    } else {
        let below = lemma_conflict_witness(n.children, rest);
        let p = comps.take(below + 1);
        assert(p[0] == comps[0]);
        assert(p.drop_first() =~= rest.take(below));
        below + 1
    }
}

/// Two paths with the same first component are related as their remainders.
proof fn lemma_prefix_step(p: PathModel, q: PathModel)
    requires
        p.len() > 0,
        q.len() > 0,
        p[0] == q[0],
    ensures
        is_proper_prefix(p, q) == is_proper_prefix(p.drop_first(), q.drop_first()),
        (p == q) == (p.drop_first() == q.drop_first()),
{
    let pt = p.drop_first();
    let qt = q.drop_first();
    if p.len() < q.len() {
        assert(q.take(p.len() as int).drop_first() =~= qt.take(pt.len() as int));
        if qt.take(pt.len() as int) == pt {
            assert(q.take(p.len() as int) =~= seq![q[0]] + qt.take(pt.len() as int));
            assert(p =~= seq![p[0]] + pt);
        }
    }
    if pt == qt {
        assert(p =~= seq![p[0]] + pt);
        assert(q =~= seq![q[0]] + qt);
    }
}

/// Nothing is found in an empty tree.
proof fn lemma_node_at_empty(path: PathModel)
    ensures
        node_at(Seq::<NodeModel>::empty(), path) is None,
{
}

/// The nodes of the tree after an insertion that is not skipped: every
/// proper beginning of the inserted path is a directory; the path itself is
/// a directory if it was inserted as one or was one before, else a file;
/// every other path is what it was.
pub proof fn lemma_node_at_after_insert(
    level: Seq<NodeModel>,
    comps: PathModel,
    is_dir: bool,
    p: PathModel,
)
    requires
        level_wf(level),
        comps.len() > 0,
        insert_conflict(level, comps) is None,
        p.len() > 0,
    ensures
        node_at(insert_spec(level, comps, is_dir), p) == (if is_proper_prefix(p, comps) {
            Some(true)
        } else if p == comps {
            Some(is_dir || node_at(level, comps) == Some(true))
        } else {
            node_at(level, p)
        }),
    decreases comps.len(),
{
    let x = comps[0];
    let rest = comps.drop_first();
    let result = insert_spec(level, comps, is_dir);
    let q = p.drop_first();
    lemma_lookup_after_insert(level, comps, is_dir, p[0]);
    lemma_lookup_result(level, x);
    if p[0] != x {
        if p.len() < comps.len() {
            assert(comps.take(p.len() as int)[0] == x);
        }
    } else {
        lemma_prefix_step(p, comps);
        if p.len() == 1 && rest.len() > 0 {
            assert(comps.take(1) =~= p);
        }
        if p.len() == 1 && rest.len() == 0 {
            assert(p =~= comps);
        }
        match lookup(level, x) {
            Some(n) => {
                assert(node_wf(n));
                if rest.len() > 0 && p.len() > 1 {
                    lemma_node_at_after_insert(n.children, rest, is_dir, q);
                }
            },
            None => {
                let fresh = fresh_node(x, rest, is_dir);
                lemma_node_at_empty(q);
                lemma_node_at_empty(rest);
                if rest.len() > 0 {
                    let none = Seq::<NodeModel>::empty();
                    assert(fresh.children =~= insert_spec(none, rest, is_dir));
                    if p.len() > 1 {
                        lemma_node_at_after_insert(none, rest, is_dir, q);
                    }
                }
            },
        }
    }
}

/// The assembled tree is well formed.
pub proof fn lemma_build_wf(entries: Seq<EntryModel>)
    ensures
        level_wf(build_spec(entries)),
    decreases entries.len(),
{
    if entries.len() > 0 {
        lemma_build_wf(entries.drop_last());
        lemma_insert_wf(build_spec(entries.drop_last()), entries.last().0, entries.last().1);
    }
}

/// What a list holds is what it held before its last entry, and that entry.
proof fn lemma_contains_last(entries: Seq<EntryModel>, e: EntryModel)
    requires
        entries.len() > 0,
    ensures
        entries.contains(e) == (entries.drop_last().contains(e) || e == entries.last()),
{
    let earlier = entries.drop_last();
    if entries.contains(e) {
        let i = choose|i: int| 0 <= i < entries.len() && entries[i] == e;
        if i < entries.len() - 1 {
            assert(earlier[i] == e);
        }
    }
    if earlier.contains(e) {
        let i = choose|i: int| 0 <= i < earlier.len() && earlier[i] == e;
        assert(entries[i] == e);
    }
    if e == entries.last() {
        assert(entries[entries.len() - 1] == e);
    }
}

/// An entry continues below `p` if one did before the last entry, or the
/// last entry does.
proof fn lemma_extension_last(entries: Seq<EntryModel>, p: PathModel)
    requires
        entries.len() > 0,
    ensures
        has_extension(entries, p) == (has_extension(entries.drop_last(), p) || is_proper_prefix(
            p,
            entries.last().0,
        )),
{
    let earlier = entries.drop_last();
    if has_extension(entries, p) {
        let e = choose|e: EntryModel| #[trigger] entries.contains(e) && is_proper_prefix(p, e.0);
        lemma_contains_last(entries, e);
    }
    if has_extension(earlier, p) {
        let e = choose|e: EntryModel| #[trigger] earlier.contains(e) && is_proper_prefix(p, e.0);
        lemma_contains_last(entries, e);
    }
    if is_proper_prefix(p, entries.last().0) {
        lemma_contains_last(entries, entries.last());
    }
}

/// On entries without conflict nothing is skipped, and the assembled tree
/// has exactly the nodes that the entries call for, each of the kind they
/// call for.
pub proof fn lemma_build_characterized(entries: Seq<EntryModel>, p: PathModel)
    requires
        conflict_free(entries),
        p.len() > 0,
    ensures
        node_at(build_spec(entries), p) == expected_kind(entries, p),
        build_conflicts(entries).len() == 0,
    decreases entries.len(),
{
    if entries.len() == 0 {
        lemma_node_at_empty(p);
        assert(!has_extension(entries, p));
    } else {
        let earlier = entries.drop_last();
        let last = entries.last();
        let tree = build_spec(earlier);
        assert(conflict_free(earlier)) by {
            assert forall|i: int, j: int|
                0 <= i < earlier.len() && 0 <= j < earlier.len() && !(#[trigger] earlier[i]).1
                    && earlier[i].0.len() > 0 implies !is_proper_prefix(
                earlier[i].0,
                (#[trigger] earlier[j]).0,
            ) by {
                assert(earlier[i] == entries[i] && earlier[j] == entries[j]);
            }
        }
        lemma_build_characterized(earlier, p);
        lemma_build_wf(earlier);
        lemma_contains_last(entries, (p, true));
        lemma_contains_last(entries, (p, false));
        lemma_extension_last(entries, p);
        if last.0.len() > 0 {
            if insert_conflict(tree, last.0) is Some {
                let k = lemma_conflict_witness(tree, last.0);
                let blocker = last.0.take(k);
                lemma_build_characterized(earlier, blocker);
                assert(earlier.contains((blocker, false)));
                let i = choose|i: int| 0 <= i < earlier.len() && earlier[i] == (blocker, false);
                assert(entries[i] == (blocker, false));
                assert(is_proper_prefix(entries[i].0, entries[entries.len() - 1].0));
                assert(false);
            }
            lemma_node_at_after_insert(tree, last.0, last.1, p);
            lemma_build_characterized(earlier, last.0);
            if p == last.0 {
                assert(last == (p, last.1));
            }
        }
    }
}

/// What the entries say of a path depends only on which entries there are.
pub proof fn lemma_expected_kind_same(a: Seq<EntryModel>, b: Seq<EntryModel>, p: PathModel)
    requires
        same_entries(a, b),
    ensures
        expected_kind(a, p) == expected_kind(b, p),
{
    if has_extension(a, p) {
        let e = choose|e: EntryModel| #[trigger] a.contains(e) && is_proper_prefix(p, e.0);
        assert(b.contains(e));
    }
    if has_extension(b, p) {
        let e = choose|e: EntryModel| #[trigger] b.contains(e) && is_proper_prefix(p, e.0);
        assert(a.contains(e));
    }
    assert(a.contains((p, true)) == b.contains((p, true)));
    assert(a.contains((p, false)) == b.contains((p, false)));
}

/// Being without conflict depends only on which entries there are.
pub proof fn lemma_conflict_free_same(a: Seq<EntryModel>, b: Seq<EntryModel>)
    requires
        same_entries(a, b),
        conflict_free(a),
    ensures
        conflict_free(b),
{
    assert forall|i: int, j: int|
        0 <= i < b.len() && 0 <= j < b.len() && !(#[trigger] b[i]).1 && b[i].0.len()
            > 0 implies !is_proper_prefix(b[i].0, (#[trigger] b[j]).0) by {
        assert(b.contains(b[i]) && b.contains(b[j]));
        assert(a.contains(b[i]) && a.contains(b[j]));
        let i2 = choose|k: int| 0 <= k < a.len() && a[k] == b[i];
        let j2 = choose|k: int| 0 <= k < a.len() && a[k] == b[j];
        assert(!is_proper_prefix(a[i2].0, a[j2].0));
    }
}

/// Two sorted lists of siblings with the same names have them at the same
/// places.
proof fn lemma_same_names_same_places(a: Seq<NodeModel>, b: Seq<NodeModel>)
    requires
        names_sorted(a),
        names_sorted(b),
        forall|x: Seq<char>| (#[trigger] lookup(a, x) is Some) == (lookup(b, x) is Some),
    ensures
        a.len() == b.len(),
        forall|i: int| 0 <= i < a.len() ==> (#[trigger] a[i]).name == b[i].name,
    decreases a.len(),
{
    if a.len() == 0 || b.len() == 0 {
        if a.len() > 0 {
            lemma_lookup_at(a, 0);
            assert(lookup(a, a[0].name) is Some);
        }
        if b.len() > 0 {
            lemma_lookup_at(b, 0);
            assert(lookup(a, b[0].name) is Some == lookup(b, b[0].name) is Some);
        }
    } else {
        let at = a.drop_first();
        let bt = b.drop_first();
        lemma_sorted_tail(a);
        lemma_sorted_tail(b);
        lemma_before_all_absent(a[0].name, at);
        lemma_before_all_absent(b[0].name, bt);
        // the two first names are the same
        lemma_lookup_at(a, 0);
        lemma_lookup_at(b, 0);
        assert(lookup(a, a[0].name) is Some);
        assert(lookup(a, b[0].name) is Some == lookup(b, b[0].name) is Some);
        lemma_lookup_result(b, a[0].name);
        lemma_lookup_result(a, b[0].name);
        lemma_lex_total(a[0].name, b[0].name);
        if a[0].name != b[0].name {
            let n = lookup(b, a[0].name)->0;
            let j = choose|j: int| 0 <= j < b.len() && b[j] == n;
            let m = lookup(a, b[0].name)->0;
            let i = choose|i: int| 0 <= i < a.len() && a[i] == m;
            assert(j > 0 && i > 0);
            assert(lex_lt(b[0].name, b[j].name));
            assert(lex_lt(a[0].name, a[i].name));
            assert(false);
        }
        assert forall|x: Seq<char>| (#[trigger] lookup(at, x) is Some) == (lookup(bt, x)
            is Some) by {
            assert(lookup(a, x) is Some == lookup(b, x) is Some);
        }
        lemma_same_names_same_places(at, bt);
        assert forall|i: int| 0 <= i < a.len() implies (#[trigger] a[i]).name == b[i].name by {
            if i > 0 {
                assert(at[i - 1] == a[i] && bt[i - 1] == b[i]);
            }
        }
    }
}

/// A well-formed tree is determined by its nodes: two trees in which every
/// path leads to the same kind of node, or to none, are the same tree.
pub proof fn lemma_same_nodes_same_tree(a: Seq<NodeModel>, b: Seq<NodeModel>)
    requires
        level_wf(a),
        level_wf(b),
        forall|p: PathModel| p.len() > 0 ==> #[trigger] node_at(a, p) == node_at(b, p),
    ensures
        a == b,
    decreases a,
{
    assert forall|x: Seq<char>| (#[trigger] lookup(a, x) is Some) == (lookup(b, x) is Some) by {
        let p = seq![x];
        assert(node_at(a, p) == node_at(b, p));
    }
    lemma_same_names_same_places(a, b);
    assert forall|i: int| 0 <= i < a.len() implies a[i] == b[i] by {
        let x = a[i].name;
        lemma_lookup_at(a, i);
        lemma_lookup_at(b, i);
        let single = seq![x];
        assert(node_at(a, single) == node_at(b, single));
        assert(node_wf(a[i]) && node_wf(b[i]));
        assert forall|q: PathModel| q.len() > 0 implies #[trigger] node_at(a[i].children, q)
            == node_at(b[i].children, q) by {
            let p = seq![x] + q;
            assert(p.drop_first() =~= q);
            assert(node_at(a, p) == node_at(b, p));
        }
        lemma_same_nodes_same_tree(a[i].children, b[i].children);
    }
    assert(a =~= b);
}

/// Entries that differ only in order and repetition assemble to the same
/// tree, provided that no file entry is a proper beginning of another
/// entry's path.
pub proof fn lemma_same_entries_same_tree(a: Seq<EntryModel>, b: Seq<EntryModel>)
    requires
        same_entries(a, b),
        conflict_free(a),
    ensures
        build_spec(a) == build_spec(b),
{
    lemma_conflict_free_same(a, b);
    lemma_build_wf(a);
    lemma_build_wf(b);
    assert forall|p: PathModel| p.len() > 0 implies #[trigger] node_at(build_spec(a), p)
        == node_at(build_spec(b), p) by {
        lemma_build_characterized(a, p);
        lemma_build_characterized(b, p);
        lemma_expected_kind_same(a, b, p);
    }
    lemma_same_nodes_same_tree(build_spec(a), build_spec(b));
}

/// Tree assembly does not depend on the order of its input: two lists of
/// `(path, is directory)` pairs that are permutations of each other assemble
/// to the same tree.
///
/// This holds where no entry naming a file is a proper beginning of another
/// entry's path. Where one is, the entry below the file is skipped or not
/// according to which of the two arrives first.
pub proof fn law_tree_order_independent(
    paths_a: Seq<(Seq<char>, bool)>,
    paths_b: Seq<(Seq<char>, bool)>,
)
    requires
        paths_a.to_multiset() == paths_b.to_multiset(),
        conflict_free(path_entries(paths_a)),
    ensures
        build_spec(path_entries(paths_a)) == build_spec(path_entries(paths_b)),
{
    let a = path_entries(paths_a);
    let b = path_entries(paths_b);
    paths_a.to_multiset_ensures();
    paths_b.to_multiset_ensures();
    assert forall|e: EntryModel| #[trigger] a.contains(e) <==> b.contains(e) by {
        if a.contains(e) {
            let i = choose|i: int| 0 <= i < a.len() && a[i] == e;
            assert(paths_a.contains(paths_a[i]));
            assert(paths_a.to_multiset().count(paths_a[i]) > 0);
            assert(paths_b.to_multiset().count(paths_a[i]) > 0);
            assert(paths_b.contains(paths_a[i]));
            let j = choose|j: int| 0 <= j < paths_b.len() && paths_b[j] == paths_a[i];
            assert(b[j] == e);
        }
        if b.contains(e) {
            let i = choose|i: int| 0 <= i < b.len() && b[i] == e;
            assert(paths_b.contains(paths_b[i]));
            assert(paths_b.to_multiset().count(paths_b[i]) > 0);
            assert(paths_a.to_multiset().count(paths_b[i]) > 0);
            assert(paths_a.contains(paths_b[i]));
            let j = choose|j: int| 0 <= j < paths_a.len() && paths_a[j] == paths_b[i];
            assert(a[j] == e);
        }
    }
    lemma_same_entries_same_tree(a, b);
}

} // verus!
