//! The mathematical model of a directory tree and of inserting one path into
//! it, with the facts about it that the executable assembler relies on.

use vstd::prelude::*;
use crate::text::{lemma_lex_total, lemma_lex_transitive, lex_lt};

verus! {

/// One node of a tree, as a value: its name, whether it is a directory, and
/// its children in order. A file has no children.
pub ghost struct NodeModel {
    pub name: Seq<char>,
    pub is_dir: bool,
    pub children: Seq<NodeModel>,
}

/// A path as its components, outermost first.
pub type PathModel = Seq<Seq<char>>;

/// Siblings are in strictly ascending order of name; in particular no name
/// occurs twice.
pub open spec fn names_sorted(level: Seq<NodeModel>) -> bool {
    forall|i: int, j: int|
        0 <= i < j < level.len() ==> lex_lt(#[trigger] level[i].name, #[trigger] level[j].name)
}

/// A node is well formed when only directories have children and, at every
/// depth below it, siblings are sorted.
pub open spec fn node_wf(n: NodeModel) -> bool
    decreases n,
{
    &&& n.is_dir || n.children.len() == 0
    &&& names_sorted(n.children)
    &&& forall|i: int| 0 <= i < n.children.len() ==> node_wf(#[trigger] n.children[i])
}

/// A list of siblings is well formed when it is sorted and each node is well
/// formed.
pub open spec fn level_wf(level: Seq<NodeModel>) -> bool {
    &&& names_sorted(level)
    &&& forall|i: int| 0 <= i < level.len() ==> node_wf(#[trigger] level[i])
}

/// The first sibling with the given name.
pub open spec fn lookup(level: Seq<NodeModel>, name: Seq<char>) -> Option<NodeModel>
    decreases level.len(),
{
    if level.len() == 0 {
        None
    } else if level[0].name == name {
        Some(level[0])
    } else {
        lookup(level.drop_first(), name)
    }
}

/// The node that stands for `name` after a path `name/rest` has been inserted
/// where no sibling of that name existed: a directory unless the path ends
/// here at a file, holding the rest of the path.
pub open spec fn fresh_node(name: Seq<char>, rest: PathModel, is_dir: bool) -> NodeModel
    decreases rest.len(),
{
    NodeModel {
        name,
        is_dir: is_dir || rest.len() > 0,
        children: if rest.len() == 0 {
            Seq::empty()
        } else {
            seq![fresh_node(rest[0], rest.drop_first(), is_dir)]
        },
    }
}

/// The siblings after the path `comps` has been inserted, `is_dir` telling
/// whether the path names a directory.
///
/// * A missing component is created in sorted position; every component but
///   the last is a directory.
/// * An existing last component becomes a directory if the path names one,
///   and is otherwise left as it is.
/// * A path that would pass through an existing file changes nothing.
pub open spec fn insert_spec(level: Seq<NodeModel>, comps: PathModel, is_dir: bool) -> Seq<
    NodeModel,
>
    decreases comps.len(), level.len(),
{
    if comps.len() == 0 {
        level
    } else if level.len() == 0 || lex_lt(comps[0], level[0].name) {
        seq![fresh_node(comps[0], comps.drop_first(), is_dir)] + level
    } else if comps[0] == level[0].name {
        seq![merged_node(level[0], comps.drop_first(), is_dir)] + level.drop_first()
    } else {
        seq![level[0]] + insert_spec(level.drop_first(), comps, is_dir)
    }
}

/// The node `node` after the path `rest` has been inserted below it (or, for
/// an empty `rest`, after a path ending at `node` has been inserted).
pub open spec fn merged_node(node: NodeModel, rest: PathModel, is_dir: bool) -> NodeModel
    decreases rest.len() + 1, 0nat,
{
    if rest.len() == 0 {
        NodeModel { name: node.name, is_dir: node.is_dir || is_dir, children: node.children }
    } else if !node.is_dir {
        node
    } else {
        NodeModel {
            name: node.name,
            is_dir: true,
            children: insert_spec(node.children, rest, is_dir),
        }
    }
}

/// The file that stands in the way of inserting `comps`, if there is one: the
/// name of the first existing file among the components before the last.
pub open spec fn insert_conflict(level: Seq<NodeModel>, comps: PathModel) -> Option<Seq<char>>
    decreases comps.len(),
{
    if comps.len() <= 1 {
        None
    } else {
        match lookup(level, comps[0]) {
            None => None,
            Some(n) => if !n.is_dir {
                Some(comps[0])
            } else {
                insert_conflict(n.children, comps.drop_first())
            },
        }
    }
}

/// One entry handed to the assembler: the components of a path and whether
/// the path names a directory.
pub type EntryModel = (PathModel, bool);

/// The tree assembled from `entries`, inserted one after the other into an
/// empty tree.
pub open spec fn build_spec(entries: Seq<EntryModel>) -> Seq<NodeModel>
    decreases entries.len(),
{
    if entries.len() == 0 {
        Seq::empty()
    } else {
        insert_spec(build_spec(entries.drop_last()), entries.last().0, entries.last().1)
    }
}

/// For every entry that could not be inserted, in order, the file that stood
/// in its way.
pub open spec fn build_conflicts(entries: Seq<EntryModel>) -> Seq<Seq<char>>
    decreases entries.len(),
{
    if entries.len() == 0 {
        Seq::empty()
    } else {
        let earlier = build_conflicts(entries.drop_last());
        match insert_conflict(build_spec(entries.drop_last()), entries.last().0) {
            Some(name) => earlier.push(name),
            None => earlier,
        }
    }
}

/// `name` comes before every name of `level`.
pub open spec fn before_all(name: Seq<char>, level: Seq<NodeModel>) -> bool {
    forall|i: int| 0 <= i < level.len() ==> lex_lt(name, #[trigger] level[i].name)
}

/// What [`lookup`] finds has the name asked for and is one of the siblings;
/// it finds nothing only if no sibling has that name.
pub proof fn lemma_lookup_result(level: Seq<NodeModel>, name: Seq<char>)
    ensures
        match lookup(level, name) {
            Some(n) => n.name == name && exists|i: int| 0 <= i < level.len() && level[i] == n,
            None => forall|i: int| 0 <= i < level.len() ==> (#[trigger] level[i]).name != name,
        },
    decreases level.len(),
{
    if level.len() > 0 && level[0].name != name {
        let tail = level.drop_first();
        lemma_lookup_result(tail, name);
        match lookup(tail, name) {
            Some(n) => {
                let i = choose|i: int| 0 <= i < tail.len() && tail[i] == n;
                assert(level[i + 1] == n);
            },
            None => {
                assert forall|i: int| 0 <= i < level.len() implies (#[trigger] level[i]).name
                    != name by {
                    if i > 0 {
                        assert(tail[i - 1] == level[i]);
                    }
                }
            },
        }
    } else if level.len() > 0 {
        assert(level[0] == level[0]);
    }
}

/// A sorted list of siblings stays sorted without its first node, which comes
/// before all the others.
pub proof fn lemma_sorted_tail(level: Seq<NodeModel>)
    requires
        names_sorted(level),
        level.len() > 0,
    ensures
        names_sorted(level.drop_first()),
        before_all(level[0].name, level.drop_first()),
{
    let tail = level.drop_first();
    assert forall|i: int, j: int| 0 <= i < j < tail.len() implies lex_lt(
        #[trigger] tail[i].name,
        #[trigger] tail[j].name,
    ) by {
        assert(tail[i] == level[i + 1] && tail[j] == level[j + 1]);
    }
    assert forall|i: int| 0 <= i < tail.len() implies lex_lt(
        level[0].name,
        #[trigger] tail[i].name,
    ) by {
        assert(tail[i] == level[i + 1]);
    }
}

/// Putting a node whose name comes before all others in front of a sorted
/// list gives a sorted list.
pub proof fn lemma_sorted_cons(head: NodeModel, level: Seq<NodeModel>)
    requires
        names_sorted(level),
        before_all(head.name, level),
    ensures
        names_sorted(seq![head] + level),
{
    let all = seq![head] + level;
    assert forall|i: int, j: int| 0 <= i < j < all.len() implies lex_lt(
        #[trigger] all[i].name,
        #[trigger] all[j].name,
    ) by {
        assert(all[j] == level[j - 1]);
        if i > 0 {
            assert(all[i] == level[i - 1]);
        }
    }
}

/// A name that comes before all siblings is not among them.
pub proof fn lemma_before_all_absent(name: Seq<char>, level: Seq<NodeModel>)
    requires
        before_all(name, level),
    ensures
        lookup(level, name) is None,
{
    lemma_lookup_result(level, name);
    if lookup(level, name) is Some {
        let n = lookup(level, name)->0;
        let i = choose|i: int| 0 <= i < level.len() && level[i] == n;
        assert(lex_lt(name, level[i].name));
        lemma_lex_total(name, name);
    }
}

/// In a sorted list, looking up the name of the `k`-th sibling finds it.
pub proof fn lemma_lookup_at(level: Seq<NodeModel>, k: int)
    requires
        names_sorted(level),
        0 <= k < level.len(),
    ensures
        lookup(level, level[k].name) == Some(level[k]),
    decreases k,
{
    if k > 0 {
        assert(lex_lt(level[0].name, level[k].name));
        lemma_lex_total(level[0].name, level[k].name);
        lemma_sorted_tail(level);
        assert(level.drop_first()[k - 1] == level[k]);
        lemma_lookup_at(level.drop_first(), k - 1);
    }
}

/// Inserting a path whose first component is the `k`-th sibling replaces that
/// sibling by its merged form and touches nothing else.
pub proof fn lemma_insert_at_existing(
    level: Seq<NodeModel>,
    k: int,
    comps: PathModel,
    is_dir: bool,
)
    requires
        names_sorted(level),
        comps.len() > 0,
        0 <= k < level.len(),
        level[k].name == comps[0],
    ensures
        insert_spec(level, comps, is_dir) == level.update(
            k,
            merged_node(level[k], comps.drop_first(), is_dir),
        ),
        lookup(level, comps[0]) == Some(level[k]),
    decreases k,
{
    lemma_lookup_at(level, k);
    lemma_lex_total(comps[0], level[0].name);
    let merged = merged_node(level[k], comps.drop_first(), is_dir);
    if k == 0 {
        assert(seq![merged] + level.drop_first() =~= level.update(0, merged));
    } else {
        assert(lex_lt(level[0].name, level[k].name));
        let tail = level.drop_first();
        lemma_sorted_tail(level);
        assert(tail[k - 1] == level[k]);
        lemma_insert_at_existing(tail, k - 1, comps, is_dir);
        assert(seq![level[0]] + tail.update(k - 1, merged) =~= level.update(k, merged));
    }
}

/// Inserting a path whose first component belongs between the siblings
/// `k - 1` and `k` puts a fresh node at position `k` and touches nothing else.
pub proof fn lemma_insert_at_gap(level: Seq<NodeModel>, k: int, comps: PathModel, is_dir: bool)
    requires
        names_sorted(level),
        comps.len() > 0,
        0 <= k <= level.len(),
        forall|i: int| 0 <= i < k ==> lex_lt((#[trigger] level[i]).name, comps[0]),
        k < level.len() ==> lex_lt(comps[0], level[k].name),
    ensures
        insert_spec(level, comps, is_dir) == level.insert(
            k,
            fresh_node(comps[0], comps.drop_first(), is_dir),
        ),
        lookup(level, comps[0]) is None,
    decreases k,
{
    let fresh = fresh_node(comps[0], comps.drop_first(), is_dir);
    if k == 0 {
        assert(seq![fresh] + level =~= level.insert(0, fresh));
        assert forall|i: int| 0 <= i < level.len() implies lex_lt(
            comps[0],
            #[trigger] level[i].name,
        ) by {
            if i > 0 {
                lemma_lex_transitive(comps[0], level[0].name, level[i].name);
            }
        }
        lemma_before_all_absent(comps[0], level);
    } else {
        assert(lex_lt(level[0].name, comps[0]));
        lemma_lex_total(comps[0], level[0].name);
        let tail = level.drop_first();
        lemma_sorted_tail(level);
        assert forall|i: int| 0 <= i < k - 1 implies lex_lt(
            (#[trigger] tail[i]).name,
            comps[0],
        ) by {
            assert(tail[i] == level[i + 1]);
        }
        if k < level.len() {
            assert(tail[k - 1] == level[k]);
        }
        lemma_insert_at_gap(tail, k - 1, comps, is_dir);
        assert(seq![level[0]] + tail.insert(k - 1, fresh) =~= level.insert(k, fresh));
    }
}

/// Merging keeps a node's name.
pub proof fn lemma_merged_name(node: NodeModel, rest: PathModel, is_dir: bool)
    ensures
        merged_node(node, rest, is_dir).name == node.name,
{
}

/// A fresh chain of nodes is well formed.
pub proof fn lemma_fresh_wf(name: Seq<char>, rest: PathModel, is_dir: bool)
    ensures
        node_wf(fresh_node(name, rest, is_dir)),
    decreases rest.len(),
{
    if rest.len() > 0 {
        lemma_fresh_wf(rest[0], rest.drop_first(), is_dir);
    }
}

/// A name that comes before all siblings and before the first component of
/// an inserted path still comes before all siblings after the insertion.
pub proof fn lemma_insert_before_all(
    name: Seq<char>,
    level: Seq<NodeModel>,
    comps: PathModel,
    is_dir: bool,
)
    requires
        before_all(name, level),
        comps.len() > 0 ==> lex_lt(name, comps[0]),
    ensures
        before_all(name, insert_spec(level, comps, is_dir)),
    decreases level.len(),
{
    let result = insert_spec(level, comps, is_dir);
    if comps.len() == 0 {
    } else if level.len() == 0 || lex_lt(comps[0], level[0].name) {
        assert forall|i: int| 0 <= i < result.len() implies lex_lt(
            name,
            #[trigger] result[i].name,
        ) by {
            if i > 0 {
                assert(result[i] == level[i - 1]);
            }
        }
    } else if comps[0] == level[0].name {
        assert forall|i: int| 0 <= i < result.len() implies lex_lt(
            name,
            #[trigger] result[i].name,
        ) by {
            if i > 0 {
                assert(result[i] == level[i]);
            } else {
                lemma_merged_name(level[0], comps.drop_first(), is_dir);
            }
        }
    } else {
        let tail = level.drop_first();
        assert forall|i: int| 0 <= i < tail.len() implies lex_lt(name, #[trigger] tail[i].name) by {
            assert(tail[i] == level[i + 1]);
        }
        lemma_insert_before_all(name, tail, comps, is_dir);
        let rest = insert_spec(tail, comps, is_dir);
        assert forall|i: int| 0 <= i < result.len() implies lex_lt(
            name,
            #[trigger] result[i].name,
        ) by {
            if i > 0 {
                assert(result[i] == rest[i - 1]);
            } else {
                assert(result[0] == level[0]);
            }
        }
    }
}

/// Insertion keeps a list of siblings well formed.
pub proof fn lemma_insert_wf(level: Seq<NodeModel>, comps: PathModel, is_dir: bool)
    requires
        level_wf(level),
    ensures
        level_wf(insert_spec(level, comps, is_dir)),
    decreases comps.len(), level.len(),
{
    let result = insert_spec(level, comps, is_dir);
    if comps.len() == 0 {
    } else if level.len() == 0 || lex_lt(comps[0], level[0].name) {
        let fresh = fresh_node(comps[0], comps.drop_first(), is_dir);
        lemma_fresh_wf(comps[0], comps.drop_first(), is_dir);
        assert(before_all(fresh.name, level)) by {
            assert forall|i: int| 0 <= i < level.len() implies lex_lt(
                fresh.name,
                #[trigger] level[i].name,
            ) by {
                if i > 0 {
                    lemma_lex_transitive(comps[0], level[0].name, level[i].name);
                }
            }
        }
        lemma_sorted_cons(fresh, level);
        assert forall|i: int| 0 <= i < result.len() implies node_wf(#[trigger] result[i]) by {
            if i > 0 {
                assert(result[i] == level[i - 1]);
            }
        }
    } else if comps[0] == level[0].name {
        let tail = level.drop_first();
        let merged = merged_node(level[0], comps.drop_first(), is_dir);
        lemma_merged_wf(level[0], comps.drop_first(), is_dir);
        lemma_sorted_tail(level);
        lemma_sorted_cons(merged, tail);
        assert forall|i: int| 0 <= i < result.len() implies node_wf(#[trigger] result[i]) by {
            if i > 0 {
                assert(result[i] == level[i]);
            }
        }
    } else {
        let tail = level.drop_first();
        lemma_sorted_tail(level);
        assert(level_wf(tail)) by {
            assert forall|i: int| 0 <= i < tail.len() implies node_wf(#[trigger] tail[i]) by {
                assert(tail[i] == level[i + 1]);
            }
        }
        lemma_insert_wf(tail, comps, is_dir);
        lemma_lex_total(comps[0], level[0].name);
        lemma_insert_before_all(level[0].name, tail, comps, is_dir);
        let rest = insert_spec(tail, comps, is_dir);
        lemma_sorted_cons(level[0], rest);
        assert forall|i: int| 0 <= i < result.len() implies node_wf(#[trigger] result[i]) by {
            if i > 0 {
                assert(result[i] == rest[i - 1]);
            } else {
                assert(result[0] == level[0]);
            }
        }
    }
}

/// Merging a path into a well-formed node keeps it well formed.
pub proof fn lemma_merged_wf(node: NodeModel, rest: PathModel, is_dir: bool)
    requires
        node_wf(node),
    ensures
        node_wf(merged_node(node, rest, is_dir)),
    decreases rest.len() + 1, 0nat,
{
    if rest.len() > 0 && node.is_dir {
        lemma_insert_wf(node.children, rest, is_dir);
    }
}

/// What a lookup finds after an insertion into a sorted list: under the first
/// component of the inserted path the merged or fresh node, under every other
/// name what was there before.
pub proof fn lemma_lookup_after_insert(
    level: Seq<NodeModel>,
    comps: PathModel,
    is_dir: bool,
    name: Seq<char>,
)
    requires
        names_sorted(level),
        comps.len() > 0,
    ensures
        lookup(insert_spec(level, comps, is_dir), name) == if name == comps[0] {
            Some(
                match lookup(level, name) {
                    Some(n) => merged_node(n, comps.drop_first(), is_dir),
                    None => fresh_node(name, comps.drop_first(), is_dir),
                },
            )
        } else {
            lookup(level, name)
        },
    decreases level.len(),
{
    let result = insert_spec(level, comps, is_dir);
    if level.len() == 0 || lex_lt(comps[0], level[0].name) {
        assert(result[0] == fresh_node(comps[0], comps.drop_first(), is_dir));
        assert(result.drop_first() =~= level);
        assert(before_all(comps[0], level)) by {
            assert forall|i: int| 0 <= i < level.len() implies lex_lt(
                comps[0],
                #[trigger] level[i].name,
            ) by {
                if i > 0 {
                    lemma_lex_transitive(comps[0], level[0].name, level[i].name);
                }
            }
        }
        lemma_before_all_absent(comps[0], level);
    } else if comps[0] == level[0].name {
        assert(result[0] == merged_node(level[0], comps.drop_first(), is_dir));
        assert(result.drop_first() =~= level.drop_first());
    } else {
        let tail = level.drop_first();
        lemma_sorted_tail(level);
        lemma_lookup_after_insert(tail, comps, is_dir, name);
        assert(result[0] == level[0]);
        assert(result.drop_first() =~= insert_spec(tail, comps, is_dir));
    }
}

} // verus!
