//! The tree assembler: turns a flat list of relative paths into a nested
//! tree of named nodes, siblings sorted by name.

use vstd::prelude::*;
use crate::error::AppError;
use crate::paths::{path_model, split_components};
use crate::tree_laws::path_entries;
use crate::text::{
    compare_str, concat2, lemma_lex_transitive, lex_lt, TextOrder,
};
use crate::tree_model::{
    fresh_node, insert_conflict, insert_spec, level_wf, lemma_insert_at_existing,
    build_conflicts, build_spec, lemma_insert_at_gap, lemma_insert_wf, merged_node,
    names_sorted, EntryModel, NodeModel, };

verus! {

/// What a node is: a file, or a directory with its children in order of name.
#[derive(Debug)]
enum NodeKind {
    File,
    Directory(Vec<TreeNode>),
}

/// One entry of the tree: a single path component and what it names.
#[derive(Debug)]
pub struct TreeNode {
    name: String,
    kind: NodeKind,
}

/// The value a node stands for: its name, whether it is a directory, and the
/// values of its children in order.
pub closed spec fn node_model(n: TreeNode) -> NodeModel
    decreases n,
{
    match n.kind {
        NodeKind::File => NodeModel { name: n.name@, is_dir: false, children: Seq::empty() },
        NodeKind::Directory(c) => NodeModel {
            name: n.name@,
            is_dir: true,
            children: Seq::new(
                c@.len(),
                |i: int|
                    if 0 <= i < c@.len() {
                        node_model(c@[i])
                    } else {
                        arbitrary()
                    },
            ),
        },
    }
}

/// The values a list of siblings stands for.
pub open spec fn level_model(level: Seq<TreeNode>) -> Seq<NodeModel> {
    Seq::new(level.len(), |i: int| node_model(level[i]))
}

/// The text of the error raised when a path would pass through the file
/// `name`.
pub open spec fn conflict_text(name: Seq<char>) -> Seq<char> {
    "Tree conflict: Trying to create children within file component "@ + name
}

/// `e` is the error raised when a path would pass through the file `name`.
pub open spec fn is_conflict_error(e: AppError, name: Seq<char>) -> bool {
    e matches AppError::Config(m) && m@ == conflict_text(name)
}

impl View for TreeNode {
    type V = NodeModel;

    open spec fn view(&self) -> NodeModel {
        node_model(*self)
    }
}

impl TreeNode {
    /// The path component this node stands for.
    pub fn name(&self) -> (r: &str)
        ensures
            r@ == self@.name,
    {
        self.name.as_str()
    }

    /// Whether this node is a directory.
    pub fn is_dir(&self) -> (r: bool)
        ensures
            r == self@.is_dir,
    {
        match &self.kind {
            NodeKind::File => false,
            NodeKind::Directory(_) => true,
        }
    }

    /// The tag under which the node's kind is written out: `"file"` or
    /// `"directory"`.
    pub fn node_type(&self) -> (r: &'static str)
        ensures
            r@ == if self@.is_dir {
                "directory"@
            } else {
                "file"@
            },
    {
        match &self.kind {
            NodeKind::File => "file",
            NodeKind::Directory(_) => "directory",
        }
    }

    /// The children of a directory, in order of name; nothing for a file.
    pub fn children(&self) -> (r: Option<&Vec<TreeNode>>)
        ensures
            r is Some <==> self@.is_dir,
            r matches Some(c) ==> level_model(c@) == self@.children,
    {
        match &self.kind {
            NodeKind::File => None,
            NodeKind::Directory(c) => {
                assert(level_model(c@) =~= self@.children);
                Some(c)
            },
        }
    }
}

/// Finds `name` among sorted siblings: the index where it stands, or else the
/// index where it would have to be inserted.
fn find_child(level: &Vec<TreeNode>, name: &str) -> (r: Result<usize, usize>)
    requires
        names_sorted(level_model(level@)),
    ensures
        match r {
            Ok(i) => i < level.len() && level_model(level@)[i as int].name == name@,
            Err(i) => {
                &&& i <= level.len()
                &&& forall|j: int| 0 <= j < i ==> lex_lt((#[trigger] level_model(level@)[j]).name, name@)
                &&& i < level.len() ==> lex_lt(name@, level_model(level@)[i as int].name)
            },
        },
{
    let ghost m = level_model(level@);
    let mut lo: usize = 0;
    let mut hi: usize = level.len();
    while lo < hi
        invariant
            m == level_model(level@),
            names_sorted(m),
            0 <= lo <= hi <= level.len(),
            forall|j: int| 0 <= j < lo ==> lex_lt((#[trigger] m[j]).name, name@),
            forall|j: int| hi <= j < m.len() ==> lex_lt(name@, (#[trigger] m[j]).name),
        decreases hi - lo,
    {
        let mid = lo + (hi - lo) / 2;
        assert(m[mid as int].name == level@[mid as int].name@);
        match compare_str(level[mid].name.as_str(), name) {
            TextOrder::Same => {
                return Ok(mid);
            },
            TextOrder::Before => {
                assert forall|j: int| 0 <= j < mid + 1 implies lex_lt(
                    (#[trigger] m[j]).name,
                    name@,
                ) by {
                    if j < mid {
                        lemma_lex_transitive(m[j].name, m[mid as int].name, name@);
                    }
                }
                lo = mid + 1;
            },
            TextOrder::After => {
                assert forall|j: int| mid <= j < m.len() implies lex_lt(
                    name@,
                    (#[trigger] m[j]).name,
                ) by {
                    if j > mid {
                        lemma_lex_transitive(name@, m[mid as int].name, m[j].name);
                    }
                }
                hi = mid;
            },
        }
    }
    Err(lo)
}

/// Inserts the path `components` into the siblings `level`, creating the
/// directories on the way; `is_dir_at_end` tells whether the path itself
/// names a directory.
///
/// Fails, leaving the tree as it was, when the path would pass through an
/// existing file.
pub fn insert_node(level: &mut Vec<TreeNode>, components: &[String], is_dir_at_end: bool) -> (r:
    Result<(), AppError>)
    requires
        level_wf(level_model(old(level)@)),
    ensures
        level_model(final(level)@) == insert_spec(
            level_model(old(level)@),
            path_model(components@),
            is_dir_at_end,
        ),
        level_wf(level_model(final(level)@)),
        match r {
            Ok(_) => insert_conflict(level_model(old(level)@), path_model(components@)) is None,
            Err(e) => {
                &&& insert_conflict(level_model(old(level)@), path_model(components@)) matches Some(
                    name,
                )
                &&& is_conflict_error(e, name)
            },
        },
{
    assert(path_model(components@).skip(0) =~= path_model(components@));
    insert_from(level, components, 0, is_dir_at_end)
}

/// [`insert_node`] for the components from `start` on.
fn insert_from(
    level: &mut Vec<TreeNode>,
    components: &[String],
    start: usize,
    is_dir_at_end: bool,
) -> (r: Result<(), AppError>)
    requires
        level_wf(level_model(old(level)@)),
        start <= components.len(),
    ensures
        level_model(final(level)@) == insert_spec(
            level_model(old(level)@),
            path_model(components@).skip(start as int),
            is_dir_at_end,
        ),
        level_wf(level_model(final(level)@)),
        match r {
            Ok(_) => insert_conflict(
                level_model(old(level)@),
                path_model(components@).skip(start as int),
            ) is None,
            Err(e) => {
                &&& insert_conflict(
                    level_model(old(level)@),
                    path_model(components@).skip(start as int),
                ) matches Some(name)
                &&& is_conflict_error(e, name)
            },
        },
    decreases components.len() - start,
{
    let ghost before = level_model(level@);
    let ghost comps = path_model(components@).skip(start as int);
    if start >= components.len() {
        return Ok(());
    }
    let ghost rest = comps.drop_first();
    proof {
        assert(comps[0] == components@[start as int]@);
        assert(rest =~= path_model(components@).skip(start + 1));
        lemma_insert_wf(before, comps, is_dir_at_end);
    }
    let name = &components[start];
    let is_last = start + 1 == components.len();
    match find_child(level, name.as_str()) {
        Ok(index) => {
            proof {
                lemma_insert_at_existing(before, index as int, comps, is_dir_at_end);
            }
            let ghost old_node = level@[index as int];
            let node = &mut level[index];
            let mut outcome: Result<(), AppError> = Ok(());
            match &mut node.kind {
                NodeKind::File => {
                    if !is_last {
                        outcome = Err(
                            AppError::Config(
                                concat2(
                                    "Tree conflict: Trying to create children within file component ",
                                    name.as_str(),
                                ),
                            ),
                        );
                    } else if is_dir_at_end {
                        node.kind = NodeKind::Directory(Vec::new());
                    }
                },
                NodeKind::Directory(children) => {
                    if !is_last {
                        assert(node_model(old_node).children =~= level_model(children@));
                        outcome = insert_from(children, components, start + 1, is_dir_at_end);
                    }
                },
            }
            proof {
                let new_node = level@[index as int];
                let merged = merged_node(before[index as int], rest, is_dir_at_end);
                match new_node.kind {
                    NodeKind::File => {},
                    NodeKind::Directory(c) => {
                        assert(node_model(new_node).children =~= level_model(c@));
                    },
                }
                match old_node.kind {
                    NodeKind::File => {},
                    NodeKind::Directory(c) => {
                        assert(node_model(old_node).children =~= level_model(c@));
                    },
                }
                assert(node_model(new_node).name == merged.name);
                assert(node_model(new_node).is_dir == merged.is_dir);
                assert(node_model(new_node).children =~= merged.children);
                assert(node_model(new_node) == merged);
                assert(level_model(level@) =~= before.update(index as int, merged));
            }
            outcome
        },
        Err(position) => {
            proof {
                lemma_insert_at_gap(before, position as int, comps, is_dir_at_end);
            }
            let kind = if is_last && !is_dir_at_end {
                NodeKind::File
            } else {
                let mut children: Vec<TreeNode> = Vec::new();
                if !is_last {
                    assert(level_model(children@) =~= Seq::<NodeModel>::empty());
                    let _ = insert_from(&mut children, components, start + 1, is_dir_at_end);
                }
                NodeKind::Directory(children)
            };
            let node = TreeNode { name: name.clone(), kind };
            let ghost made = node;
            proof {
                let fresh = fresh_node(comps[0], rest, is_dir_at_end);
                match made.kind {
                    NodeKind::File => {},
                    NodeKind::Directory(c) => {
                        assert(node_model(made).children =~= level_model(c@));
                        if rest.len() > 0 {
                            assert(insert_spec(Seq::<NodeModel>::empty(), rest, is_dir_at_end)
                                =~= seq![fresh_node(rest[0], rest.drop_first(), is_dir_at_end)]);
                        }
                    },
                }
                assert(rest.len() == 0 <==> is_last);
                assert(node_model(made).name == fresh.name);
                assert(node_model(made).is_dir == fresh.is_dir);
                assert(node_model(made).children =~= fresh.children);
                assert(node_model(made) == fresh);
            }
            level.insert(position, node);
            proof {
                assert(level_model(level@) =~= before.insert(
                    position as int,
                    fresh_node(comps[0], rest, is_dir_at_end),
                ));
            }
            Ok(())
        },
    }
}

/// The `(path text, is directory)` pairs a list stands for.
pub open spec fn entry_texts(entries: Seq<(String, bool)>) -> Seq<(Seq<char>, bool)> {
    Seq::new(entries.len(), |i: int| (entries[i].0@, entries[i].1))
}

/// The entries a list of `(path, is directory)` pairs stands for: each path
/// by its normal components.
pub open spec fn entries_model(entries: Seq<(String, bool)>) -> Seq<EntryModel> {
    path_entries(entry_texts(entries))
}

/// Assembles the tree of the given `(relative path, is directory)` pairs and
/// reports, in order, the entries that were skipped because they would pass
/// through a file.
pub fn build_tree_reporting(relative_path_types: &[(String, bool)]) -> (r: (
    Vec<TreeNode>,
    Vec<AppError>,
))
    ensures
        level_model(r.0@) == build_spec(entries_model(relative_path_types@)),
        level_wf(level_model(r.0@)),
        r.1@.len() == build_conflicts(entries_model(relative_path_types@)).len(),
        forall|i: int|
            0 <= i < r.1@.len() ==> is_conflict_error(
                #[trigger] r.1@[i],
                build_conflicts(entries_model(relative_path_types@))[i],
            ),
{
    let ghost entries = entries_model(relative_path_types@);
    let mut roots: Vec<TreeNode> = Vec::new();
    let mut skipped: Vec<AppError> = Vec::new();
    let mut i: usize = 0;
    proof {
        assert(entries.take(0) =~= Seq::<EntryModel>::empty());
        assert(level_model(roots@) =~= Seq::<NodeModel>::empty());
    }
    while i < relative_path_types.len()
        invariant
            0 <= i <= relative_path_types.len(),
            entries == entries_model(relative_path_types@),
            level_model(roots@) == build_spec(entries.take(i as int)),
            level_wf(level_model(roots@)),
            skipped@.len() == build_conflicts(entries.take(i as int)).len(),
            forall|j: int|
                0 <= j < skipped@.len() ==> is_conflict_error(
                    #[trigger] skipped@[j],
                    build_conflicts(entries.take(i as int))[j],
                ),
        decreases relative_path_types.len() - i,
    {
        let entry = &relative_path_types[i];
        let components = split_components(entry.0.as_str());
        proof {
            let upto = entries.take(i + 1);
            assert(upto.drop_last() =~= entries.take(i as int));
            assert(upto.last() == (path_model(components@), entry.1));
        }
        match insert_node(&mut roots, components.as_slice(), entry.1) {
            Ok(_) => {},
            Err(e) => {
                skipped.push(e);
            },
        }
        i = i + 1;
    }
    proof {
        assert(entries.take(i as int) =~= entries);
    }
    (roots, skipped)
}

/// Assembles the tree of the given `(relative path, is directory)` pairs.
///
/// Each path is split into its normal components and inserted in turn; an
/// entry that would pass through a file is skipped. Siblings come out sorted
/// by name at every depth.
pub fn build_tree_from_paths(relative_path_types: &[(String, bool)]) -> (r: Result<
    Vec<TreeNode>,
    AppError,
>)
    ensures
        r matches Ok(tree) && level_model(tree@) == build_spec(
            entries_model(relative_path_types@),
        ) && level_wf(level_model(tree@)),
{
    let (roots, _) = build_tree_reporting(relative_path_types);
    Ok(roots)
}

} // verus!
