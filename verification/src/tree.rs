//! What it means for a tree of nodes to be the tree of a set of recorded
//! entries, and what holds of every such tree.

use crate::order::level_sorted;
use crate::scanner::FileNode;
use vstd::prelude::*;

verus! {

/// A recorded entry as plain values.
pub struct EntryModel {
    pub name: Seq<char>,
    pub path: Seq<char>,
    pub parent: Seq<char>,
    pub is_directory: bool,
    pub is_source_file: bool,
    pub token_count: Option<usize>,
}

/// The node carries the name, path, kind and count of the entry.
pub open spec fn describes(node: FileNode, entry: EntryModel) -> bool {
    &&& node.name@ == entry.name
    &&& node.path@ == entry.path
    &&& node.is_directory == entry.is_directory
    &&& node.is_source_file == entry.is_source_file
    &&& node.token_count == entry.token_count
}

/// The positions, in ascending order, of the entries whose parent is
/// `parent`.
pub open spec fn child_positions(entries: Seq<EntryModel>, parent: Seq<char>) -> Seq<int>
    decreases entries.len(),
{
    if entries.len() == 0 {
        Seq::empty()
    } else {
        let front = child_positions(entries.drop_last(), parent);
        if entries.last().parent == parent {
            front.push(entries.len() - 1)
        } else {
            front
        }
    }
}

/// The node stands for one of the entries whose parent is `parent`.
#[verifier::opaque]
pub open spec fn stands_for_child(
    node: FileNode,
    entries: Seq<EntryModel>,
    parent: Seq<char>,
) -> bool {
    exists|i: int|
        0 <= i < entries.len() && (#[trigger] entries[i]).parent == parent && describes(
            node,
            entries[i],
        )
}

/// One of the nodes describes the entry.
#[verifier::opaque]
pub open spec fn has_node(nodes: Seq<FileNode>, entry: EntryModel) -> bool {
    exists|k: int| 0 <= k < nodes.len() && describes(#[trigger] nodes[k], entry)
}

/// `nodes` are the children of `parent` among `entries`, down to `depth`
/// levels: as many nodes as `parent` has children, each standing for one of
/// them, each child described by one of the nodes; a directory carries the
/// level below it in the same sense, cut off where `depth` is used up, and a
/// file carries none. With `sorted`, every level stands in order.
pub open spec fn is_level(
    nodes: Seq<FileNode>,
    entries: Seq<EntryModel>,
    parent: Seq<char>,
    depth: nat,
    sorted: bool,
) -> bool
    decreases depth,
{
    if depth == 0 {
        nodes.len() == 0
    } else {
        &&& nodes.len() == child_positions(entries, parent).len()
        &&& forall|k: int|
            0 <= k < nodes.len() ==> stands_for_child(#[trigger] nodes[k], entries, parent)
                && match nodes[k].children {
                Some(below) => nodes[k].is_directory && is_level(
                    below@,
                    entries,
                    nodes[k].path@,
                    (depth - 1) as nat,
                    sorted,
                ),
                None => !nodes[k].is_directory,
            }
        &&& forall|i: int|
            0 <= i < entries.len() && (#[trigger] entries[i]).parent == parent ==> has_node(
                nodes,
                entries[i],
            )
        &&& sorted ==> level_sorted(nodes)
    }
}

/// `child_positions` holds exactly the positions of the children of
/// `parent`.
pub proof fn lemma_child_positions(entries: Seq<EntryModel>, parent: Seq<char>)
    ensures
        forall|j: int|
            0 <= j < child_positions(entries, parent).len() ==> {
                let i = #[trigger] child_positions(entries, parent)[j];
                0 <= i < entries.len() && entries[i].parent == parent
            },
        forall|i: int|
            0 <= i < entries.len() && (#[trigger] entries[i]).parent == parent
                ==> child_positions(entries, parent).contains(i),
    decreases entries.len(),
{
    if entries.len() > 0 {
        let front = entries.drop_last();
        lemma_child_positions(front, parent);
        let positions = child_positions(entries, parent);
        let before = child_positions(front, parent);
        assert forall|j: int| 0 <= j < positions.len() implies {
            let i = #[trigger] positions[j];
            0 <= i < entries.len() && entries[i].parent == parent
        } by {
            if j < before.len() {
                assert(positions[j] == before[j]);
                assert(front[before[j]] == entries[before[j]]);
            }
        }
        assert forall|i: int|
            0 <= i < entries.len() && (#[trigger] entries[i]).parent == parent implies positions.contains(
            i,
        ) by {
            if i < front.len() {
                assert(front[i] == entries[i]);
                assert(before.contains(i));
                let j = choose|j: int| 0 <= j < before.len() && before[j] == i;
                assert(positions[j] == i);
            } else {
                assert(positions[positions.len() - 1] == i);
            }
        }
    }
}

/// Every level of the tree stands in order: the nodes themselves, and below
/// each directory its children, and so on down.
pub open spec fn tree_sorted(nodes: Seq<FileNode>) -> bool
    decreases nodes,
{
    &&& level_sorted(nodes)
    &&& forall|k: int|
        0 <= k < nodes.len() ==> match (#[trigger] nodes[k]).children {
            Some(below) => tree_sorted(below@),
            None => true,
        }
}

/// Two nodes carry the same name, path, kind and count.
pub open spec fn same_entry(a: FileNode, b: FileNode) -> bool {
    &&& a.name@ == b.name@
    &&& a.path@ == b.path@
    &&& a.is_directory == b.is_directory
    &&& a.is_source_file == b.is_source_file
    &&& a.token_count == b.token_count
}

/// The two sequences hold the same trees: node by node the same name, path,
/// kind and count, and the same trees below.
pub open spec fn same_trees(a: Seq<FileNode>, b: Seq<FileNode>) -> bool
    decreases a,
{
    &&& a.len() == b.len()
    &&& forall|k: int|
        0 <= k < a.len() ==> same_entry(#[trigger] a[k], b[k]) && match a[k].children {
            Some(below) => b[k].children is Some && same_trees(below@, b[k].children->0@),
            None => b[k].children is None,
        }
}

/// The two nodes are the same tree.
pub open spec fn same_tree(a: FileNode, b: FileNode) -> bool {
    &&& same_entry(a, b)
    &&& match a.children {
        Some(below) => b.children is Some && same_trees(below@, b.children->0@),
        None => b.children is None,
    }
}

/// One of `nodes` carries the same name, path, kind and count as `node`.
#[verifier::opaque]
pub open spec fn has_twin(nodes: Seq<FileNode>, node: FileNode) -> bool {
    exists|k: int| 0 <= k < nodes.len() && same_entry(#[trigger] nodes[k], node)
}

/// `after` holds the nodes of `before` in some order, each with the levels
/// below it reordered in the same sense: the two are equally long, every node
/// of `after` is a node of `before` with the levels below it reordered, and
/// every node of `before` has its twin in `after`.
pub open spec fn reordered(before: Seq<FileNode>, after: Seq<FileNode>) -> bool
    decreases before,
{
    &&& after.len() == before.len()
    &&& forall|k: int|
        #![trigger after[k]]
        0 <= k < after.len() ==> exists|j: int|
            #![trigger before[j]]
            0 <= j < before.len() && same_entry(before[j], after[k]) && match before[j].children {
                Some(below) => after[k].children is Some && reordered(
                    below@,
                    after[k].children->0@,
                ),
                None => after[k].children is None,
            }
    &&& forall|j: int| 0 <= j < before.len() ==> has_twin(after, #[trigger] before[j])
}

/// `after` is `before` with the levels below it put in some other order: the
/// node itself is unchanged but for that.
pub open spec fn reordered_node(before: FileNode, after: FileNode) -> bool {
    &&& same_entry(before, after)
    &&& match before.children {
        Some(below) => after.children is Some && reordered(below@, after.children->0@),
        None => after.children is None,
    }
}

/// Two sequences with the same multiset of members are equally long and each
/// holds every member of the other.
pub proof fn lemma_same_members<T>(a: Seq<T>, b: Seq<T>)
    requires
        a.to_multiset() == b.to_multiset(),
    ensures
        a.len() == b.len(),
        forall|k: int| 0 <= k < b.len() ==> a.contains(#[trigger] b[k]),
        forall|j: int| 0 <= j < a.len() ==> b.contains(#[trigger] a[j]),
{
    a.to_multiset_ensures();
    b.to_multiset_ensures();
    assert(a.len() == a.to_multiset().len());
    assert(b.len() == b.to_multiset().len());
    assert forall|k: int| 0 <= k < b.len() implies a.contains(#[trigger] b[k]) by {
        assert(b.contains(b[k]));
        assert(b.to_multiset().count(b[k]) > 0);
    }
    assert forall|j: int| 0 <= j < a.len() implies b.contains(#[trigger] a[j]) by {
        assert(a.contains(a[j]));
        assert(a.to_multiset().count(a[j]) > 0);
    }
}

/// What `is_level` asks of the node at one position: it stands for a child
/// of `parent`, and carries the level below it if it is a directory.
pub open spec fn is_child_node(
    node: FileNode,
    entries: Seq<EntryModel>,
    parent: Seq<char>,
    depth: nat,
    sorted: bool,
) -> bool
    recommends
        depth > 0,
{
    &&& stands_for_child(node, entries, parent)
    &&& match node.children {
        Some(below) => node.is_directory && is_level(
            below@,
            entries,
            node.path@,
            (depth - 1) as nat,
            sorted,
        ),
        None => !node.is_directory,
    }
}

/// A node that is reordered and sorted below is still the node of the same
/// entry, now with sorted levels below it.
proof fn lemma_sorting_keeps_node(
    before: FileNode,
    after: FileNode,
    entries: Seq<EntryModel>,
    parent: Seq<char>,
    depth: nat,
)
    requires
        depth > 0,
        is_child_node(before, entries, parent, depth, false),
        reordered_node(before, after),
        match after.children {
            Some(below) => tree_sorted(below@),
            None => true,
        },
    ensures
        is_child_node(after, entries, parent, depth, true),
    decreases depth, 0nat,
{
    reveal(stands_for_child);
    let i = choose|i: int|
        0 <= i < entries.len() && (#[trigger] entries[i]).parent == parent && describes(
            before,
            entries[i],
        );
    assert(describes(after, entries[i]));
    match before.children {
        Some(below) => {
            lemma_sorting_keeps_level(
                below@,
                after.children->0@,
                entries,
                before.path@,
                (depth - 1) as nat,
            );
        },
        None => {},
    }
}

/// Sorting a tree keeps it the tree of the same entries: if `before` is the
/// level below `parent`, and `after` is `before` reordered and sorted at
/// every level, then `after` is the sorted level below `parent`.
pub proof fn lemma_sorting_keeps_level(
    before: Seq<FileNode>,
    after: Seq<FileNode>,
    entries: Seq<EntryModel>,
    parent: Seq<char>,
    depth: nat,
)
    requires
        is_level(before, entries, parent, depth, false),
        reordered(before, after),
        tree_sorted(after),
    ensures
        is_level(after, entries, parent, depth, true),
    decreases depth, 1nat,
{
    if depth > 0 {
        assert forall|k: int| 0 <= k < after.len() implies is_child_node(
            #[trigger] after[k],
            entries,
            parent,
            depth,
            true,
        ) by {
            let j = choose|j: int|
                #![trigger before[j]]
                0 <= j < before.len() && same_entry(before[j], after[k]) && match before[j].children {
                    Some(below) => after[k].children is Some && reordered(
                        below@,
                        after[k].children->0@,
                    ),
                    None => after[k].children is None,
                };
            assert(is_child_node(before[j], entries, parent, depth, false));
            lemma_sorting_keeps_node(before[j], after[k], entries, parent, depth);
        }
        assert forall|i: int|
            0 <= i < entries.len() && (#[trigger] entries[i]).parent == parent implies has_node(
            after,
            entries[i],
        ) by {
            assert(has_node(before, entries[i]));
            reveal(has_node);
            let j = choose|j: int| 0 <= j < before.len() && describes(#[trigger] before[j], entries[i]);
            assert(has_twin(after, before[j]));
            reveal(has_twin);
            let k = choose|k: int| 0 <= k < after.len() && same_entry(#[trigger] after[k], before[j]);
            assert(describes(after[k], entries[i]));
        }
    }
}

/// `property` holds of every node of the tree, at every level.
pub open spec fn all_nodes(nodes: Seq<FileNode>, property: spec_fn(FileNode) -> bool) -> bool
    decreases nodes,
{
    forall|k: int|
        0 <= k < nodes.len() ==> property(#[trigger] nodes[k]) && match nodes[k].children {
            Some(below) => all_nodes(below@, property),
            None => true,
        }
}

/// No node of the tree lies more than `depth` levels down, the nodes
/// themselves being at level one.
pub open spec fn within_depth(nodes: Seq<FileNode>, depth: nat) -> bool
    decreases depth,
{
    if depth == 0 {
        nodes.len() == 0
    } else {
        forall|k: int|
            0 <= k < nodes.len() ==> match (#[trigger] nodes[k]).children {
                Some(below) => within_depth(below@, (depth - 1) as nat),
                None => true,
            }
    }
}

/// Directories, and only they, carry children, at every level of the tree.
pub open spec fn well_shaped(nodes: Seq<FileNode>) -> bool
    decreases nodes,
{
    forall|k: int|
        0 <= k < nodes.len() ==> match (#[trigger] nodes[k]).children {
            Some(below) => nodes[k].is_directory && well_shaped(below@),
            None => !nodes[k].is_directory,
        }
}

/// The node describes one of the entries.
#[verifier::opaque]
pub open spec fn has_entry(entries: Seq<EntryModel>, node: FileNode) -> bool {
    exists|i: int| 0 <= i < entries.len() && describes(node, #[trigger] entries[i])
}

/// The property of describing one of `entries`.
pub open spec fn recorded_in(entries: Seq<EntryModel>) -> spec_fn(FileNode) -> bool {
    |node: FileNode| has_entry(entries, node)
}

/// What holds of every node of a tree for one property holds for every
/// property that follows from it.
pub proof fn lemma_all_nodes_implies(
    nodes: Seq<FileNode>,
    property: spec_fn(FileNode) -> bool,
    weaker: spec_fn(FileNode) -> bool,
)
    requires
        all_nodes(nodes, property),
        forall|node: FileNode| #[trigger] property(node) ==> weaker(node),
    ensures
        all_nodes(nodes, weaker),
    decreases nodes,
{
    assert forall|k: int| 0 <= k < nodes.len() implies weaker(#[trigger] nodes[k])
        && match nodes[k].children {
        Some(below) => all_nodes(below@, weaker),
        None => true,
    } by {
        assert(property(nodes[k]));
        match nodes[k].children {
            Some(below) => {
                lemma_all_nodes_implies(below@, property, weaker);
            },
            None => {},
        }
    }
}

/// Every node of the tree of a set of entries, at every level, describes one
/// of the entries.
pub proof fn lemma_level_nodes_recorded(
    nodes: Seq<FileNode>,
    entries: Seq<EntryModel>,
    parent: Seq<char>,
    depth: nat,
    sorted: bool,
)
    requires
        is_level(nodes, entries, parent, depth, sorted),
    ensures
        all_nodes(nodes, recorded_in(entries)),
    decreases depth,
{
    if depth > 0 {
        assert forall|k: int| 0 <= k < nodes.len() implies recorded_in(entries)(#[trigger] nodes[k])
            && match nodes[k].children {
            Some(below) => all_nodes(below@, recorded_in(entries)),
            None => true,
        } by {
            assert(stands_for_child(nodes[k], entries, parent));
            reveal(stands_for_child);
            reveal(has_entry);
            match nodes[k].children {
                Some(below) => {
                    lemma_level_nodes_recorded(
                        below@,
                        entries,
                        nodes[k].path@,
                        (depth - 1) as nat,
                        sorted,
                    );
                },
                None => {},
            }
        }
    }
}

/// The tree of a set of entries, cut off at `depth` levels, has no node below
/// level `depth`.
pub proof fn lemma_level_within_depth(
    nodes: Seq<FileNode>,
    entries: Seq<EntryModel>,
    parent: Seq<char>,
    depth: nat,
    sorted: bool,
)
    requires
        is_level(nodes, entries, parent, depth, sorted),
    ensures
        within_depth(nodes, depth),
    decreases depth,
{
    if depth > 0 {
        assert forall|k: int| 0 <= k < nodes.len() implies match (#[trigger] nodes[k]).children {
            Some(below) => within_depth(below@, (depth - 1) as nat),
            None => true,
        } by {
            match nodes[k].children {
                Some(below) => {
                    lemma_level_within_depth(
                        below@,
                        entries,
                        nodes[k].path@,
                        (depth - 1) as nat,
                        sorted,
                    );
                },
                None => {},
            }
        }
    }
}

/// In the tree of a set of entries directories, and only they, carry
/// children.
pub proof fn lemma_level_well_shaped(
    nodes: Seq<FileNode>,
    entries: Seq<EntryModel>,
    parent: Seq<char>,
    depth: nat,
    sorted: bool,
)
    requires
        is_level(nodes, entries, parent, depth, sorted),
    ensures
        well_shaped(nodes),
    decreases depth,
{
    if depth > 0 {
        assert forall|k: int| 0 <= k < nodes.len() implies match (#[trigger] nodes[k]).children {
            Some(below) => nodes[k].is_directory && well_shaped(below@),
            None => !nodes[k].is_directory,
        } by {
            match nodes[k].children {
                Some(below) => {
                    lemma_level_well_shaped(
                        below@,
                        entries,
                        nodes[k].path@,
                        (depth - 1) as nat,
                        sorted,
                    );
                },
                None => {},
            }
        }
    }
}

/// The sorted tree of a set of entries stands in order at every level:
/// directories before files, and within each kind by name without regard to
/// case.
pub proof fn lemma_level_sorted(
    nodes: Seq<FileNode>,
    entries: Seq<EntryModel>,
    parent: Seq<char>,
    depth: nat,
)
    requires
        is_level(nodes, entries, parent, depth, true),
    ensures
        tree_sorted(nodes),
    decreases depth,
{
    if depth > 0 {
        assert forall|k: int| 0 <= k < nodes.len() implies match (#[trigger] nodes[k]).children {
            Some(below) => tree_sorted(below@),
            None => true,
        } by {
            match nodes[k].children {
                Some(below) => {
                    lemma_level_sorted(below@, entries, nodes[k].path@, (depth - 1) as nat);
                },
                None => {},
            }
        }
    }
}

} // verus!
