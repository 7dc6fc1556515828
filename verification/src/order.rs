//! The order of the entries of one directory: directories first, then by name
//! without regard to case.

use crate::scanner::FileNode;
use crate::text::{
    bytes_le, lemma_bytes_le_antisymmetric, lemma_bytes_le_reflexive, lemma_bytes_le_total,
    lemma_bytes_le_transitive, lowercase, three_way, to_lowercase,
};
use std::cmp::Ordering;
use vstd::prelude::*;
use vstd::utf8::encode_utf8;

verus! {

/// What names are compared by: the UTF-8 bytes of the lowercase name.
pub open spec fn sort_key(name: Seq<char>) -> Seq<u8> {
    encode_utf8(lowercase(name))
}

/// An entry may stand before another: a directory before a file, and among
/// entries of one kind the one whose key is not greater.
pub open spec fn entry_le(a_dir: bool, a_name: Seq<char>, b_dir: bool, b_name: Seq<char>) -> bool {
    if a_dir != b_dir {
        a_dir
    } else {
        bytes_le(sort_key(a_name), sort_key(b_name))
    }
}

/// `a` may stand before `b` among the children of one directory.
pub open spec fn node_le(a: FileNode, b: FileNode) -> bool {
    entry_le(a.is_directory, a.name@, b.is_directory, b.name@)
}

/// The nodes stand in order: none stands before one that must precede it.
pub open spec fn level_sorted(nodes: Seq<FileNode>) -> bool {
    forall|i: int, j: int| 0 <= i < j < nodes.len() ==> node_le(nodes[i], nodes[j])
}

/// The order of entries is reflexive.
pub proof fn lemma_entry_le_reflexive(dir: bool, name: Seq<char>)
    ensures
        entry_le(dir, name, dir, name),
{
    lemma_bytes_le_reflexive(sort_key(name));
}

/// Of two entries one may stand before the other.
pub proof fn lemma_entry_le_total(a_dir: bool, a_name: Seq<char>, b_dir: bool, b_name: Seq<char>)
    ensures
        entry_le(a_dir, a_name, b_dir, b_name) || entry_le(b_dir, b_name, a_dir, a_name),
{
    lemma_bytes_le_total(sort_key(a_name), sort_key(b_name));
}

/// The order of entries is transitive.
pub proof fn lemma_entry_le_transitive(
    a_dir: bool,
    a_name: Seq<char>,
    b_dir: bool,
    b_name: Seq<char>,
    c_dir: bool,
    c_name: Seq<char>,
)
    requires
        entry_le(a_dir, a_name, b_dir, b_name),
        entry_le(b_dir, b_name, c_dir, c_name),
    ensures
        entry_le(a_dir, a_name, c_dir, c_name),
{
    if a_dir == b_dir && b_dir == c_dir {
        lemma_bytes_le_transitive(sort_key(a_name), sort_key(b_name), sort_key(c_name));
    }
}

/// In a sorted level no file stands before a directory.
pub proof fn lemma_directories_first(nodes: Seq<FileNode>, i: int, j: int)
    requires
        level_sorted(nodes),
        0 <= i < j < nodes.len(),
    ensures
        nodes[j].is_directory ==> nodes[i].is_directory,
        nodes[i].is_directory == nodes[j].is_directory ==> bytes_le(
            sort_key(nodes[i].name@),
            sort_key(nodes[j].name@),
        ),
{
    assert(node_le(nodes[i], nodes[j]));
}

/// Compares two nodes of one directory: `Less` if `a` must stand first,
/// `Greater` if `b` must, `Equal` if either order will do.
pub fn compare_nodes(a: &FileNode, b: &FileNode) -> (order: Ordering)
    ensures
        order == Ordering::Less <==> node_le(*a, *b) && !node_le(*b, *a),
        order == Ordering::Equal <==> node_le(*a, *b) && node_le(*b, *a),
        order == Ordering::Greater <==> !node_le(*a, *b),
{
    if a.is_directory != b.is_directory {
        if a.is_directory {
            Ordering::Less
        } else {
            Ordering::Greater
        }
    } else {
        let x = to_lowercase(a.name.as_str());
        let y = to_lowercase(b.name.as_str());
        let sign = three_way(x.as_str().as_bytes(), y.as_str().as_bytes());
        proof {
            let ka = sort_key(a.name@);
            let kb = sort_key(b.name@);
            lemma_bytes_le_reflexive(ka);
            lemma_bytes_le_total(ka, kb);
            if bytes_le(ka, kb) && bytes_le(kb, ka) {
                lemma_bytes_le_antisymmetric(ka, kb);
            }
        }
        if sign < 0 {
            Ordering::Less
        } else if sign == 0 {
            Ordering::Equal
        } else {
            Ordering::Greater
        }
    }
}

/// Calls `sort_unstable_by` of the standard library with `compare_nodes`,
/// which is a total order. Afterwards the vector holds the same nodes as
/// before, in ascending order; which of two nodes that compare equal comes
/// first is left open.
#[verifier::external_body]
pub(crate) fn sort_level(nodes: &mut Vec<FileNode>)
    ensures
        final(nodes)@.to_multiset() == old(nodes)@.to_multiset(),
        level_sorted(final(nodes)@),
{
    nodes.sort_unstable_by(|a, b| compare_nodes(a, b));
}

} // verus!
