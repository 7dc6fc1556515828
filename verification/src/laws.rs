//! What holds of every scan: of the records of a walk, and of the tree that
//! is built from them.

use crate::config::AppConfig;
use crate::file_filters::{known_binary, likely_binary, skipped_directory, source_file};
use crate::scanner::{
    candidate, count_at, entry_count, kept, read_at, record_of, recorded, walk_counts, FileNode,
    WalkModel,
};
use crate::tokenizer::{counted, FileRead, Tokenizer};
use crate::tree::{
    all_nodes, describes, has_entry, has_node, is_level, lemma_all_nodes_implies,
    lemma_level_nodes_recorded, recorded_in, EntryModel,
};
use vstd::prelude::*;

verus! {

/// The record is that of a walked entry that is kept, with the count at the
/// position of that entry.
#[verifier::opaque]
pub open spec fn from_walk(
    record: EntryModel,
    walked: Seq<WalkModel>,
    counts: Seq<Option<usize>>,
    root: Seq<char>,
    config: AppConfig,
) -> bool {
    exists|j: int|
        0 <= j < walked.len() && kept(#[trigger] walked[j], root, config) && record == record_of(
            walked[j],
            count_at(counts, j),
            config,
        )
}

/// The node describes the record of a walked entry that is kept.
#[verifier::opaque]
pub open spec fn node_from_walk(
    node: FileNode,
    walked: Seq<WalkModel>,
    counts: Seq<Option<usize>>,
    root: Seq<char>,
    config: AppConfig,
) -> bool {
    exists|j: int|
        0 <= j < walked.len() && kept(#[trigger] walked[j], root, config) && describes(
            node,
            record_of(walked[j], count_at(counts, j), config),
        )
}

/// The property of describing the record of a walked entry that is kept.
pub open spec fn made_from_walk(
    walked: Seq<WalkModel>,
    counts: Seq<Option<usize>>,
    root: Seq<char>,
    config: AppConfig,
) -> spec_fn(FileNode) -> bool {
    |node: FileNode| node_from_walk(node, walked, counts, root, config)
}

/// The property of not being a directory on the pruning list.
pub open spec fn not_pruned() -> spec_fn(FileNode) -> bool {
    |node: FileNode| !(node.is_directory && skipped_directory(node.name@))
}

/// The property of carrying a count only as a source file, and of being
/// source only as a file.
pub open spec fn counts_only_source() -> spec_fn(FileNode) -> bool {
    |node: FileNode|
        (node.is_source_file ==> !node.is_directory) && (node.token_count is Some
            ==> node.is_source_file && !node.is_directory)
}

/// The property of not being the entry at `root`.
pub open spec fn not_at(root: Seq<char>) -> spec_fn(FileNode) -> bool {
    |node: FileNode| node.path@ != root
}

/// The property of carrying no count.
pub open spec fn uncounted() -> spec_fn(FileNode) -> bool {
    |node: FileNode| node.token_count is None
}

/// The property of carrying a count only as the node of a walked entry that
/// is a candidate for counting, and so within the size limit.
pub open spec fn counted_as_candidate(
    walked: Seq<WalkModel>,
    counts: Seq<Option<usize>>,
    root: Seq<char>,
    config: AppConfig,
) -> spec_fn(FileNode) -> bool {
    |node: FileNode|
        node.token_count is Some ==> exists|j: int|
            0 <= j < walked.len() && kept(#[trigger] walked[j], root, config) && describes(
                node,
                record_of(walked[j], count_at(counts, j), config),
            ) && candidate(walked[j], config) && walked[j].size <= config.max_file_size
                && node.token_count == count_at(counts, j)
}

/// Classification depends on the name and the sample alone: equal names and
/// equal samples are classified alike.
pub proof fn lemma_classification_is_deterministic(
    name: Seq<char>,
    other_name: Seq<char>,
    sample: Option<Seq<u8>>,
    other_sample: Option<Seq<u8>>,
)
    requires
        name == other_name,
        sample == other_sample,
    ensures
        source_file(name) == source_file(other_name),
        known_binary(name) == known_binary(other_name),
        skipped_directory(name) == skipped_directory(other_name),
        likely_binary(name, sample) == likely_binary(other_name, other_sample),
{
}

/// A file with a source name has no binary name.
pub proof fn lemma_source_is_not_binary(name: Seq<char>)
    requires
        source_file(name),
    ensures
        !known_binary(name),
        !likely_binary(name, None),
{
}

/// The count of a file depends on its size, its content, the policy and the
/// tokenizer alone: two reads that produced the same bytes give the same
/// count.
pub proof fn lemma_count_is_deterministic(
    size: u64,
    read: FileRead,
    again: FileRead,
    config: AppConfig,
    tokenizer: Tokenizer,
)
    requires
        read matches FileRead::Content(bytes) && again matches FileRead::Content(other) && bytes@
            == other@,
    ensures
        counted(size, read, config, tokenizer) == counted(size, again, config, tokenizer),
{
}

/// A file larger than the size limit has no count, whatever its content; nor
/// has any file when counting is switched off.
pub proof fn lemma_no_count_beyond_limit(
    entry: WalkModel,
    read: FileRead,
    count: Option<usize>,
    config: AppConfig,
    tokenizer: Tokenizer,
)
    requires
        entry.size > config.max_file_size || !config.enable_token_counting,
    ensures
        counted(entry.size, read, config, tokenizer) is None,
        entry_count(entry, read, config, tokenizer) is None,
        record_of(entry, count, config).token_count is None,
{
}

/// An empty file that is a candidate for counting has zero tokens, whatever
/// reading it produced.
pub proof fn lemma_empty_file_counts_zero(
    entry: WalkModel,
    read: FileRead,
    config: AppConfig,
    tokenizer: Tokenizer,
)
    requires
        candidate(entry, config),
        entry.size == 0,
    ensures
        entry_count(entry, read, config, tokenizer) == Some(0usize),
{
}

/// Every record of a walk is that of a walked entry that is kept.
pub proof fn lemma_records_from_walk(
    walked: Seq<WalkModel>,
    counts: Seq<Option<usize>>,
    root: Seq<char>,
    config: AppConfig,
)
    ensures
        forall|i: int|
            0 <= i < recorded(walked, counts, root, config).len() ==> from_walk(
                #[trigger] recorded(walked, counts, root, config)[i],
                walked,
                counts,
                root,
                config,
            ),
    decreases walked.len(),
{
    if walked.len() > 0 {
        let front = walked.drop_last();
        lemma_records_from_walk(front, counts, root, config);
        let records = recorded(walked, counts, root, config);
        let before = recorded(front, counts, root, config);
        assert forall|i: int| 0 <= i < records.len() implies from_walk(
            #[trigger] records[i],
            walked,
            counts,
            root,
            config,
        ) by {
            reveal(from_walk);
            if i < before.len() {
                assert(records[i] == before[i]);
                assert(from_walk(before[i], front, counts, root, config));
                let j = choose|j: int|
                    0 <= j < front.len() && kept(#[trigger] front[j], root, config) && before[i]
                        == record_of(front[j], count_at(counts, j), config);
                assert(walked[j] == front[j]);
            } else {
                let j = walked.len() - 1;
                assert(kept(walked[j], root, config));
            }
        }
    }
}

/// Every walked entry that is kept has its record among the records of the
/// walk.
pub proof fn lemma_kept_is_recorded(
    walked: Seq<WalkModel>,
    counts: Seq<Option<usize>>,
    root: Seq<char>,
    config: AppConfig,
    j: int,
)
    requires
        0 <= j < walked.len(),
        kept(walked[j], root, config),
    ensures
        recorded(walked, counts, root, config).contains(
            record_of(walked[j], count_at(counts, j), config),
        ),
    decreases walked.len(),
{
    let records = recorded(walked, counts, root, config);
    let front = walked.drop_last();
    let before = recorded(front, counts, root, config);
    let record = record_of(walked[j], count_at(counts, j), config);
    if j == walked.len() - 1 {
        assert(records[records.len() - 1] == record);
    } else {
        assert(front[j] == walked[j]);
        lemma_kept_is_recorded(front, counts, root, config, j);
        let i = choose|i: int| 0 <= i < before.len() && before[i] == record;
        assert(records[i] == record);
    }
}

/// Nothing that lies directly below the root and is kept is missing from the
/// tree of a walk: each such entry is described by a node of the top level.
pub proof fn lemma_top_level_is_complete(
    tree: Seq<FileNode>,
    walked: Seq<WalkModel>,
    counts: Seq<Option<usize>>,
    root: Seq<char>,
    config: AppConfig,
    j: int,
)
    requires
        config.max_depth > 0,
        is_level(
            tree,
            recorded(walked, counts, root, config),
            root,
            config.max_depth as nat,
            true,
        ),
        0 <= j < walked.len(),
        kept(walked[j], root, config),
        walked[j].parent == root,
    ensures
        has_node(tree, record_of(walked[j], count_at(counts, j), config)),
{
    let records = recorded(walked, counts, root, config);
    let record = record_of(walked[j], count_at(counts, j), config);
    lemma_kept_is_recorded(walked, counts, root, config, j);
    let i = choose|i: int| 0 <= i < records.len() && records[i] == record;
    assert(records[i].parent == root);
}

/// Every node of the tree of a walk, at every level, describes the record of
/// a walked entry that is kept.
pub proof fn lemma_tree_from_walk(
    tree: Seq<FileNode>,
    walked: Seq<WalkModel>,
    counts: Seq<Option<usize>>,
    root: Seq<char>,
    config: AppConfig,
    parent: Seq<char>,
    depth: nat,
    sorted: bool,
)
    requires
        is_level(tree, recorded(walked, counts, root, config), parent, depth, sorted),
    ensures
        all_nodes(tree, made_from_walk(walked, counts, root, config)),
{
    let records = recorded(walked, counts, root, config);
    lemma_level_nodes_recorded(tree, records, parent, depth, sorted);
    lemma_records_from_walk(walked, counts, root, config);
    assert forall|node: FileNode| #[trigger] recorded_in(records)(node) implies made_from_walk(
        walked,
        counts,
        root,
        config,
    )(node) by {
        reveal(has_entry);
        let i = choose|i: int| 0 <= i < records.len() && describes(node, #[trigger] records[i]);
        assert(from_walk(records[i], walked, counts, root, config));
        reveal(from_walk);
        reveal(node_from_walk);
    }
    lemma_all_nodes_implies(
        tree,
        recorded_in(records),
        made_from_walk(walked, counts, root, config),
    );
}

/// Pruning: no directory on the pruning list is a node of the tree of a
/// walk, at any level. Since a node hangs only below a node of the tree,
/// nothing below such a directory is in the tree either.
pub proof fn lemma_tree_is_pruned(
    tree: Seq<FileNode>,
    walked: Seq<WalkModel>,
    counts: Seq<Option<usize>>,
    root: Seq<char>,
    config: AppConfig,
    parent: Seq<char>,
    depth: nat,
    sorted: bool,
)
    requires
        is_level(tree, recorded(walked, counts, root, config), parent, depth, sorted),
    ensures
        all_nodes(tree, not_pruned()),
{
    lemma_tree_from_walk(tree, walked, counts, root, config, parent, depth, sorted);
    assert forall|node: FileNode| #[trigger]
        made_from_walk(walked, counts, root, config)(node) implies not_pruned()(node) by {
        reveal(node_from_walk);
    }
    lemma_all_nodes_implies(tree, made_from_walk(walked, counts, root, config), not_pruned());
}

/// The scan root is no node of the tree of a walk: no node has its path.
pub proof fn lemma_tree_excludes_root(
    tree: Seq<FileNode>,
    walked: Seq<WalkModel>,
    counts: Seq<Option<usize>>,
    root: Seq<char>,
    config: AppConfig,
    parent: Seq<char>,
    depth: nat,
    sorted: bool,
)
    requires
        is_level(tree, recorded(walked, counts, root, config), parent, depth, sorted),
    ensures
        all_nodes(tree, not_at(root)),
{
    lemma_tree_from_walk(tree, walked, counts, root, config, parent, depth, sorted);
    assert forall|node: FileNode| #[trigger]
        made_from_walk(walked, counts, root, config)(node) implies not_at(root)(node) by {
        reveal(node_from_walk);
    }
    lemma_all_nodes_implies(tree, made_from_walk(walked, counts, root, config), not_at(root));
}

/// In the tree of a walk only files are source, and only source files carry
/// a count.
pub proof fn lemma_tree_counts_only_source(
    tree: Seq<FileNode>,
    walked: Seq<WalkModel>,
    counts: Seq<Option<usize>>,
    root: Seq<char>,
    config: AppConfig,
    parent: Seq<char>,
    depth: nat,
    sorted: bool,
)
    requires
        is_level(tree, recorded(walked, counts, root, config), parent, depth, sorted),
    ensures
        all_nodes(tree, counts_only_source()),
{
    lemma_tree_from_walk(tree, walked, counts, root, config, parent, depth, sorted);
    assert forall|node: FileNode| #[trigger]
        made_from_walk(walked, counts, root, config)(node) implies counts_only_source()(node) by {
        reveal(node_from_walk);
    }
    lemma_all_nodes_implies(
        tree,
        made_from_walk(walked, counts, root, config),
        counts_only_source(),
    );
}

/// Size exclusion: a node of the tree of a walk carries a count only as the
/// node of a candidate for counting, whose size is within the limit. A file
/// larger than the limit is no candidate, so its node carries no count.
pub proof fn lemma_tree_counts_candidates(
    tree: Seq<FileNode>,
    walked: Seq<WalkModel>,
    counts: Seq<Option<usize>>,
    root: Seq<char>,
    config: AppConfig,
    parent: Seq<char>,
    depth: nat,
    sorted: bool,
)
    requires
        is_level(tree, recorded(walked, counts, root, config), parent, depth, sorted),
    ensures
        all_nodes(tree, counted_as_candidate(walked, counts, root, config)),
{
    lemma_tree_from_walk(tree, walked, counts, root, config, parent, depth, sorted);
    assert forall|node: FileNode| #[trigger]
        made_from_walk(walked, counts, root, config)(node) implies counted_as_candidate(
        walked,
        counts,
        root,
        config,
    )(node) by {
        reveal(node_from_walk);
    }
    lemma_all_nodes_implies(
        tree,
        made_from_walk(walked, counts, root, config),
        counted_as_candidate(walked, counts, root, config),
    );
}

/// With counting switched off no node of the tree of a walk carries a count.
pub proof fn lemma_tree_uncounted(
    tree: Seq<FileNode>,
    walked: Seq<WalkModel>,
    counts: Seq<Option<usize>>,
    root: Seq<char>,
    config: AppConfig,
    parent: Seq<char>,
    depth: nat,
    sorted: bool,
)
    requires
        is_level(tree, recorded(walked, counts, root, config), parent, depth, sorted),
        !config.enable_token_counting,
    ensures
        all_nodes(tree, uncounted()),
{
    lemma_tree_from_walk(tree, walked, counts, root, config, parent, depth, sorted);
    assert forall|node: FileNode| #[trigger]
        made_from_walk(walked, counts, root, config)(node) implies uncounted()(node) by {
        reveal(node_from_walk);
    }
    lemma_all_nodes_implies(tree, made_from_walk(walked, counts, root, config), uncounted());
}

/// Scanning the same walk twice, with reads that produced the same bytes,
/// gives the same counts.
pub proof fn lemma_rescan_counts_alike(
    walked: Seq<WalkModel>,
    reads: Seq<FileRead>,
    again: Seq<FileRead>,
    config: AppConfig,
    tokenizer: Tokenizer,
)
    requires
        reads.len() == again.len(),
        forall|i: int|
            0 <= i < reads.len() ==> match (#[trigger] reads[i], again[i]) {
                (FileRead::Content(bytes), FileRead::Content(other)) => bytes@ == other@,
                (FileRead::NotRead, FileRead::NotRead) => true,
                (FileRead::Failed(_), FileRead::Failed(_)) => true,
                _ => false,
            },
    ensures
        walk_counts(walked, reads, config, tokenizer) == walk_counts(
            walked,
            again,
            config,
            tokenizer,
        ),
{
    assert forall|i: int| 0 <= i < walked.len() implies entry_count(
        walked[i],
        read_at(reads, i),
        config,
        tokenizer,
    ) == entry_count(walked[i], read_at(again, i), config, tokenizer) by {
        if i < reads.len() {
            assert(match (reads[i], again[i]) {
                (FileRead::Content(bytes), FileRead::Content(other)) => bytes@ == other@,
                (FileRead::NotRead, FileRead::NotRead) => true,
                (FileRead::Failed(_), FileRead::Failed(_)) => true,
                _ => false,
            });
        }
    }
    assert(walk_counts(walked, reads, config, tokenizer) =~= walk_counts(
        walked,
        again,
        config,
        tokenizer,
    ));
}

} // verus!
