//! The scan itself: recording the entries of a walk, counting their tokens and
//! assembling the sorted tree.

use crate::config::AppConfig;
use crate::error::{AppError, AppResult};
use crate::file_filters::{
    is_likely_binary, is_source_file, likely_binary, should_skip_directory, skipped_directory,
    source_file,
};
use crate::laws::{
    counted_as_candidate, counts_only_source, lemma_tree_counts_candidates,
    lemma_tree_counts_only_source, lemma_tree_excludes_root, lemma_tree_is_pruned,
    lemma_tree_uncounted, not_at, not_pruned, uncounted,
};
use crate::order::sort_level;
use crate::text::str_eq;
use crate::tokenizer::{count_tokens_adaptive, counted, FileRead, Tokenizer};
use crate::tree::{
    all_nodes, child_positions, describes, has_node, has_twin, is_level, lemma_child_positions,
    lemma_level_well_shaped, lemma_level_within_depth, lemma_same_members,
    lemma_sorting_keeps_level, reordered, reordered_node, same_entry, same_tree,
    stands_for_child,
    tree_sorted, well_shaped, within_depth, EntryModel,
};
use vstd::hash_map::StringHashMap;
use vstd::prelude::*;
use vstd::string::*;

verus! {

/// One file system entry in the result tree.
#[derive(Debug)]
pub struct FileNode {
    /// Base name of the entry.
    pub name: String,
    /// Path of the entry.
    pub path: String,
    pub is_directory: bool,
    /// The entries of a directory; `None` for a file.
    pub children: Option<Vec<FileNode>>,
    pub is_source_file: bool,
    /// Number of tokens of a source file that was counted.
    pub token_count: Option<usize>,
}

impl Clone for FileNode {
    /// A copy of the node with all that lies below it.
    fn clone(&self) -> (copy: FileNode)
        ensures
            same_tree(*self, copy),
        decreases self,
    {
        let children = match &self.children {
            None => None,
            Some(below) => {
                let mut copies: Vec<FileNode> = Vec::new();
                let mut i: usize = 0;
                while i < below.len()
                    invariant
                        i <= below@.len(),
                        self.children == Some(*below),
                        copies@.len() == i,
                        forall|k: int| 0 <= k < i ==> same_tree(#[trigger] below@[k], copies@[k]),
                    decreases below@.len() - i,
                {
                    assert(decreases_to!(self.children->0 => below@[i as int]));
                    let copy = below[i].clone();
                    copies.push(copy);
                    i += 1;
                }
                Some(copies)
            },
        };
        FileNode {
            name: self.name.clone(),
            path: self.path.clone(),
            is_directory: self.is_directory,
            children,
            is_source_file: self.is_source_file,
            token_count: self.token_count,
        }
    }
}

/// An entry recorded during a scan, before the tree is assembled.
#[derive(Debug, Clone)]
pub struct EntryInfo {
    pub name: String,
    pub path: String,
    /// Path of the directory that holds the entry.
    pub parent: String,
    pub is_directory: bool,
    pub is_source_file: bool,
    pub token_count: Option<usize>,
}

impl View for EntryInfo {
    type V = EntryModel;

    open spec fn view(&self) -> EntryModel {
        EntryModel {
            name: self.name@,
            path: self.path@,
            parent: self.parent@,
            is_directory: self.is_directory,
            is_source_file: self.is_source_file,
            token_count: self.token_count,
        }
    }
}

/// What a directory walk reports of one entry.
#[derive(Debug, Clone)]
pub struct WalkEntry {
    /// Base name of the entry.
    pub name: String,
    /// Path of the entry.
    pub path: String,
    /// Path of the directory that holds the entry.
    pub parent: String,
    /// Level of the entry below the scan root, which is at level 0.
    pub depth: usize,
    pub is_directory: bool,
    /// Size of the entry in bytes.
    pub size: u64,
}

/// A walked entry as plain values.
pub struct WalkModel {
    pub name: Seq<char>,
    pub path: Seq<char>,
    pub parent: Seq<char>,
    pub depth: nat,
    pub is_directory: bool,
    pub size: u64,
}

impl View for WalkEntry {
    type V = WalkModel;

    open spec fn view(&self) -> WalkModel {
        WalkModel {
            name: self.name@,
            path: self.path@,
            parent: self.parent@,
            depth: self.depth as nat,
            is_directory: self.is_directory,
            size: self.size,
        }
    }
}

/// The models of a sequence of walked entries.
pub open spec fn walk_models(walked: Seq<WalkEntry>) -> Seq<WalkModel> {
    walked.map_values(|entry: WalkEntry| entry@)
}

/// A walk visits an entry: the scan root always, a directory below it unless
/// its name is on the pruning list, and every file.
pub open spec fn visited(depth: nat, is_directory: bool, name: Seq<char>) -> bool {
    depth == 0 || !(is_directory && skipped_directory(name))
}

/// A walked entry is recorded: it lies below the scan root and within the
/// depth limit, and it is no pruned directory.
pub open spec fn kept(entry: WalkModel, root: Seq<char>, config: AppConfig) -> bool {
    &&& 0 < entry.depth <= config.max_depth
    &&& entry.path != root
    &&& !(entry.is_directory && skipped_directory(entry.name))
}

/// A walked entry is classified as source: a file with a source name.
pub open spec fn classified_source(entry: WalkModel) -> bool {
    !entry.is_directory && source_file(entry.name)
}

/// A walked entry is a candidate for counting: a source file within the size
/// limit whose name is not that of a binary, with counting switched on.
pub open spec fn candidate(entry: WalkModel, config: AppConfig) -> bool {
    &&& classified_source(entry)
    &&& entry.size <= config.max_file_size
    &&& !likely_binary(entry.name, None)
    &&& config.enable_token_counting
}

/// The count at position `i`, or none where the counts do not reach.
pub open spec fn count_at(counts: Seq<Option<usize>>, i: int) -> Option<usize> {
    if 0 <= i < counts.len() {
        counts[i]
    } else {
        None
    }
}

/// The record of a walked entry: its name, path, parent and kind, whether it
/// is source, and the count it was given if it is a candidate.
pub open spec fn record_of(
    entry: WalkModel,
    count: Option<usize>,
    config: AppConfig,
) -> EntryModel {
    EntryModel {
        name: entry.name,
        path: entry.path,
        parent: entry.parent,
        is_directory: entry.is_directory,
        is_source_file: classified_source(entry),
        token_count: if candidate(entry, config) {
            count
        } else {
            None
        },
    }
}

/// The records of a walk: one for each entry that is kept, in the order of
/// the walk, with the count at the position of the entry.
pub open spec fn recorded(
    walked: Seq<WalkModel>,
    counts: Seq<Option<usize>>,
    root: Seq<char>,
    config: AppConfig,
) -> Seq<EntryModel>
    decreases walked.len(),
{
    if walked.len() == 0 {
        Seq::empty()
    } else {
        let front = recorded(walked.drop_last(), counts, root, config);
        if kept(walked.last(), root, config) {
            front.push(record_of(walked.last(), count_at(counts, walked.len() - 1), config))
        } else {
            front
        }
    }
}

/// What reading produced for the entry at position `i`, or `NotRead` where
/// the reads do not reach.
pub open spec fn read_at(reads: Seq<FileRead>, i: int) -> FileRead {
    if 0 <= i < reads.len() {
        reads[i]
    } else {
        FileRead::NotRead
    }
}

/// The count of a walked entry: that of its content if it is a candidate,
/// none otherwise.
pub open spec fn entry_count(
    entry: WalkModel,
    read: FileRead,
    config: AppConfig,
    tokenizer: Tokenizer,
) -> Option<usize> {
    if candidate(entry, config) {
        counted(entry.size, read, config, tokenizer)
    } else {
        None
    }
}

/// The counts of a walk: for each position the count of the entry there.
pub open spec fn walk_counts(
    walked: Seq<WalkModel>,
    reads: Seq<FileRead>,
    config: AppConfig,
    tokenizer: Tokenizer,
) -> Seq<Option<usize>> {
    Seq::new(walked.len(), |i: int| entry_count(walked[i], read_at(reads, i), config, tokenizer))
}

/// Detail text of the error for a scan root that is no directory, before the
/// path.
pub const INVALID_DIRECTORY: &'static str = "Invalid directory path: ";

/// Whether a walk visits an entry at `depth` below the scan root.
pub fn should_visit(depth: usize, is_directory: bool, name: &str) -> (visit: bool)
    ensures
        visit == visited(depth as nat, is_directory, name@),
{
    if depth == 0 {
        return true;
    }
    if is_directory {
        return !should_skip_directory(name);
    }
    true
}

/// Detail text of the error for a walk that failed at the scan root, before
/// the reason.
pub const WALK_FAILED: &'static str = "Error walking directory: ";

/// Judges a failure of the walk at `depth` below the scan root: at the root
/// itself it ends the scan, below it only the entry is lost.
pub fn walk_failure(depth: usize, reason: &str) -> (result: AppResult<()>)
    ensures
        depth > 0 ==> result is Ok,
        depth == 0 ==> (result matches Err(AppError::DirectoryScanError(detail)) && detail@
            == WALK_FAILED@ + reason@),
{
    if depth > 0 {
        Ok(())
    } else {
        Err(AppError::DirectoryScanError(String::from_str(WALK_FAILED).concat(reason)))
    }
}

/// Checks the scan root: it must exist and be a directory.
pub fn validate_root(folder_path: &str, root_is_directory: bool) -> (result: AppResult<()>)
    ensures
        root_is_directory ==> result is Ok,
        !root_is_directory ==> (result matches Err(AppError::InvalidPath(detail)) && detail@
            == INVALID_DIRECTORY@ + folder_path@),
{
    if root_is_directory {
        Ok(())
    } else {
        Err(AppError::InvalidPath(String::from_str(INVALID_DIRECTORY).concat(folder_path)))
    }
}

/// The models of a sequence of recorded entries.
pub open spec fn models(entries: Seq<EntryInfo>) -> Seq<EntryModel> {
    entries.map_values(|entry: EntryInfo| entry@)
}

/// The recorded entries grouped by the path of their parent.
struct ParentIndex {
    ids: StringHashMap<usize>,
    groups: Vec<Vec<usize>>,
}

impl ParentIndex {
    /// The positions that the index holds for a parent path.
    spec fn group_of(&self, parent: Seq<char>) -> Seq<int> {
        if self.ids@.contains_key(parent) && self.ids@[parent] < self.groups@.len() {
            self.groups@[self.ids@[parent] as int]@.map_values(|i: usize| i as int)
        } else {
            Seq::empty()
        }
    }

    /// No two parent paths share a group, and every group exists.
    spec fn well_formed(&self) -> bool {
        &&& forall|p: Seq<char>| #[trigger]
            self.ids@.contains_key(p) ==> self.ids@[p] < self.groups@.len()
        &&& forall|p: Seq<char>, q: Seq<char>|
            self.ids@.contains_key(p) && self.ids@.contains_key(q) && p != q ==> self.ids@[p]
                != self.ids@[q]
    }

    /// The index holds, for every parent path, the positions of its children.
    spec fn indexes(&self, entries: Seq<EntryModel>) -> bool {
        forall|p: Seq<char>| #[trigger] self.group_of(p) == child_positions(entries, p)
    }
}

/// Groups the entries by the path of their parent.
fn index_by_parent(entries: &Vec<EntryInfo>) -> (index: ParentIndex)
    ensures
        index.indexes(models(entries@)),
{
    let mut index = ParentIndex { ids: StringHashMap::new(), groups: Vec::new() };
    let ghost all = models(entries@);
    let mut i: usize = 0;
    while i < entries.len()
        invariant
            i <= entries@.len(),
            all == models(entries@),
            index.well_formed(),
            index.indexes(all.take(i as int)),
        decreases entries@.len() - i,
    {
        let ghost before = index;
        let parent = entries[i].parent.as_str();
        proof {
            let next = all.take(i + 1);
            assert(next.drop_last() =~= all.take(i as int));
            assert(next.last().parent == parent@);
        }
        match index.ids.get(parent) {
            Some(id) => {
                let g = *id;
                index.groups[g].push(i);
                proof {
                    assert forall|p: Seq<char>| #[trigger]
                        index.group_of(p) == child_positions(all.take(i + 1), p) by {
                        assert(before.group_of(p) == child_positions(all.take(i as int), p));
                        if p == parent@ {
                            assert(index.group_of(p) =~= before.group_of(p).push(i as int));
                        } else {
                            assert(index.group_of(p) =~= before.group_of(p));
                        }
                    }
                }
            },
            None => {
                let g = index.groups.len();
                let mut group: Vec<usize> = Vec::new();
                group.push(i);
                index.groups.push(group);
                index.ids.insert(entries[i].parent.clone(), g);
                proof {
                    assert forall|p: Seq<char>| #[trigger]
                        index.group_of(p) == child_positions(all.take(i + 1), p) by {
                        assert(before.group_of(p) == child_positions(all.take(i as int), p));
                        if p == parent@ {
                            assert(before.group_of(p) =~= Seq::<int>::empty());
                            assert(index.group_of(p) =~= Seq::<int>::empty().push(i as int));
                        } else {
                            assert(index.group_of(p) =~= before.group_of(p));
                        }
                    }
                }
            },
        }
        i += 1;
    }
    assert(all.take(i as int) =~= all);
    index
}

/// Scans directories under one policy.
pub struct DirectoryScanner {
    config: AppConfig,
}

impl DirectoryScanner {
    /// The policy of the scanner.
    pub closed spec fn policy(&self) -> AppConfig {
        self.config
    }

    /// A scanner with the given policy.
    pub fn new(config: AppConfig) -> (scanner: DirectoryScanner)
        ensures
            scanner.policy() == config,
    {
        DirectoryScanner { config }
    }

    /// The policy of the scanner.
    pub fn config(&self) -> (config: &AppConfig)
        ensures
            *config == self.policy(),
    {
        &self.config
    }

    /// Builds the level of nodes below `parent`, with the levels below each
    /// directory, down to `depth` levels. The nodes stand in the order in
    /// which the entries were recorded.
    fn assemble_tree(
        &self,
        parent: &str,
        entries: &Vec<EntryInfo>,
        index: &ParentIndex,
        depth: usize,
    ) -> (nodes: Vec<FileNode>)
        requires
            index.indexes(models(entries@)),
        ensures
            is_level(nodes@, models(entries@), parent@, depth as nat, false),
        decreases depth,
    {
        let mut nodes: Vec<FileNode> = Vec::new();
        if depth == 0 {
            return nodes;
        }
        let ghost all = models(entries@);
        let ghost positions = child_positions(all, parent@);
        proof {
            lemma_child_positions(all, parent@);
            assert(index.group_of(parent@) == positions);
        }
        match index.ids.get(parent) {
            None => {},
            Some(id) => {
                let g = *id;
                if g < index.groups.len() {
                    let group = &index.groups[g];
                    let mut k: usize = 0;
                    while k < group.len()
                        invariant
                            k <= group@.len(),
                            depth > 0,
                            all == models(entries@),
                            index.indexes(all),
                            positions == child_positions(all, parent@),
                            positions == group@.map_values(|i: usize| i as int),
                            forall|j: int|
                                0 <= j < positions.len() ==> {
                                    let i = #[trigger] positions[j];
                                    0 <= i < all.len() && all[i].parent == parent@
                                },
                            nodes@.len() == k,
                            forall|j: int|
                                0 <= j < k ==> describes(#[trigger] nodes@[j], all[positions[j]]),
                            forall|j: int|
                                0 <= j < k ==> match (#[trigger] nodes@[j]).children {
                                    Some(below) => nodes@[j].is_directory && is_level(
                                        below@,
                                        all,
                                        nodes@[j].path@,
                                        (depth - 1) as nat,
                                        false,
                                    ),
                                    None => !nodes@[j].is_directory,
                                },
                        decreases group@.len() - k,
                    {
                        let i = group[k];
                        assert(positions[k as int] == i);
                        let entry = &entries[i];
                        let children = if entry.is_directory {
                            Some(self.assemble_tree(entry.path.as_str(), entries, index, depth - 1))
                        } else {
                            None
                        };
                        nodes.push(
                            FileNode {
                                name: entry.name.clone(),
                                path: entry.path.clone(),
                                is_directory: entry.is_directory,
                                children,
                                is_source_file: entry.is_source_file,
                                token_count: entry.token_count,
                            },
                        );
                        k += 1;
                    }
                }
            },
        }
        proof {
            assert forall|k: int| 0 <= k < nodes@.len() implies stands_for_child(
                #[trigger] nodes@[k],
                all,
                parent@,
            ) by {
                let i = positions[k];
                assert(all[i].parent == parent@ && describes(nodes@[k], all[i]));
                reveal(stands_for_child);
            }
            assert forall|i: int|
                0 <= i < all.len() && (#[trigger] all[i]).parent == parent@ implies has_node(
                nodes@,
                all[i],
            ) by {
                assert(positions.contains(i));
                let j = choose|j: int| 0 <= j < positions.len() && positions[j] == i;
                assert(describes(nodes@[j], all[i]));
                reveal(has_node);
            }
        }
        nodes
    }

    /// Puts every level of the tree in order: directories before files, and
    /// within each kind by name without regard to case.
    pub fn sort_tree(&self, nodes: Vec<FileNode>) -> (sorted: Vec<FileNode>)
        ensures
            reordered(nodes@, sorted@),
            tree_sorted(sorted@),
        decreases nodes@,
    {
        let ghost given = nodes@;
        let mut pending = nodes;
        let mut sorted: Vec<FileNode> = Vec::new();
        while pending.len() > 0
            invariant
                given == nodes@,
                pending@ =~= given.take(pending@.len() as int),
                pending@.len() <= given.len(),
                sorted@.len() + pending@.len() == given.len(),
                forall|k: int|
                    0 <= k < sorted@.len() ==> reordered_node(
                        given[given.len() - 1 - k],
                        #[trigger] sorted@[k],
                    ),
                forall|k: int|
                    0 <= k < sorted@.len() ==> match (#[trigger] sorted@[k]).children {
                        Some(below) => tree_sorted(below@),
                        None => true,
                    },
            decreases pending@.len(),
        {
            let node = pending.pop().unwrap();
            assert(node == given[pending@.len() as int]);
            let FileNode { name, path, is_directory, children, is_source_file, token_count } =
                node;
            let children = match children {
                Some(below) => Some(self.sort_tree(below)),
                None => None,
            };
            sorted.push(
                FileNode { name, path, is_directory, children, is_source_file, token_count },
            );
        }
        let ghost unsorted = sorted@;
        sort_level(&mut sorted);
        proof {
            lemma_same_members(unsorted, sorted@);
            assert forall|k: int| 0 <= k < sorted@.len() implies match (#[trigger] sorted@[k]).children {
                Some(below) => tree_sorted(below@),
                None => true,
            } by {
                assert(unsorted.contains(sorted@[k]));
            }
            assert forall|k: int|
                #![trigger sorted@[k]]
                0 <= k < sorted@.len() implies exists|j: int|
                #![trigger given[j]]
                0 <= j < given.len() && same_entry(given[j], sorted@[k])
                    && match given[j].children {
                    Some(below) => sorted@[k].children is Some && reordered(
                        below@,
                        sorted@[k].children->0@,
                    ),
                    None => sorted@[k].children is None,
                } by {
                assert(unsorted.contains(sorted@[k]));
                let j = choose|j: int| 0 <= j < unsorted.len() && unsorted[j] == sorted@[k];
                assert(reordered_node(given[given.len() - 1 - j], sorted@[k]));
            }
            assert forall|j: int| 0 <= j < given.len() implies has_twin(
                sorted@,
                #[trigger] given[j],
            ) by {
                let m = given.len() - 1 - j;
                assert(reordered_node(given[given.len() - 1 - m], unsorted[m]));
                assert(sorted@.contains(unsorted[m]));
                let k = choose|k: int| 0 <= k < sorted@.len() && sorted@[k] == unsorted[m];
                assert(same_entry(sorted@[k], given[j]));
                reveal(has_twin);
            }
        }
        sorted
    }

    /// Builds the tree of the recorded entries below `root`: the entries
    /// grouped by parent, attached level by level down to the depth limit of
    /// the policy, and sorted at every level.
    pub fn build_tree(&self, root: &str, entries: Vec<EntryInfo>) -> (tree: Vec<FileNode>)
        ensures
            is_level(tree@, models(entries@), root@, self.policy().max_depth as nat, true),
            tree_sorted(tree@),
            within_depth(tree@, self.policy().max_depth as nat),
            well_shaped(tree@),
    {
        let index = index_by_parent(&entries);
        let nodes = self.assemble_tree(root, &entries, &index, self.config.max_depth);
        let ghost unsorted = nodes@;
        let tree = self.sort_tree(nodes);
        proof {
            let depth = self.config.max_depth as nat;
            lemma_sorting_keeps_level(unsorted, tree@, models(entries@), root@, depth);
            lemma_level_within_depth(tree@, models(entries@), root@, depth, true);
            lemma_level_well_shaped(tree@, models(entries@), root@, depth, true);
        }
        tree
    }

    /// Whether the walked entry is a candidate for counting.
    pub fn is_candidate(&self, entry: &WalkEntry) -> (wanted: bool)
        ensures
            wanted == candidate(entry@, self.policy()),
    {
        !entry.is_directory && is_source_file(entry.name.as_str()) && entry.size
            <= self.config.max_file_size && !is_likely_binary(entry.name.as_str(), None)
            && self.config.enable_token_counting
    }

    /// Counts the tokens of one walked entry, given what reading it produced.
    /// An entry that is no candidate has no count, and neither has one whose
    /// counting fails.
    pub fn count_entry(&self, entry: &WalkEntry, read: &FileRead, tokenizer: &Tokenizer) -> (count:
        Option<usize>)
        ensures
            count == entry_count(entry@, *read, self.policy(), *tokenizer),
            entry.size > self.policy().max_file_size ==> count is None,
            !self.policy().enable_token_counting ==> count is None,
    {
        if !self.is_candidate(entry) {
            return None;
        }
        match count_tokens_adaptive(entry.size, read, &self.config, tokenizer) {
            Ok(count) => count,
            Err(_) => None,
        }
    }

    /// Counts the tokens of every walked entry in turn. `reads` holds, at the
    /// position of each entry, what reading it produced; positions that are
    /// missing count as not read.
    pub fn count_tokens(
        &self,
        walked: &Vec<WalkEntry>,
        reads: &Vec<FileRead>,
        tokenizer: &Tokenizer,
    ) -> (counts: Vec<Option<usize>>)
        ensures
            counts@ == walk_counts(walk_models(walked@), reads@, self.policy(), *tokenizer),
    {
        let mut counts: Vec<Option<usize>> = Vec::new();
        let not_read = FileRead::NotRead;
        let mut i: usize = 0;
        while i < walked.len()
            invariant
                i <= walked@.len(),
                not_read == FileRead::NotRead,
                counts@.len() == i,
                forall|j: int|
                    0 <= j < i ==> counts@[j] == entry_count(
                        walked@[j]@,
                        read_at(reads@, j),
                        self.policy(),
                        *tokenizer,
                    ),
            decreases walked@.len() - i,
        {
            let count = if i < reads.len() {
                self.count_entry(&walked[i], &reads[i], tokenizer)
            } else {
                self.count_entry(&walked[i], &not_read, tokenizer)
            };
            counts.push(count);
            i += 1;
        }
        assert(counts@ =~= walk_counts(walk_models(walked@), reads@, self.policy(), *tokenizer));
        counts
    }

    /// Records the entries of a walk: every entry that lies below the scan
    /// root and within the depth limit and is no pruned directory, classified
    /// by its name, with its count if it is a candidate for counting.
    /// `counts` holds, at the position of each walked entry, the count that
    /// was obtained for it.
    pub fn collect_entries(
        &self,
        root: &str,
        walked: &Vec<WalkEntry>,
        counts: &Vec<Option<usize>>,
    ) -> (entries: Vec<EntryInfo>)
        ensures
            models(entries@) == recorded(walk_models(walked@), counts@, root@, self.policy()),
    {
        let mut entries: Vec<EntryInfo> = Vec::new();
        let ghost all = walk_models(walked@);
        let mut i: usize = 0;
        while i < walked.len()
            invariant
                i <= walked@.len(),
                all == walk_models(walked@),
                models(entries@) == recorded(all.take(i as int), counts@, root@, self.policy()),
            decreases walked@.len() - i,
        {
            let entry = &walked[i];
            proof {
                let next = all.take(i + 1);
                assert(next.drop_last() =~= all.take(i as int));
                assert(next.last() == entry@);
            }
            let below_root = entry.depth > 0 && entry.depth <= self.config.max_depth && !str_eq(
                entry.path.as_str(),
                root,
            );
            if below_root && should_visit(entry.depth, entry.is_directory, entry.name.as_str()) {
                let is_source = !entry.is_directory && is_source_file(entry.name.as_str());
                let token_count = if i < counts.len() && self.is_candidate(entry) {
                    counts[i]
                } else {
                    None
                };
                let ghost before = models(entries@);
                entries.push(
                    EntryInfo {
                        name: entry.name.clone(),
                        path: entry.path.clone(),
                        parent: entry.parent.clone(),
                        is_directory: entry.is_directory,
                        is_source_file: is_source,
                        token_count,
                    },
                );
                assert(models(entries@) =~= before.push(
                    record_of(entry@, count_at(counts@, i as int), self.policy()),
                ));
            }
            i += 1;
        }
        assert(all.take(i as int) =~= all);
        entries
    }

    /// Builds the tree of a walk whose counts are known: records the entries
    /// that are kept, with the count at the position of each candidate, and
    /// assembles and sorts them below `root`.
    pub fn tree_of_walk(
        &self,
        root: &str,
        walked: &Vec<WalkEntry>,
        counts: &Vec<Option<usize>>,
    ) -> (tree: Vec<FileNode>)
        ensures
            is_walk_tree(tree@, walk_models(walked@), counts@, root@, self.policy()),
    {
        let entries = self.collect_entries(root, walked, counts);
        let tree = self.build_tree(root, entries);
        proof {
            let depth = self.config.max_depth as nat;
            let models = walk_models(walked@);
            lemma_tree_excludes_root(
                tree@,
                models,
                counts@,
                root@,
                self.config,
                root@,
                depth,
                true,
            );
            lemma_tree_is_pruned(tree@, models, counts@, root@, self.config, root@, depth, true);
            lemma_tree_counts_only_source(
                tree@,
                models,
                counts@,
                root@,
                self.config,
                root@,
                depth,
                true,
            );
            lemma_tree_counts_candidates(
                tree@,
                models,
                counts@,
                root@,
                self.config,
                root@,
                depth,
                true,
            );
            if !self.config.enable_token_counting {
                lemma_tree_uncounted(
                    tree@,
                    models,
                    counts@,
                    root@,
                    self.config,
                    root@,
                    depth,
                    true,
                );
            }
        }
        tree
    }

    /// Scans a directory from what a walk reported of it and what reading its
    /// files produced.
    ///
    /// Fails with `InvalidPath` exactly when the root is no directory.
    /// Otherwise counts the candidates among the walked entries, records the
    /// entries that are kept, and returns the sorted tree of the root's
    /// descendants; the root itself is no node of the tree. `reads` holds, at
    /// the position of each walked entry, what reading it produced.
    pub fn scan_directory(
        &self,
        folder_path: &str,
        root_is_directory: bool,
        walked: &Vec<WalkEntry>,
        reads: &Vec<FileRead>,
        tokenizer: &Tokenizer,
    ) -> (result: AppResult<Vec<FileNode>>)
        ensures
            !root_is_directory ==> (result matches Err(AppError::InvalidPath(detail)) && detail@
                == INVALID_DIRECTORY@ + folder_path@),
            root_is_directory ==> (result matches Ok(tree) && is_scan_tree(
                tree@,
                walk_models(walked@),
                reads@,
                folder_path@,
                self.policy(),
                *tokenizer,
            )),
    {
        match validate_root(folder_path, root_is_directory) {
            Err(error) => Err(error),
            Ok(_) => {
                let counts = self.count_tokens(walked, reads, tokenizer);
                Ok(self.tree_of_walk(folder_path, walked, &counts))
            },
        }
    }
}

/// `tree` is the tree of a walk below `root` with the given counts: the
/// sorted tree of the records of the walk, down to the depth limit. It stands
/// in order at every level, reaches no deeper than the limit, holds neither
/// the root nor a pruned directory, gives children to directories only and
/// counts to source files only, and counts only candidates for counting: none
/// at all where counting is switched off.
pub open spec fn is_walk_tree(
    tree: Seq<FileNode>,
    walked: Seq<WalkModel>,
    counts: Seq<Option<usize>>,
    root: Seq<char>,
    config: AppConfig,
) -> bool {
    &&& is_level(
        tree,
        recorded(walked, counts, root, config),
        root,
        config.max_depth as nat,
        true,
    )
    &&& tree_sorted(tree)
    &&& within_depth(tree, config.max_depth as nat)
    &&& well_shaped(tree)
    &&& all_nodes(tree, not_at(root))
    &&& all_nodes(tree, not_pruned())
    &&& all_nodes(tree, counts_only_source())
    &&& all_nodes(tree, counted_as_candidate(walked, counts, root, config))
    &&& !config.enable_token_counting ==> all_nodes(tree, uncounted())
}

/// `tree` is the result of scanning what a walk reported below `root`: the
/// tree of the walk with the counts that the reads give.
pub open spec fn is_scan_tree(
    tree: Seq<FileNode>,
    walked: Seq<WalkModel>,
    reads: Seq<FileRead>,
    root: Seq<char>,
    config: AppConfig,
    tokenizer: Tokenizer,
) -> bool {
    is_walk_tree(tree, walked, walk_counts(walked, reads, config, tokenizer), root, config)
}

} // verus!
