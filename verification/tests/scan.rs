use token_scan::config::AppConfig;
use token_scan::error::AppError;
use token_scan::scanner::{
    should_visit, validate_root, walk_failure, DirectoryScanner, EntryInfo, FileNode, WalkEntry,
};
use token_scan::tokenizer::{FileRead, Tokenizer};

fn walk_entry(path: &str, depth: usize, is_directory: bool, size: u64) -> WalkEntry {
    let (parent, name) = match path.rfind('/') {
        Some(i) => (&path[..i], &path[i + 1..]),
        None => ("", path),
    };
    WalkEntry {
        name: name.to_string(),
        path: path.to_string(),
        parent: parent.to_string(),
        depth,
        is_directory,
        size,
    }
}

fn dir(path: &str, depth: usize) -> WalkEntry {
    walk_entry(path, depth, true, 4096)
}

fn file(path: &str, depth: usize, size: u64) -> WalkEntry {
    walk_entry(path, depth, false, size)
}

fn names(nodes: &[FileNode]) -> Vec<String> {
    nodes.iter().map(|n| n.name.clone()).collect()
}

fn children(node: &FileNode) -> &Vec<FileNode> {
    node.children.as_ref().unwrap()
}

fn height(nodes: &[FileNode]) -> usize {
    nodes
        .iter()
        .map(|n| match &n.children {
            Some(below) => 1 + height(below),
            None => 1,
        })
        .max()
        .unwrap_or(0)
}

fn all_uncounted(nodes: &[FileNode]) -> bool {
    nodes.iter().all(|n| {
        n.token_count.is_none()
            && match &n.children {
                Some(below) => all_uncounted(below),
                None => true,
            }
    })
}

fn contains_name(nodes: &[FileNode], name: &str) -> bool {
    nodes.iter().any(|n| {
        n.name == name
            || match &n.children {
                Some(below) => contains_name(below, name),
                None => false,
            }
    })
}

fn sorted_everywhere(nodes: &[FileNode]) -> bool {
    let level = nodes.windows(2).all(|pair| {
        let (a, b) = (&pair[0], &pair[1]);
        if a.is_directory != b.is_directory {
            a.is_directory
        } else {
            a.name.to_lowercase() <= b.name.to_lowercase()
        }
    });
    level
        && nodes.iter().all(|n| match &n.children {
            Some(below) => sorted_everywhere(below),
            None => true,
        })
}

fn shape_holds(nodes: &[FileNode]) -> bool {
    nodes.iter().all(|n| {
        n.children.is_some() == n.is_directory
            && (!n.is_source_file || !n.is_directory)
            && (n.token_count.is_none() || (n.is_source_file && !n.is_directory))
            && match &n.children {
                Some(below) => shape_holds(below),
                None => true,
            }
    })
}

fn scanner() -> DirectoryScanner {
    DirectoryScanner::new(AppConfig::default())
}

#[test]
fn scan_of_a_small_project() {
    let walked = vec![
        dir("/proj", 0),
        file("/proj/a.py", 1, 10),
        dir("/proj/node_modules", 1),
        file("/proj/node_modules/x.js", 2, 20),
        file("/proj/b.bin", 1, 4),
    ];
    let reads = vec![
        FileRead::NotRead,
        FileRead::Content(b"print(1)"),
        FileRead::NotRead,
        FileRead::Content(b"let x = 1;"),
        FileRead::Content(&[0x7f, b'E', b'L', b'F']),
    ];
    let tokenizer = Tokenizer::load();
    let tree = scanner().scan_directory("/proj", true, &walked, &reads, &tokenizer).unwrap();
    assert_eq!(tree.len(), 2);
    assert_eq!(tree[0].name, "a.py");
    assert_eq!(tree[0].path, "/proj/a.py");
    assert!(!tree[0].is_directory);
    assert!(tree[0].is_source_file);
    assert!(tree[0].children.is_none());
    assert_eq!(tree[0].token_count, Some(tokenizer.count("print(1)").unwrap()));
    assert!(tree[0].token_count.unwrap() > 0);
    assert_eq!(tree[1].name, "b.bin");
    assert!(!tree[1].is_directory);
    assert!(!tree[1].is_source_file);
    assert_eq!(tree[1].token_count, None);
    assert!(tree[1].children.is_none());
    assert!(!contains_name(&tree, "node_modules"));
    assert!(!contains_name(&tree, "x.js"));
}

#[test]
fn scan_with_counting_off() {
    let walked = vec![
        dir("/proj", 0),
        file("/proj/b.rs", 1, 5),
        dir("/proj/src", 1),
        file("/proj/src/Main.rs", 2, 5),
        file("/proj/src/lib.rs", 2, 5),
        file("/proj/a.py", 1, 8),
    ];
    let reads = vec![
        FileRead::NotRead,
        FileRead::Content(b"hello"),
        FileRead::NotRead,
        FileRead::Content(b"hello"),
        FileRead::Content(b"hello"),
        FileRead::Content(b"print(1)"),
    ];
    let tokenizer = Tokenizer::load();
    let mut config = AppConfig::default();
    config.enable_token_counting = false;
    let off = DirectoryScanner::new(config)
        .scan_directory("/proj", true, &walked, &reads, &tokenizer)
        .unwrap();
    let on = scanner().scan_directory("/proj", true, &walked, &reads, &tokenizer).unwrap();
    assert!(all_uncounted(&off));
    assert!(!all_uncounted(&on));
    assert_eq!(names(&off), vec!["src", "a.py", "b.rs"]);
    assert_eq!(names(&on), names(&off));
    assert_eq!(names(children(&off[0])), vec!["lib.rs", "Main.rs"]);
    assert_eq!(names(children(&on[0])), names(children(&off[0])));
    assert!(off[1].is_source_file);
    assert!(off[2].is_source_file);
}

#[test]
fn scan_of_a_missing_root() {
    let tokenizer = Tokenizer::load();
    match scanner().scan_directory("/nope", false, &vec![], &vec![], &tokenizer) {
        Err(AppError::InvalidPath(detail)) => assert_eq!(detail, "Invalid directory path: /nope"),
        _ => panic!("expected an invalid path"),
    }
    let walked = vec![dir("/nope", 0), file("/nope/a.py", 1, 0)];
    assert!(scanner().scan_directory("/nope", false, &walked, &vec![], &tokenizer).is_err());
    match validate_root("/nope", false) {
        Err(error) => assert_eq!(error.message(), "Invalid path: Invalid directory path: /nope"),
        Ok(_) => panic!("expected an invalid path"),
    }
    assert!(validate_root("/proj", true).is_ok());
}

#[test]
fn scan_of_an_empty_source_file() {
    let walked = vec![dir("/proj", 0), file("/proj/empty.rs", 1, 0)];
    let tokenizer = Tokenizer::load();
    let tree = scanner().scan_directory("/proj", true, &walked, &vec![], &tokenizer).unwrap();
    assert_eq!(tree.len(), 1);
    assert_eq!(tree[0].token_count, Some(0));
    assert!(tree[0].is_source_file);
    let unavailable = Tokenizer::unavailable();
    let tree = scanner().scan_directory("/proj", true, &walked, &vec![], &unavailable).unwrap();
    assert_eq!(tree[0].token_count, Some(0));
}

#[test]
fn scan_of_an_empty_directory() {
    let tokenizer = Tokenizer::load();
    let tree = scanner()
        .scan_directory("/proj", true, &vec![dir("/proj", 0)], &vec![], &tokenizer)
        .unwrap();
    assert!(tree.is_empty());
    let tree = scanner().scan_directory("/proj", true, &vec![], &vec![], &tokenizer).unwrap();
    assert!(tree.is_empty());
}

#[test]
fn scan_sorts_directories_first_and_ignores_case() {
    let walked = vec![
        dir("/p", 0),
        file("/p/b.txt", 1, 1),
        file("/p/A.txt", 1, 1),
        dir("/p/zeta", 1),
        file("/p/c.txt", 1, 1),
        dir("/p/Alpha", 1),
        file("/p/zeta/Y.rs", 2, 1),
        file("/p/zeta/x.rs", 2, 1),
        dir("/p/zeta/inner", 2),
        dir("/p/beta", 1),
    ];
    let tokenizer = Tokenizer::unavailable();
    let tree = scanner().scan_directory("/p", true, &walked, &vec![], &tokenizer).unwrap();
    assert_eq!(names(&tree), vec!["Alpha", "beta", "zeta", "A.txt", "b.txt", "c.txt"]);
    assert_eq!(names(children(&tree[2])), vec!["inner", "x.rs", "Y.rs"]);
    assert!(children(&tree[0]).is_empty());
    assert!(children(&children(&tree[2])[0]).is_empty());
    assert!(sorted_everywhere(&tree));
    assert!(shape_holds(&tree));
}

#[test]
fn scan_does_not_depend_on_the_order_of_the_walk() {
    let mut walked = vec![
        file("/p/src/deep/z.rs", 3, 1),
        file("/p/b.rs", 1, 1),
        dir("/p/src/deep", 2),
        file("/p/src/a.rs", 2, 1),
        dir("/p/src", 1),
        dir("/p", 0),
    ];
    let tokenizer = Tokenizer::unavailable();
    let tree = scanner().scan_directory("/p", true, &walked, &vec![], &tokenizer).unwrap();
    assert_eq!(names(&tree), vec!["src", "b.rs"]);
    assert_eq!(names(children(&tree[0])), vec!["deep", "a.rs"]);
    assert_eq!(names(children(&children(&tree[0])[0])), vec!["z.rs"]);
    walked.reverse();
    let again = scanner().scan_directory("/p", true, &walked, &vec![], &tokenizer).unwrap();
    assert_eq!(names(&again), vec!["src", "b.rs"]);
    assert_eq!(names(children(&again[0])), vec!["deep", "a.rs"]);
}

#[test]
fn scan_prunes_whole_subtrees() {
    let walked = vec![
        dir("/p", 0),
        dir("/p/src", 1),
        dir("/p/src/Target", 2),
        file("/p/src/Target/out.rs", 3, 1),
        dir("/p/src/Target/debug", 3),
        file("/p/src/Target/debug/deep.rs", 4, 1),
        file("/p/src/main.rs", 2, 1),
        dir("/p/.git", 1),
        file("/p/.git/config", 2, 1),
        file("/p/target", 1, 1),
    ];
    let tokenizer = Tokenizer::unavailable();
    let tree = scanner().scan_directory("/p", true, &walked, &vec![], &tokenizer).unwrap();
    assert_eq!(names(&tree), vec!["src", "target"]);
    assert!(!tree[1].is_directory);
    assert_eq!(names(children(&tree[0])), vec!["main.rs"]);
    for gone in ["Target", "out.rs", "debug", "deep.rs", ".git", "config"] {
        assert!(!contains_name(&tree, gone));
    }
}

#[test]
fn scan_keeps_a_root_with_a_pruned_name() {
    let walked = vec![dir("/work/build", 0), file("/work/build/a.rs", 1, 0)];
    let tokenizer = Tokenizer::unavailable();
    let tree = scanner().scan_directory("/work/build", true, &walked, &vec![], &tokenizer).unwrap();
    assert_eq!(names(&tree), vec!["a.rs"]);
    assert!(should_visit(0, true, "build"));
    assert!(!should_visit(1, true, "build"));
    assert!(!should_visit(3, true, "BUILD"));
    assert!(should_visit(1, false, "build"));
    assert!(should_visit(1, true, "src"));
}

#[test]
fn scan_stops_at_the_depth_limit() {
    let mut config = AppConfig::default();
    config.max_depth = 2;
    let walked = vec![
        dir("/p", 0),
        dir("/p/a", 1),
        dir("/p/a/b", 2),
        dir("/p/a/b/c", 3),
        file("/p/a/b/c/d.rs", 4, 0),
        file("/p/a/b/e.rs", 3, 0),
        file("/p/a/f.rs", 2, 0),
    ];
    let tokenizer = Tokenizer::unavailable();
    let tree = DirectoryScanner::new(config)
        .scan_directory("/p", true, &walked, &vec![], &tokenizer)
        .unwrap();
    assert_eq!(height(&tree), 2);
    assert_eq!(names(&tree), vec!["a"]);
    assert_eq!(names(children(&tree[0])), vec!["b", "f.rs"]);
    assert!(children(&children(&tree[0])[0]).is_empty());
    let full = scanner().scan_directory("/p", true, &walked, &vec![], &tokenizer).unwrap();
    assert_eq!(height(&full), 4);
    assert!(contains_name(&full, "d.rs"));
}

#[test]
fn scan_with_depth_limit_zero_is_empty() {
    let mut config = AppConfig::default();
    config.max_depth = 0;
    let walked = vec![dir("/p", 0), file("/p/a.rs", 1, 0)];
    let tokenizer = Tokenizer::unavailable();
    let tree = DirectoryScanner::new(config)
        .scan_directory("/p", true, &walked, &vec![], &tokenizer)
        .unwrap();
    assert!(tree.is_empty());
}

#[test]
fn scan_cuts_the_tree_at_the_limit_whatever_the_walk_says() {
    let mut config = AppConfig::default();
    config.max_depth = 1;
    let walked = vec![dir("/p/a", 1), file("/p/a/deep.rs", 1, 0)];
    let tokenizer = Tokenizer::unavailable();
    let tree = DirectoryScanner::new(config)
        .scan_directory("/p", true, &walked, &vec![], &tokenizer)
        .unwrap();
    assert_eq!(height(&tree), 1);
    assert_eq!(names(&tree), vec!["a"]);
    assert!(children(&tree[0]).is_empty());
}

#[test]
fn scan_never_counts_oversized_files() {
    let mut config = AppConfig::default();
    config.max_file_size = 4;
    let walked = vec![dir("/p", 0), file("/p/big.rs", 1, 5), file("/p/fits.rs", 1, 4)];
    let reads = vec![FileRead::NotRead, FileRead::Content(b"hello"), FileRead::Content(b"hell")];
    let tokenizer = Tokenizer::load();
    let tree = DirectoryScanner::new(config)
        .scan_directory("/p", true, &walked, &reads, &tokenizer)
        .unwrap();
    assert_eq!(names(&tree), vec!["big.rs", "fits.rs"]);
    assert!(tree[0].is_source_file);
    assert_eq!(tree[0].token_count, None);
    assert_eq!(tree[1].token_count, Some(tokenizer.count("hell").unwrap()));
}

#[test]
fn scan_survives_failures_of_single_files() {
    let walked = vec![
        dir("/p", 0),
        file("/p/a.rs", 1, 5),
        file("/p/b.rs", 1, 5),
        file("/p/c.rs", 1, 5),
        file("/p/d.rs", 1, 5),
        file("/p/e.rs", 1, 5),
    ];
    let reads = vec![
        FileRead::NotRead,
        FileRead::Failed("denied".to_string()),
        FileRead::Content(b"he\0lo"),
        FileRead::Content(&[b'h', b'e', 0xC3, b'l', b'o']),
        FileRead::Content(b"hello"),
    ];
    let tokenizer = Tokenizer::load();
    let tree = scanner().scan_directory("/p", true, &walked, &reads, &tokenizer).unwrap();
    assert_eq!(names(&tree), vec!["a.rs", "b.rs", "c.rs", "d.rs", "e.rs"]);
    assert_eq!(tree[0].token_count, None);
    assert_eq!(tree[1].token_count, None);
    assert_eq!(tree[2].token_count, None);
    assert_eq!(tree[3].token_count, Some(1));
    assert_eq!(tree[4].token_count, None);
    assert!(tree.iter().all(|n| n.is_source_file));
}

#[test]
fn scan_with_unavailable_tokenizer_has_no_counts() {
    let walked = vec![dir("/p", 0), file("/p/a.rs", 1, 5), file("/p/empty.rs", 1, 0)];
    let reads = vec![FileRead::NotRead, FileRead::Content(b"hello")];
    let tree = scanner()
        .scan_directory("/p", true, &walked, &reads, &Tokenizer::unavailable())
        .unwrap();
    assert_eq!(tree[0].token_count, None);
    assert_eq!(tree[1].token_count, Some(0));
}

#[test]
fn scan_twice_gives_the_same_counts() {
    let walked = vec![dir("/p", 0), file("/p/a.rs", 1, 30), file("/p/b.md", 1, 12)];
    let first_a = b"fn main() { println!(\"hi\"); }".to_vec();
    let second_a = first_a.clone();
    let tokenizer = Tokenizer::load();
    let reads = vec![FileRead::NotRead, FileRead::Content(&first_a), FileRead::Content(b"# Title\ntext")];
    let again = vec![FileRead::NotRead, FileRead::Content(&second_a), FileRead::Content(b"# Title\ntext")];
    let one = scanner().scan_directory("/p", true, &walked, &reads, &tokenizer).unwrap();
    let two = scanner().scan_directory("/p", true, &walked, &again, &Tokenizer::load()).unwrap();
    assert_eq!(one.len(), 2);
    for (a, b) in one.iter().zip(two.iter()) {
        assert_eq!(a.name, b.name);
        assert_eq!(a.token_count, b.token_count);
        assert!(a.token_count.unwrap() > 0);
    }
}

#[test]
fn candidates_for_counting() {
    let s = scanner();
    assert!(s.is_candidate(&file("/p/a.py", 1, 10)));
    assert!(s.is_candidate(&file("/p/a.py", 1, 0)));
    assert!(s.is_candidate(&file("/p/a.py", 1, 10 * 1024 * 1024)));
    assert!(!s.is_candidate(&file("/p/a.py", 1, 10 * 1024 * 1024 + 1)));
    assert!(!s.is_candidate(&file("/p/b.bin", 1, 10)));
    assert!(!s.is_candidate(&file("/p/notes.txt", 1, 10)));
    assert!(!s.is_candidate(&dir("/p/src.py", 1)));
    let mut config = AppConfig::default();
    config.enable_token_counting = false;
    assert!(!DirectoryScanner::new(config).is_candidate(&file("/p/a.py", 1, 10)));
}

#[test]
fn count_of_one_entry() {
    let s = scanner();
    let t = Tokenizer::load();
    let read = FileRead::Content(b"hello world");
    assert_eq!(s.count_entry(&file("/p/a.py", 1, 11), &read, &t), Some(2));
    assert_eq!(s.count_entry(&file("/p/a.txt", 1, 11), &read, &t), None);
    assert_eq!(s.count_entry(&dir("/p/a.py", 1), &read, &t), None);
    assert_eq!(s.count_entry(&file("/p/a.py", 1, u64::MAX), &read, &t), None);
    assert_eq!(s.count_entry(&file("/p/a.py", 1, 11), &FileRead::NotRead, &t), None);
    assert_eq!(s.count_entry(&file("/p/a.py", 1, 11), &FileRead::Failed("x".to_string()), &t), None);
    assert_eq!(s.count_entry(&file("/p/a.py", 1, 11), &read, &Tokenizer::unavailable()), None);
    assert_eq!(s.count_entry(&file("/p/a.py", 1, 0), &FileRead::NotRead, &t), Some(0));
}

#[test]
fn counts_of_a_walk() {
    let s = scanner();
    let t = Tokenizer::load();
    let walked = vec![dir("/p", 0), file("/p/a.py", 1, 11), file("/p/b.bin", 1, 11), file("/p/c.rs", 1, 5)];
    let reads = vec![FileRead::NotRead, FileRead::Content(b"hello world"), FileRead::Content(b"hello world")];
    assert_eq!(s.count_tokens(&walked, &reads, &t), vec![None, Some(2), None, None]);
    assert_eq!(s.count_tokens(&vec![], &reads, &t), Vec::<Option<usize>>::new());
}

#[test]
fn records_of_a_walk() {
    let s = scanner();
    let walked = vec![
        dir("/p", 0),
        file("/p/a.py", 1, 11),
        dir("/p/dist", 1),
        file("/p/b.bin", 1, 11),
        dir("/p/src", 1),
        file("/p/too/deep/down/a/b/c/d/e/f/g/h.rs", 11, 1),
    ];
    let counts = vec![Some(9), Some(7), Some(5), Some(3), Some(1)];
    let entries = s.collect_entries("/p", &walked, &counts);
    assert_eq!(entries.len(), 3);
    assert_eq!(entries[0].name, "a.py");
    assert_eq!(entries[0].path, "/p/a.py");
    assert_eq!(entries[0].parent, "/p");
    assert!(!entries[0].is_directory);
    assert!(entries[0].is_source_file);
    assert_eq!(entries[0].token_count, Some(7));
    assert_eq!(entries[1].name, "b.bin");
    assert!(!entries[1].is_source_file);
    assert_eq!(entries[1].token_count, None);
    assert_eq!(entries[2].name, "src");
    assert!(entries[2].is_directory);
    assert!(!entries[2].is_source_file);
    assert_eq!(entries[2].token_count, None);
    let none = s.collect_entries("/p", &walked, &vec![]);
    assert_eq!(none.len(), 3);
    assert_eq!(none[0].token_count, None);
}

fn record(path: &str, parent: &str, is_directory: bool, token_count: Option<usize>) -> EntryInfo {
    let name = path.rsplit('/').next().unwrap().to_string();
    EntryInfo {
        name,
        path: path.to_string(),
        parent: parent.to_string(),
        is_directory,
        is_source_file: !is_directory,
        token_count,
    }
}

#[test]
fn tree_of_records() {
    let entries = vec![
        record("/p/z.rs", "/p", false, Some(3)),
        record("/p/lib", "/p", true, None),
        record("/p/lib/b.rs", "/p/lib", false, Some(1)),
        record("/p/lib/A.rs", "/p/lib", false, None),
        record("/q/stray.rs", "/q", false, Some(8)),
    ];
    let tree = scanner().build_tree("/p", entries);
    assert_eq!(names(&tree), vec!["lib", "z.rs"]);
    assert_eq!(tree[1].token_count, Some(3));
    assert_eq!(tree[1].path, "/p/z.rs");
    assert_eq!(names(children(&tree[0])), vec!["A.rs", "b.rs"]);
    assert_eq!(children(&tree[0])[1].token_count, Some(1));
    assert!(!contains_name(&tree, "stray.rs"));
    assert!(shape_holds(&tree));
    assert!(scanner().build_tree("/p", vec![]).is_empty());
}

fn leaf(name: &str) -> FileNode {
    FileNode {
        name: name.to_string(),
        path: format!("/p/{}", name),
        is_directory: false,
        children: None,
        is_source_file: true,
        token_count: Some(name.len()),
    }
}

fn branch(name: &str, below: Vec<FileNode>) -> FileNode {
    FileNode {
        name: name.to_string(),
        path: format!("/p/{}", name),
        is_directory: true,
        children: Some(below),
        is_source_file: false,
        token_count: None,
    }
}

#[test]
fn sorting_a_tree() {
    let nodes = vec![
        leaf("b"),
        branch("y", vec![leaf("N"), leaf("m"), branch("k", vec![leaf("2"), leaf("1")])]),
        leaf("C"),
        branch("X", vec![]),
        leaf("a"),
    ];
    let sorted = scanner().sort_tree(nodes);
    assert_eq!(names(&sorted), vec!["X", "y", "a", "b", "C"]);
    assert_eq!(names(children(&sorted[1])), vec!["k", "m", "N"]);
    assert_eq!(names(children(&children(&sorted[1])[0])), vec!["1", "2"]);
    assert_eq!(sorted[4].token_count, Some(1));
    assert_eq!(sorted[4].path, "/p/C");
    assert!(sorted_everywhere(&sorted));
    assert!(scanner().sort_tree(vec![]).is_empty());
}

#[test]
fn sorting_compares_lowercase_bytes() {
    let nodes = vec![leaf("_x"), leaf("Zed"), leaf("apple"), leaf("Éclair"), leaf("10"), leaf("9")];
    let sorted = scanner().sort_tree(nodes);
    assert_eq!(names(&sorted), vec!["10", "9", "_x", "apple", "Zed", "Éclair"]);
}

#[test]
fn scanner_keeps_its_policy() {
    let mut config = AppConfig::default();
    config.max_depth = 3;
    config.max_file_size = 77;
    let s = DirectoryScanner::new(config);
    assert_eq!(s.config().max_depth, 3);
    assert_eq!(s.config().max_file_size, 77);
    assert!(s.config().enable_token_counting);
}

#[test]
fn walk_failures_end_the_scan_only_at_the_root() {
    match walk_failure(0, "/p: Permission denied") {
        Err(AppError::DirectoryScanError(detail)) => {
            assert_eq!(detail, "Error walking directory: /p: Permission denied")
        }
        _ => panic!("expected a scan error"),
    }
    assert!(walk_failure(1, "/p/a: Permission denied").is_ok());
    assert!(walk_failure(7, "").is_ok());
}

#[test]
fn scan_leaves_out_the_count_the_tokenizer_gives_up_on() {
    let spaces = " ".repeat(1_100_000) + "x";
    let walked = vec![dir("/p", 0), file("/p/a.rs", 1, spaces.len() as u64), file("/p/b.rs", 1, 5)];
    let reads = vec![
        FileRead::NotRead,
        FileRead::Content(spaces.as_bytes()),
        FileRead::Content(b"hello"),
    ];
    let tokenizer = Tokenizer::load();
    let tree = scanner().scan_directory("/p", true, &walked, &reads, &tokenizer).unwrap();
    assert_eq!(names(&tree), vec!["a.rs", "b.rs"]);
    assert_eq!(tree[0].token_count, None);
    assert_eq!(tree[1].token_count, Some(1));
}

#[test]
fn tree_of_a_counted_walk() {
    let walked = vec![
        dir("/p", 0),
        file("/p/a.py", 1, 8),
        file("/p/b.bin", 1, 8),
        dir("/p/src", 1),
        file("/p/src/big.rs", 2, u64::MAX),
        file("/p/src/ok.rs", 2, 3),
    ];
    let counts = vec![Some(1), Some(2), Some(3), Some(4), Some(5), Some(6)];
    let tree = scanner().tree_of_walk("/p", &walked, &counts);
    assert_eq!(names(&tree), vec!["src", "a.py", "b.bin"]);
    assert_eq!(tree[0].token_count, None);
    assert_eq!(tree[1].token_count, Some(2));
    assert_eq!(tree[2].token_count, None);
    assert_eq!(names(children(&tree[0])), vec!["big.rs", "ok.rs"]);
    assert_eq!(children(&tree[0])[0].token_count, None);
    assert_eq!(children(&tree[0])[1].token_count, Some(6));
    let short = scanner().tree_of_walk("/p", &walked, &vec![None, Some(2)]);
    assert_eq!(short[1].token_count, Some(2));
    assert_eq!(children(&short[0])[1].token_count, None);
}

#[test]
fn copies_of_a_tree() {
    let node = branch("y", vec![leaf("N"), branch("k", vec![leaf("2")]), leaf("m")]);
    let copy = node.clone();
    assert_eq!(copy.name, "y");
    assert_eq!(copy.path, "/p/y");
    assert!(copy.is_directory);
    assert_eq!(names(children(&copy)), vec!["N", "k", "m"]);
    assert_eq!(names(children(&children(&copy)[1])), vec!["2"]);
    assert_eq!(children(&copy)[0].token_count, Some(1));
    assert!(children(&copy)[0].children.is_none());
    assert_eq!(names(children(&node)), vec!["N", "k", "m"]);
}
