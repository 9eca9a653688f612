use wit::index::{list_index_records, IndexRecord};
use wit::model::{GitIndex, GitObjectType, GitTree};
use wit::oid::GitOid;
use wit::path::chars_of;
use wit::text::MaybeLossyUtf8;
use wit::tree::{
    gather_found, list_tree_items, walk_step, TreeItem, TreeRecord, TreeSearch, TreeStep,
};

const FILE_LIST: [&str; 14] = [
    "dir01/dir11/file1",
    "dir01/dir12/dir21/file1",
    "dir01/dir12/dir22/file1",
    "dir01/dir12/dir23/file1",
    "dir01/dir12/dir23/file2",
    "dir01/dir12/dir23/file3",
    "dir01/dir12/file1",
    "dir01/file1",
    "dir02/dir11/file1",
    "dir02/dir12/file1",
    "dir02/file1",
    "file1",
    "file2",
    "file3",
];

fn id(n: u8) -> GitOid {
    let mut raw = [0u8; 20];
    raw[19] = n;
    GitOid(raw)
}

fn record(path: &str, n: u8) -> IndexRecord {
    IndexRecord {
        path: MaybeLossyUtf8(path.to_string()),
        id: id(n),
        file_size: 10 + n as u32,
        mode: 0o100644,
        uid: 1000,
        gid: 100,
        ctime: 7,
        mtime: 8,
    }
}

fn records_of(paths: &[&str]) -> Vec<IndexRecord> {
    let mut records = Vec::new();
    for (n, path) in paths.iter().enumerate() {
        records.push(record(path, n as u8));
    }
    records
}

/// What a listing shows: `D name path` for a directory, `E name path` for a file.
fn shown(listing: &[GitIndex]) -> Vec<String> {
    listing
        .iter()
        .map(|line| match line {
            GitIndex::Directory(d) => format!("D {} {}", d.name.0, d.path.0),
            GitIndex::Entry(e) => format!("E {} {}", e.name.0, e.path.0),
        })
        .collect()
}

fn item(root: &str, name: &str, kind: GitObjectType, n: u8) -> TreeItem {
    TreeItem {
        root: root.to_string(),
        entry: TreeRecord {
            name: name.as_bytes().to_vec(),
            id: id(n),
            kind: Some(kind),
            filemode: if kind == GitObjectType::Tree { 0o040000 } else { 0o100644 },
        },
        short_id: String::new(),
    }
}

/// The walk of the tree that holds the files of `FILE_LIST`, in pre-order.
fn sample_walk() -> Vec<TreeItem> {
    let mut items: Vec<TreeItem> = Vec::new();
    let mut seen: Vec<String> = Vec::new();
    let mut n = 0u8;
    for file in FILE_LIST.iter() {
        let parts: Vec<&str> = file.split('/').collect();
        let mut root = String::new();
        for (depth, part) in parts.iter().enumerate() {
            let last = depth + 1 == parts.len();
            let full = format!("{root}{part}");
            if last {
                n += 1;
                items.push(item(&root, part, GitObjectType::Blob, n));
            } else if !seen.contains(&full) {
                n += 1;
                items.push(item(&root, part, GitObjectType::Tree, n));
                seen.push(full.clone());
            }
            root = format!("{full}/");
        }
    }
    items
}

fn tree_shown(listing: &[GitTree]) -> Vec<String> {
    listing
        .iter()
        .map(|line| format!("{}|{}", line.root, line.name.0))
        .collect()
}

#[test]
fn index_directory_before_file_in_first_seen_order() {
    let records = records_of(&["a/b/c", "a/b/d", "a/x"]);
    let listing = list_index_records(&records, "a");
    assert_eq!(shown(&listing), vec!["D b a/b", "E x a/x"]);
    match &listing[1] {
        GitIndex::Entry(e) => {
            assert_eq!(e.id, id(2));
            assert_eq!(e.file_size, 12);
            assert_eq!(e.mode, 0o100644);
            assert_eq!(e.uid, 1000);
            assert_eq!(e.gid, 100);
            assert_eq!(e.ctime, 7);
            assert_eq!(e.mtime, 8);
            assert_eq!(e.short_id, "");
        }
        GitIndex::Directory(_) => panic!("a/x is a file"),
    }
}

#[test]
fn tree_top_level_and_subtree() {
    let items = vec![
        item("", "README", GitObjectType::Blob, 1),
        item("", "src", GitObjectType::Tree, 2),
        item("src/", "main.ext", GitObjectType::Blob, 3),
    ];
    let top = list_tree_items(&items, "");
    assert_eq!(tree_shown(&top), vec!["|README", "|src"]);
    assert_eq!(top[0].kind, Some(GitObjectType::Blob));
    assert_eq!(top[1].kind, Some(GitObjectType::Tree));
    assert_eq!(top[1].id, id(2));
    assert_eq!(top[1].filemode, 0o040000);

    let src = list_tree_items(&items, "src");
    assert_eq!(tree_shown(&src), vec!["src/|main.ext"]);
    assert_eq!(src[0].root, "src/");
    assert_eq!(src[0].id, id(3));
    assert_eq!(src[0].short_id, "");
}

#[test]
fn index_sample_top_level() {
    let records = records_of(&FILE_LIST);
    let listing = list_index_records(&records, "");
    assert_eq!(
        shown(&listing),
        vec![
            "D dir01 dir01",
            "D dir02 dir02",
            "E file1 file1",
            "E file2 file2",
            "E file3 file3",
        ]
    );
}

#[test]
fn index_sample_nested_directory() {
    let records = records_of(&FILE_LIST);
    let listing = list_index_records(&records, "dir01/dir12");
    assert_eq!(
        shown(&listing),
        vec![
            "D dir21 dir01/dir12/dir21",
            "D dir22 dir01/dir12/dir22",
            "D dir23 dir01/dir12/dir23",
            "E file1 dir01/dir12/file1",
        ]
    );
}

#[test]
fn index_sample_leaf_directory_with_and_without_slash() {
    let records = records_of(&FILE_LIST);
    let expected = vec![
        "E file1 dir01/dir12/dir23/file1",
        "E file2 dir01/dir12/dir23/file2",
        "E file3 dir01/dir12/dir23/file3",
    ];
    assert_eq!(shown(&list_index_records(&records, "dir01/dir12/dir23")), expected);
    assert_eq!(shown(&list_index_records(&records, "dir01/dir12/dir23/")), expected);
}

#[test]
fn index_exact_match_is_one_file() {
    let records = records_of(&FILE_LIST);
    let listing = list_index_records(&records, "dir01/file1");
    assert_eq!(shown(&listing), vec!["E file1 dir01/file1"]);
    match &listing[0] {
        GitIndex::Entry(e) => assert_eq!(e.id, id(7)),
        GitIndex::Directory(_) => panic!("dir01/file1 is a file"),
    }
}

#[test]
fn index_exact_match_and_deeper_entries_come_together() {
    let records = records_of(&["a", "a/b", "a/c/d", "ab"]);
    let listing = list_index_records(&records, "a");
    assert_eq!(shown(&listing), vec!["E a a", "E b a/b", "D c a/c"]);
}

#[test]
fn index_unmatched_path_is_empty() {
    let records = records_of(&FILE_LIST);
    assert!(list_index_records(&records, "dir03").is_empty());
    assert!(list_index_records(&records, "dir0").is_empty());
    assert!(list_index_records(&records, "file").is_empty());
    assert!(list_index_records(&Vec::new(), "").is_empty());
}

#[test]
fn index_only_one_trailing_slash_is_ignored() {
    let records = records_of(&["a/b", "a//c"]);
    assert_eq!(shown(&list_index_records(&records, "a/")), vec!["E b a/b", "D  a/"]);
    assert_eq!(shown(&list_index_records(&records, "a//")), vec!["E c a//c"]);
    assert_eq!(shown(&list_index_records(&records, "/")), vec!["D a a"]);
}

#[test]
fn index_directory_appears_once_at_its_first_entry() {
    let records = records_of(&["z/1", "file", "a/1", "z/2", "a/2", "z/3/4"]);
    let listing = list_index_records(&records, "");
    assert_eq!(shown(&listing), vec!["D z z", "E file file", "D a a"]);
}

#[test]
fn index_lines_are_immediate_children() {
    let records = records_of(&FILE_LIST);
    for query in ["", "dir01", "dir01/dir12", "dir02"] {
        let depth = if query.is_empty() { 0 } else { query.split('/').count() };
        let listing = list_index_records(&records, query);
        assert!(!listing.is_empty());
        let mut paths: Vec<String> = Vec::new();
        for line in listing.iter() {
            let full = line.full_path().0.clone();
            let parts: Vec<&str> = full.split('/').collect();
            assert_eq!(parts.len(), depth + 1);
            if depth > 0 {
                assert_eq!(parts[..depth].join("/"), query);
            }
            assert!(!paths.contains(&full));
            paths.push(full);
        }
    }
}

#[test]
fn index_listing_twice_is_the_same() {
    let records = records_of(&FILE_LIST);
    let first = shown(&list_index_records(&records, "dir01"));
    let second = shown(&list_index_records(&records, "dir01"));
    assert_eq!(first, second);
    assert_eq!(first, vec!["D dir11 dir01/dir11", "D dir12 dir01/dir12", "E file1 dir01/file1"]);
}

#[test]
fn index_paths_beyond_ascii() {
    let records = records_of(&["d\u{e9}p\u{f4}t/\u{e9}t\u{e9}", "d\u{e9}p\u{f4}t/sub/\u{1f600}"]);
    let listing = list_index_records(&records, "d\u{e9}p\u{f4}t");
    assert_eq!(
        shown(&listing),
        vec![
            "E \u{e9}t\u{e9} d\u{e9}p\u{f4}t/\u{e9}t\u{e9}",
            "D sub d\u{e9}p\u{f4}t/sub",
        ]
    );
}

#[test]
fn tree_sample_listings() {
    let items = sample_walk();
    assert_eq!(
        tree_shown(&list_tree_items(&items, "")),
        vec!["|dir01", "|dir02", "|file1", "|file2", "|file3"]
    );
    let expected = vec![
        "dir01/dir12/dir23/|file1",
        "dir01/dir12/dir23/|file2",
        "dir01/dir12/dir23/|file3",
    ];
    assert_eq!(tree_shown(&list_tree_items(&items, "dir01/dir12/dir23")), expected);
    assert_eq!(tree_shown(&list_tree_items(&items, "dir01/dir12/dir23/")), expected);
    assert_eq!(tree_shown(&list_tree_items(&items, "dir01/file1")), vec!["dir01/|file1"]);
    assert_eq!(
        tree_shown(&list_tree_items(&items, "dir02")),
        vec!["dir02/|dir11", "dir02/|dir12", "dir02/|file1"]
    );
}

#[test]
fn tree_exact_file_is_alone_whatever_its_siblings() {
    let items = sample_walk();
    let listing = list_tree_items(&items, "dir01/dir12/file1");
    assert_eq!(listing.len(), 1);
    assert_eq!(listing[0].root, "dir01/dir12/");
    assert_eq!(listing[0].name.0, "file1");
    assert_eq!(listing[0].kind, Some(GitObjectType::Blob));
    assert_eq!(listing[0].filemode, 0o100644);
}

#[test]
fn tree_unmatched_path_is_empty() {
    let items = sample_walk();
    assert!(list_tree_items(&items, "dir03").is_empty());
    assert!(list_tree_items(&items, "dir01/none").is_empty());
    assert!(list_tree_items(&items, "dir01/file1/deeper").is_empty());
    assert!(list_tree_items(&Vec::new(), "a").is_empty());
    assert!(list_tree_items(&Vec::new(), "").is_empty());
}

#[test]
fn tree_empty_directory_is_empty() {
    let items = vec![item("", "empty", GitObjectType::Tree, 1), item("", "f", GitObjectType::Blob, 2)];
    assert!(list_tree_items(&items, "empty").is_empty());
}

#[test]
fn tree_first_entry_at_the_path_wins() {
    let items = vec![
        item("", "a", GitObjectType::Blob, 1),
        item("", "a", GitObjectType::Tree, 2),
        item("a/", "b", GitObjectType::Blob, 3),
    ];
    let listing = list_tree_items(&items, "a");
    assert_eq!(tree_shown(&listing), vec!["|a"]);
    assert_eq!(listing[0].id, id(1));
}

#[test]
fn tree_name_that_is_not_utf8_is_shown_lossily_and_walked_as_empty() {
    let items = vec![
        TreeItem {
            root: "d/".to_string(),
            entry: TreeRecord {
                name: vec![b'a', 0xff, b'b'],
                id: id(1),
                kind: Some(GitObjectType::Blob),
                filemode: 0o100644,
            },
            short_id: String::new(),
        },
    ];
    let listing = list_tree_items(&items, "d/");
    assert!(listing.is_empty());
    let record = &items[0].entry;
    assert_eq!(record.walk_name(), "");
    assert_eq!(record.line("d/").name.0, "a\u{fffd}b");
    let found = list_tree_items(&[
        TreeItem {
            root: "d".to_string(),
            entry: TreeRecord { name: vec![0xff], id: id(2), kind: None, filemode: 0 },
            short_id: String::new(),
        },
    ].into_iter().collect(), "d");
    assert_eq!(tree_shown(&found), vec!["d|\u{fffd}"]);
    assert_eq!(found[0].kind, None);
}

#[test]
fn walk_step_stops_skips_and_goes_on() {
    let query = chars_of("src/lib/a.rs");
    assert_eq!(walk_step(&query, "src/lib/", "a.rs", false), TreeStep::Found);
    assert_eq!(walk_step(&query, "", "src", true), TreeStep::Continue);
    assert_eq!(walk_step(&query, "src/", "lib", true), TreeStep::Continue);
    assert_eq!(walk_step(&query, "", "docs", true), TreeStep::Skip);
    assert_eq!(walk_step(&query, "", "sr", true), TreeStep::Skip);
    assert_eq!(walk_step(&query, "src/", "li", true), TreeStep::Skip);
    assert_eq!(walk_step(&query, "", "README", false), TreeStep::Continue);
    assert_eq!(walk_step(&query, "src/lib/", "a.rs", true), TreeStep::Found);
    assert_eq!(walk_step(&query, "src/lib/", "a.rs.bak", false), TreeStep::Continue);
    let top = chars_of("src");
    assert_eq!(walk_step(&top, "", "src", true), TreeStep::Found);
    assert_eq!(walk_step(&top, "", "", true), TreeStep::Skip);
}

#[test]
fn search_keeps_the_entry_at_the_path() {
    let mut search = TreeSearch::new("src/lib");
    let record = |name: &str, kind: GitObjectType, n: u8| TreeRecord {
        name: name.as_bytes().to_vec(),
        id: id(n),
        kind: Some(kind),
        filemode: 0,
    };
    assert_eq!(search.visit("", record("docs", GitObjectType::Tree, 1)), TreeStep::Skip);
    assert!(search.found.is_none());
    assert_eq!(search.visit("", record("src", GitObjectType::Tree, 2)), TreeStep::Continue);
    assert_eq!(search.visit("src/", record("bin", GitObjectType::Tree, 3)), TreeStep::Skip);
    assert!(search.found.is_none());
    assert_eq!(search.visit("src/", record("lib", GitObjectType::Tree, 4)), TreeStep::Found);
    let found = search.found.as_ref().unwrap_or_else(|| panic!("the entry is found"));
    assert_eq!(found.root, "src/");
    assert_eq!(found.entry.name, b"lib".to_vec());
    assert_eq!(found.entry.id, id(4));
    assert_eq!(search.query, chars_of("src/lib"));
}

#[test]
fn tree_lines_are_immediate_children_without_duplicates() {
    let items = sample_walk();
    for query in ["", "dir01", "dir01/dir12", "dir01/dir12/dir23", "dir02"] {
        let depth = if query.is_empty() { 0 } else { query.split('/').count() };
        let listing = list_tree_items(&items, query);
        assert!(!listing.is_empty());
        let mut paths: Vec<String> = Vec::new();
        for line in listing.iter() {
            let full = format!("{}{}", line.root, line.name.0);
            let parts: Vec<&str> = full.split('/').collect();
            assert_eq!(parts.len(), depth + 1);
            if depth > 0 {
                assert_eq!(parts[..depth].join("/"), query);
                assert_eq!(line.root, format!("{query}/"));
            } else {
                assert_eq!(line.root, "");
            }
            assert!(!paths.contains(&full));
            paths.push(full);
        }
    }
}

#[test]
fn tree_listing_twice_is_the_same() {
    let items = sample_walk();
    let first = tree_shown(&list_tree_items(&items, "dir01/dir12"));
    let second = tree_shown(&list_tree_items(&items, "dir01/dir12"));
    assert_eq!(first, second);
    assert_eq!(
        first,
        vec![
            "dir01/dir12/|dir21",
            "dir01/dir12/|dir22",
            "dir01/dir12/|dir23",
            "dir01/dir12/|file1",
        ]
    );
}

#[test]
fn tree_lines_carry_the_abbreviated_ids_of_their_items() {
    let mut items = vec![
        item("", "README", GitObjectType::Blob, 1),
        item("", "src", GitObjectType::Tree, 2),
        item("src/", "main.ext", GitObjectType::Blob, 3),
        item("src/", "lib", GitObjectType::Tree, 4),
    ];
    items[0].short_id = String::from("0000000");
    items[2].short_id = String::from("00000000000000");
    let top = list_tree_items(&items, "");
    assert_eq!(tree_shown(&top), vec!["|README", "|src"]);
    assert_eq!(top[0].short_id, "0000000");
    assert_eq!(top[1].short_id, "");
    let src = list_tree_items(&items, "src/");
    assert_eq!(tree_shown(&src), vec!["src/|main.ext", "src/|lib"]);
    assert_eq!(src[0].short_id, "00000000000000");
    let one = list_tree_items(&items, "README");
    assert_eq!(tree_shown(&one), vec!["|README"]);
    assert_eq!(one[0].short_id, "0000000");
    assert_eq!(items[0].line().short_id, "0000000");
    assert_eq!(items[0].line().id, id(1));
}

#[test]
fn what_a_search_found_is_gathered_for_a_listing() {
    assert!(gather_found(None, String::from("abc"), Vec::new()).is_empty());
    assert!(gather_found(None, String::new(), vec![item("a/", "x", GitObjectType::Blob, 9)]).is_empty());

    let blob = gather_found(
        Some(item("a/", "x", GitObjectType::Blob, 1)),
        String::from("0000000"),
        vec![item("a/x/", "ignored", GitObjectType::Blob, 2)],
    );
    assert_eq!(blob.len(), 1);
    assert_eq!(blob[0].root, "a/");
    assert_eq!(blob[0].entry.id, id(1));
    assert_eq!(blob[0].short_id, "0000000");
    assert_eq!(tree_shown(&list_tree_items(&blob, "a/x")), vec!["a/|x"]);
    assert_eq!(list_tree_items(&blob, "a/x")[0].short_id, "0000000");

    let mut first = item("a/b/", "one", GitObjectType::Blob, 3);
    first.short_id = String::from("0000000000");
    let tree = gather_found(
        Some(item("a/", "b", GitObjectType::Tree, 1)),
        String::from("stale"),
        vec![first, item("a/b/", "two", GitObjectType::Tree, 4)],
    );
    assert_eq!(tree.len(), 3);
    assert_eq!(tree[0].short_id, "");
    assert_eq!(tree[0].entry.id, id(1));
    let listed = list_tree_items(&tree, "a/b/");
    assert_eq!(tree_shown(&listed), vec!["a/b/|one", "a/b/|two"]);
    assert_eq!(listed[0].short_id, "0000000000");
    assert_eq!(listed[1].id, id(4));

    let empty_tree = gather_found(Some(item("", "d", GitObjectType::Tree, 1)), String::new(), Vec::new());
    assert_eq!(empty_tree.len(), 1);
    assert!(list_tree_items(&empty_tree, "d").is_empty());
}
