use dumpcode::config::DEFAULT_EXCLUDES;
use dumpcode::dump::generate_dump;
use dumpcode::walk::{
    generate_tree_view, EntryKind, ScanConfig, SelectedFile, TreeBuilder, WalkAction, WalkEntry,
};

const BRANCH: &str = "\u{251c}\u{2500}\u{2500} ";
const CORNER: &str = "\u{2514}\u{2500}\u{2500} ";

fn dir(name: &str, depth: usize) -> WalkEntry {
    WalkEntry { name: name.to_string(), depth, kind: EntryKind::Dir, size: 4096, content: None }
}

fn file(name: &str, depth: usize, size: u64) -> WalkEntry {
    WalkEntry { name: name.to_string(), depth, kind: EntryKind::File, size, content: None }
}

fn bare_file(name: &str, depth: usize, content: &[u8]) -> WalkEntry {
    WalkEntry {
        name: name.to_string(),
        depth,
        kind: EntryKind::File,
        size: content.len() as u64,
        content: Some(content.to_vec()),
    }
}

fn link(name: &str, depth: usize) -> WalkEntry {
    WalkEntry { name: name.to_string(), depth, kind: EntryKind::Symlink, size: 0, content: None }
}

fn config(exts: &[&str], excludes: &[&str], max_size_kb: usize, max_files: usize) -> ScanConfig {
    ScanConfig {
        extensions: exts.iter().map(|s| s.to_string()).collect(),
        exclude_dirs: excludes.iter().map(|s| s.to_string()).collect(),
        max_size_kb,
        max_files,
    }
}

fn paths(files: &[SelectedFile]) -> Vec<String> {
    files.iter().map(|f| f.path.clone()).collect()
}

#[test]
fn tree_format() {
    let entries = vec![dir("src", 1), dir("util", 2), file("a.rs", 3, 3000), file("lib.rs", 2, 10)];
    let (tree, files) = generate_tree_view(config(&["rs"], &[], 100, 10), "/work/proj", &entries);
    let expected = format!(
        "proj/\n{b}src/\n  {c}util/\n    {c}src/util/a.rs [2kb]\n  {c}src/lib.rs [0kb]\n",
        b = BRANCH,
        c = CORNER
    );
    assert_eq!(tree, expected);
    assert_eq!(paths(&files), vec!["src/util/a.rs".to_string(), "src/lib.rs".to_string()]);
    assert_eq!(files[0].name, "a.rs");
    assert_eq!(files[0].size, 3000);
}

#[test]
fn excluded_directory_and_descendants_are_absent() {
    let entries = vec![
        dir("node_modules", 1),
        dir("pkg", 2),
        file("index.rs", 3, 10),
        dir("src", 1),
        dir("node_modules", 2),
        file("deep.rs", 3, 10),
        file("main.rs", 2, 10),
    ];
    let (tree, files) =
        generate_tree_view(config(&["rs"], &["node_modules"], 100, 10), "p", &entries);
    assert!(!tree.contains("node_modules"));
    assert!(!tree.contains("pkg"));
    assert_eq!(paths(&files), vec!["src/main.rs".to_string()]);
}

#[test]
fn excluded_name_skips_children() {
    let mut b = TreeBuilder::new(config(&["rs"], &["target"], 100, 10), "p");
    assert_eq!(b.visit(&dir("target", 1)), WalkAction::SkipChildren);
    assert_eq!(b.visit(&file("x.rs", 2, 1)), WalkAction::Continue);
    assert_eq!(b.visit(&dir("src", 1)), WalkAction::Continue);
    let (tree, files) = b.finish();
    assert_eq!(tree, format!("p/\n{}src/\n", BRANCH));
    assert!(files.is_empty());
}

#[test]
fn size_boundary() {
    let entries = vec![file("edge.rs", 1, 2047), file("over.rs", 1, 2048), file("small.rs", 1, 1024)];
    let (tree, files) = generate_tree_view(config(&["rs"], &[], 1, 10), "p", &entries);
    assert_eq!(paths(&files), vec!["edge.rs".to_string(), "small.rs".to_string()]);
    assert!(tree.contains("edge.rs [1kb]"));
    assert!(!tree.contains("over.rs"));
}

#[test]
fn cap_stops_the_walk() {
    let entries = vec![
        file("a.rs", 1, 1),
        file("b.rs", 1, 1),
        dir("later", 1),
        file("c.rs", 2, 1),
    ];
    let (tree, files) = generate_tree_view(config(&["rs"], &[], 100, 2), "p", &entries);
    assert_eq!(paths(&files), vec!["a.rs".to_string(), "b.rs".to_string()]);
    assert!(!tree.contains("later"));
    let contents = vec![Some(b"a".to_vec()), Some(b"b".to_vec())];
    let doc = generate_dump(&tree, &files, &contents);
    assert_eq!(doc.matches("# file: ").count(), 2);
}

#[test]
fn cap_action_is_stop() {
    let mut b = TreeBuilder::new(config(&["rs"], &[], 100, 1), "p");
    assert_eq!(b.visit(&file("a.rs", 1, 1)), WalkAction::Continue);
    assert!(!b.is_stopped());
    assert_eq!(b.visit(&file("b.rs", 1, 1)), WalkAction::Stop);
    assert!(b.is_stopped());
    assert_eq!(b.visit(&file("c.rs", 1, 1)), WalkAction::Stop);
    assert_eq!(b.finish().1.len(), 1);
}

#[test]
fn zero_cap_shows_nothing() {
    let entries = vec![dir("src", 1), file("a.rs", 2, 1)];
    let (tree, files) = generate_tree_view(config(&["rs"], &[], 100, 0), "p", &entries);
    assert_eq!(tree, "p/\n");
    assert!(files.is_empty());
}

#[test]
fn links_are_never_shown() {
    let entries = vec![link("linked", 1), file("inner.rs", 2, 1), link("ln.rs", 1), file("real.rs", 1, 1)];
    let (tree, files) = generate_tree_view(config(&["rs"], &[], 100, 10), "p", &entries);
    assert!(!tree.contains("linked"));
    assert!(!tree.contains("ln.rs"));
    assert_eq!(paths(&files), vec!["real.rs".to_string()]);
}

#[test]
fn extension_case_and_dotfiles() {
    let entries = vec![
        file("UPPER.RS", 1, 1),
        file(".rs", 1, 1),
        file("archive.tar.rs", 1, 1),
        file("noext", 1, 1),
    ];
    let (_, files) = generate_tree_view(config(&["rs"], &[], 100, 10), "p", &entries);
    assert_eq!(paths(&files), vec!["UPPER.RS".to_string(), "archive.tar.rs".to_string()]);
}

#[test]
fn extensionless_files_need_a_tag() {
    let entries = vec![
        bare_file("Dockerfile", 1, b"FROM alpine\n"),
        bare_file("run", 1, b"#!/bin/sh\necho\n"),
        bare_file("LICENSE", 1, b"MIT\n"),
        bare_file("blob", 1, &[0xff, 0xfe, 0x46]),
        file("unread", 1, 3),
    ];
    let (_, files) = generate_tree_view(config(&["rs"], &[], 100, 10), "p", &entries);
    assert_eq!(paths(&files), vec!["Dockerfile".to_string(), "run".to_string()]);
}

#[test]
fn non_text_file_has_no_block() {
    let files = vec![
        SelectedFile { path: "a.rs".to_string(), name: "a.rs".to_string(), size: 2 },
        SelectedFile { path: "b.rs".to_string(), name: "b.rs".to_string(), size: 2 },
        SelectedFile { path: "c.rs".to_string(), name: "c.rs".to_string(), size: 2 },
    ];
    let contents = vec![Some(vec![0xc3, 0x28]), Some(b"ok".to_vec()), None];
    let doc = generate_dump("p/\n", &files, &contents);
    assert_eq!(doc, "# project structure\n\np/\n\n\n# file: b.rs\n\n```rust\nok\n```\n\n");
}

#[test]
fn dump_lowercases_extension_for_tag() {
    let files = vec![SelectedFile { path: "x/M.PY".to_string(), name: "M.PY".to_string(), size: 1 }];
    let doc = generate_dump("t", &files, &vec![Some(b"1".to_vec())]);
    assert_eq!(doc, "# project structure\n\nt\n\n# file: x/M.PY\n\n```python\n1\n```\n\n");
}

#[test]
fn same_input_same_output() {
    let make = || vec![dir("src", 1), file("a.rs", 2, 5), bare_file("README", 1, b"FROM x\n")];
    let run = || {
        let (tree, files) = generate_tree_view(ScanConfig::with_defaults(), "/r/p", &make());
        let contents: Vec<Option<Vec<u8>>> = files.iter().map(|_| Some(b"text".to_vec())).collect();
        generate_dump(&tree, &files, &contents)
    };
    assert_eq!(run(), run());
}

#[test]
fn end_to_end_default_config() {
    assert!(DEFAULT_EXCLUDES.contains("node_modules"));
    let entries = vec![
        bare_file("README", 1, b"FROM scratch\n"),
        dir("node_modules", 1),
        dir("pkg", 2),
        file("index.rs", 3, 100),
        dir("src", 1),
        file("main.rs", 2, 10240),
    ];
    let (tree, files) = generate_tree_view(ScanConfig::with_defaults(), "/tmp/proj", &entries);
    let expected_tree = format!(
        "proj/\n{b}README [0kb]\n{b}src/\n  {c}src/main.rs [10kb]\n",
        b = BRANCH,
        c = CORNER
    );
    assert_eq!(tree, expected_tree);
    assert_eq!(paths(&files), vec!["README".to_string(), "src/main.rs".to_string()]);
    let contents = vec![Some(b"FROM scratch\n".to_vec()), Some(b"fn main() {}".to_vec())];
    let doc = generate_dump(&tree, &files, &contents);
    let expected = format!(
        "# project structure\n\n{}\n\n# file: README\n\n```dockerfile\nFROM scratch\n\n```\n\n# file: src/main.rs\n\n```rust\nfn main() {{}}\n```\n\n",
        expected_tree
    );
    assert_eq!(doc, expected);
    assert!(!doc.contains("node_modules"));
}
