use pit_crew::digest::{digest_text, sha256_hex, to_hex};
use pit_crew::paths::{
    file_name_of, has_parent_part, parent_of, path_eq, path_has_extension, path_join,
    path_starts_with, sort_paths,
};
use pit_crew::text::{first_line_or, join, lines, split_once, to_decimal, trim};
use pit_crew::walk::{DirectoryEntry, DirectoryListing, EntryKind, Walk, WalkPolicy};

#[test]
fn digests_are_sha256() {
    assert_eq!(
        sha256_hex(b"abc"),
        "ba7816bf8f01cfea414140de5dae2223b00361a396177a9cb410ff61f20015ad"
    );
    assert_eq!(to_hex(&[0, 15, 255]), "000fff");
    assert!(digest_text(&"F".repeat(64)));
    assert!(!digest_text(&"g".repeat(64)));
    assert!(!digest_text(&"a".repeat(63)));
}

#[test]
fn paths_are_taken_apart() {
    assert_eq!(path_join("/a", "b"), "/a/b");
    assert_eq!(path_join("/a/", "b"), "/a/b");
    assert_eq!(path_join("/a", "/b"), "/b");
    assert_eq!(path_join("", "b"), "b");
    assert!(path_eq("a//b/./c/", "a/b/c"));
    assert!(!path_eq("./a", "a"));
    assert!(has_parent_part("a/../b"));
    assert!(!has_parent_part("a/..b"));
    assert_eq!(file_name_of("/a/b-c/").as_deref(), Some("b-c"));
    assert_eq!(file_name_of("/"), None);
    assert_eq!(parent_of("/a/b").as_deref(), Some("/a"));
    assert!(path_has_extension("x/a.go", "go"));
    assert!(!path_has_extension("x/.go", "go"));
    assert!(path_starts_with("/p/.pit/build", "/p/.pit"));
    assert!(!path_starts_with("/p/.pitx", "/p/.pit"));
    let sorted = sort_paths(vec!["b".to_string(), "a/b".to_string(), "a-b".to_string()]);
    assert_eq!(sorted, ["a/b", "a-b", "b"]);
}

#[test]
fn texts_are_taken_apart() {
    assert_eq!(trim("\t a b\n"), "a b");
    assert_eq!(lines("a\r\nb\n"), ["a", "b"]);
    assert_eq!(first_line_or("\nx", "none"), "");
    assert_eq!(first_line_or("", "none"), "none");
    assert_eq!(split_once("a:b:c", ':').unwrap(), ("a".to_string(), "b:c".to_string()));
    assert_eq!(join(&vec!["a".to_string(), "b".to_string()], ", "), "a, b");
    assert_eq!(to_decimal(0), "0");
    assert_eq!(to_decimal(65151), "65151");
}

fn entry(name: &str, kind: EntryKind) -> DirectoryEntry {
    DirectoryEntry { name: name.to_string(), kind }
}

#[test]
fn generated_directories_are_not_walked() {
    let mut walk = Walk::new(WalkPolicy::Project);
    let mut listed = Vec::new();
    while let Some(directory) = walk.next() {
        let entries = if directory.is_empty() {
            vec![
                entry(".pit", EntryKind::Directory),
                entry("node_modules", EntryKind::Directory),
                entry("src", EntryKind::Directory),
                entry("b.txt", EntryKind::File),
            ]
        } else {
            vec![entry("a.rs", EntryKind::File)]
        };
        walk.listed(&DirectoryListing::new(entries));
        listed.push(directory);
    }
    assert_eq!(listed, ["", "src"]);
    assert_eq!(walk.into_files(), ["b.txt", "src/a.rs"]);
}
