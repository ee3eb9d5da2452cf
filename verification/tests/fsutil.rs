use ncpages::fsutil::{count_files_with_extension, duplicate_basenames, is_conflict_copy, tree_hash};

#[test]
fn conflict_copies_are_recognised() {
    assert!(is_conflict_copy("note (conflicted copy 2026-08-14 120000).md"));
    assert!(!is_conflict_copy("note.md"));
}

#[test]
fn duplicate_basenames_are_found_across_directories() {
    let files = vec![
        "note.md".to_string(),
        "sub/note.md".to_string(),
        "other.md".to_string(),
    ];
    assert_eq!(duplicate_basenames(&files, "md"), vec!["note.md".to_string()]);
}

#[test]
fn duplicates_are_reported_once_and_sorted() {
    let files: Vec<String> = ["b.md", "x/b.md", "a.md", "y/a.md", "z/a.md", "c.txt", "d/c.txt"]
        .iter()
        .map(|s| s.to_string())
        .collect();
    assert_eq!(duplicate_basenames(&files, "md"), vec!["a.md".to_string(), "b.md".to_string()]);
}

#[test]
fn only_files_with_the_extension_are_counted() {
    let files: Vec<String> = ["index.html", "a/b.html", "style.css", "html", "x.html.bak"]
        .iter()
        .map(|s| s.to_string())
        .collect();
    assert_eq!(count_files_with_extension(&files, "html"), 2);
}

#[test]
fn tree_hash_ignores_timestamps_but_not_content() {
    let one = vec![("a.md".to_string(), b"one".to_vec())];
    let same = vec![("a.md".to_string(), b"one".to_vec())];
    let two = vec![("a.md".to_string(), b"two".to_vec())];
    assert_eq!(tree_hash(&one), tree_hash(&same));
    assert_ne!(tree_hash(&one), tree_hash(&two));
}

#[test]
fn tree_hash_is_lowercase_hex_sha256() {
    let h = tree_hash(&vec![]);
    assert_eq!(h, "e3b0c44298fc1c149afbf4c8996fb92427ae41e4649b934ca495991b7852b855");
}
