use corvus::paths::{extension, file_name, file_stem, find_last, is_absolute, join, parent};

#[test]
fn join_relative_adds_one_separator() {
    assert_eq!(join("/home/user", "docs"), "/home/user/docs");
    assert_eq!(join("/home/user/", "docs"), "/home/user/docs");
    assert_eq!(join("", "docs"), "docs");
}

#[test]
fn join_absolute_replaces_base() {
    assert_eq!(join("/home/user", "/etc"), "/etc");
}

#[test]
fn absolute_paths_start_with_separator() {
    assert!(is_absolute("/"));
    assert!(!is_absolute("a/b"));
    assert!(!is_absolute(""));
}

#[test]
fn parent_of_paths() {
    assert_eq!(parent("/a/b"), Some("/a".to_string()));
    assert_eq!(parent("/a"), Some("/".to_string()));
    assert_eq!(parent("/"), None);
    assert_eq!(parent(""), None);
    assert_eq!(parent("a"), Some(String::new()));
}

#[test]
fn file_names_of_paths() {
    assert_eq!(file_name("/a/b.txt"), Some("b.txt".to_string()));
    assert_eq!(file_name("/"), None);
    assert_eq!(file_name("/a/.."), None);
    assert_eq!(file_name("name"), Some("name".to_string()));
}

#[test]
fn stems_and_extensions() {
    assert_eq!(file_stem("archive.tar.gz"), "archive.tar");
    assert_eq!(extension("archive.tar.gz"), Some("gz".to_string()));
    assert_eq!(file_stem(".bashrc"), ".bashrc");
    assert_eq!(extension(".bashrc"), None);
    assert_eq!(file_stem("README"), "README");
    assert_eq!(extension("README"), None);
    assert_eq!(file_stem(".."), "..");
    assert_eq!(extension(".."), None);
    assert_eq!(extension("a."), Some(String::new()));
}

#[test]
fn find_last_counts_characters() {
    assert_eq!(find_last("a/b/c", '/'), Some(3));
    assert_eq!(find_last("ä/b", '/'), Some(1));
    assert_eq!(find_last("abc", '/'), None);
}
