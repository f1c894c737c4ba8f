use embed_files::paths::{
    ancestors, extension_of, is_absolute_path, join_paths, normalize_path, relative_path,
    starts_with_path,
};

#[test]
fn normalize_like_components() {
    assert_eq!(normalize_path("a//b/./c/"), "a/b/c");
    assert_eq!(normalize_path("./src/main.rs"), "./src/main.rs");
    assert_eq!(normalize_path("/./a/."), "/a");
    assert_eq!(normalize_path("."), ".");
    assert_eq!(normalize_path("/"), "/");
    assert_eq!(normalize_path(""), "");
    assert_eq!(normalize_path("a/../b"), "a/../b");
}

#[test]
fn join_like_path_join() {
    assert_eq!(join_paths("/a", "b"), "/a/b");
    assert_eq!(join_paths("/a/", "b"), "/a/b");
    assert_eq!(join_paths("/a", "/b"), "/b");
    assert_eq!(join_paths("", "b"), "b");
    assert!(is_absolute_path("/x"));
    assert!(!is_absolute_path("x/y"));
}

#[test]
fn prefix_by_whole_components() {
    assert!(starts_with_path("/a/b/c", "/a/b"));
    assert!(starts_with_path("/a/b", "/a/b/"));
    assert!(!starts_with_path("/a/bc", "/a/b"));
    assert!(!starts_with_path("a/b", "/a"));
    assert_eq!(relative_path("/a/b/c.rs", "/a"), "b/c.rs");
    assert_eq!(relative_path("/x/c.rs", "/a"), "/x/c.rs");
    assert_eq!(relative_path("/a", "/a"), "");
}

#[test]
fn ancestors_nearest_first() {
    assert_eq!(ancestors("/a/b"), vec!["/a/b", "/a", "/"]);
    assert_eq!(ancestors("/"), vec!["/"]);
    assert_eq!(ancestors("a/b"), vec!["a/b", "a", ""]);
}

#[test]
fn extensions_like_path_extension() {
    assert_eq!(extension_of("src/main.rs"), Some("rs".to_string()));
    assert_eq!(extension_of("a/b.tar.gz"), Some("gz".to_string()));
    assert_eq!(extension_of(".gitignore"), None);
    assert_eq!(extension_of(".a.b"), Some("b".to_string()));
    assert_eq!(extension_of("Makefile"), None);
    assert_eq!(extension_of("a."), Some("".to_string()));
    assert_eq!(extension_of("dir/.."), None);
    assert_eq!(extension_of("/"), None);
}
