use fresh::plugin_paths::{path_basename, path_dirname, path_extname, path_is_absolute_str, path_join_parts};

#[test]
fn plugin_path_helpers() {
    assert_eq!(path_dirname("/foo/bar/baz.txt"), "/foo/bar");
    assert_eq!(path_basename("/foo/bar/baz.txt"), "baz.txt");
    assert_eq!(path_extname("/foo/bar/baz.txt"), ".txt");
    assert!(path_is_absolute_str("/foo/bar"));
    assert!(!path_is_absolute_str("foo/bar"));
    let parts = vec!["/foo".to_string(), "bar".to_string(), "baz".to_string()];
    assert_eq!(path_join_parts(&parts), "/foo/bar/baz");
}

#[test]
fn plugin_path_helpers_edge_cases() {
    // an absolute part starts over
    let parts = vec!["a".to_string(), "/b".to_string(), "c".to_string()];
    assert_eq!(path_join_parts(&parts), "/b/c");
    assert_eq!(path_join_parts(&vec![]), "");
    assert_eq!(path_dirname("/"), "");
    assert_eq!(path_basename("/"), "");
    assert_eq!(path_extname("Makefile"), "");
    assert_eq!(path_dirname("file.rs"), "");
}
