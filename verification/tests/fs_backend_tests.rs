use fresh::fs_backend::{WasmFsBackend, WasmFsEntryType, WasmFsError};

#[test]
fn test_add_and_read_file() {
    let mut fs = WasmFsBackend::new();
    let path = "/test.txt";
    let content = b"Hello, world!".to_vec();

    fs.add_file(path, content.clone());

    let read = fs.read_file(path).unwrap();
    assert_eq!(read, content);
}

#[test]
fn test_directory_listing() {
    let mut fs = WasmFsBackend::new();
    fs.add_file("/file1.txt", vec![]);
    fs.add_file("/file2.txt", vec![]);

    let entries = fs.read_dir("/").unwrap();
    assert_eq!(entries.len(), 2);
}

#[test]
fn test_exists() {
    let mut fs = WasmFsBackend::new();
    let path = "/test.txt";

    assert!(!fs.path_exists(path));
    fs.add_file(path, vec![]);
    assert!(fs.path_exists(path));
}

#[test]
fn test_create_dir() {
    let mut fs = WasmFsBackend::new();
    let path = "/subdir";

    fs.create_dir(path);
    assert!(fs.is_dir(path));
}

#[test]
fn paths_with_the_same_components_find_the_same_file() {
    let mut fs = WasmFsBackend::new();
    fs.add_file("/a/b.txt", b"x".to_vec());
    assert_eq!(fs.read_file("/a//b.txt"), Some(b"x".to_vec()));
    assert_eq!(fs.read_file("/a/./b.txt/"), Some(b"x".to_vec()));
    assert!(fs.read_file("/a/c.txt").is_none());
    assert!(fs.is_dir("/a/"));
    assert!(fs.is_dir("//a"));
    // Writing through another spelling replaces the same file.
    fs.write_file("/a//b.txt", b"y".to_vec());
    assert_eq!(fs.list_all_files(), vec!["/a/b.txt".to_string()]);
    assert_eq!(fs.read_file("/a/b.txt"), Some(b"y".to_vec()));
}

#[test]
fn entry_keeps_the_spelling_asked_for() {
    let mut fs = WasmFsBackend::new();
    fs.add_file("/d/f.txt", b"abc".to_vec());
    let e = fs.get_entry("/d//f.txt").unwrap();
    assert_eq!(e.path, "/d//f.txt");
    assert_eq!(e.name, "f.txt");
    assert!(e.is_file());
    assert_eq!(e.metadata.unwrap().size, Some(3));
    assert_eq!(fs.get_entry("/nowhere").unwrap_err(), WasmFsError::NotFound);
}

#[test]
fn removing_through_another_spelling_removes_the_file_and_its_listing() {
    let mut fs = WasmFsBackend::new();
    fs.add_file("/d/f.txt", vec![]);
    fs.add_file("/d/g.txt", vec![]);
    assert!(fs.remove_file("/d/./f.txt").is_ok());
    assert!(!fs.path_exists("/d/f.txt"));
    let names: Vec<String> = fs.read_dir("/d/").unwrap().into_iter().map(|e| e.name).collect();
    assert_eq!(names, vec!["g.txt".to_string()]);
    assert_eq!(fs.remove_file("/d/f.txt"), Err(WasmFsError::FileNotFound));
}

#[test]
fn new_filesystem_has_only_the_root() {
    let fs = WasmFsBackend::new();
    assert!(fs.is_dir("/"));
    assert!(fs.path_exists("/"));
    assert!(fs.read_dir("/").unwrap().is_empty());
    assert!(fs.list_all_files().is_empty());
    assert!(!fs.path_exists("/x"));
    assert!(fs.read_file("/x").is_none());
}

#[test]
fn created_directory_exists_and_is_listed() {
    let mut fs = WasmFsBackend::new();
    fs.create_dir("/subdir");
    assert!(fs.is_dir("/subdir"));
    assert!(fs.path_exists("/subdir"));
    assert!(fs.read_file("/subdir").is_none());
    let entries = fs.read_dir("/").unwrap();
    assert_eq!(entries.len(), 1);
    assert_eq!(entries[0].name, "subdir");
    assert!(entries[0].is_dir());
}
