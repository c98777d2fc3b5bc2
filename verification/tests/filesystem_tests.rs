use fresh::filesystem::{FileSystem, NoopFileSystem};

#[test]
fn test_noop_filesystem() {
    let fs = NoopFileSystem;
    let path = "/some/path";

    assert!(fs.read_file(path).is_err());
    assert!(fs.read_range(path, 0, 10).is_err());
    assert!(fs.write_file(path, b"data").is_err());
    assert!(fs.metadata(path).is_err());
    assert!(fs.create_file(path).is_err());
    assert!(fs.open_file(path).is_err());
    assert!(fs.rename(path, path).is_err());
}
