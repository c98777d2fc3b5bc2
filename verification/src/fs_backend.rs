//! In-memory filesystem: files and directory listings kept in memory, with
//! paths compared by their components.

use vstd::prelude::*;
use crate::assoc::{assoc_map, keys_distinct, find_key, lemma_assoc_map, lemma_assoc_update, lemma_assoc_push, lemma_assoc_remove};

verus! {

/// A path rebuilt from its components, as `std::path::Path::components`
/// collected into a `PathBuf` gives it. Paths that `Path` compares equal (such
/// as "/a/b", "/a//b" and "/a/./b/") have the same result.
pub uninterp spec fn std_path_key(path: Seq<char>) -> Seq<char>;

/// `Path::components` collected into a `PathBuf`: the form under which the
/// filesystem keys a path; the result is the named `std_path_key`.
#[verifier::external_body]
pub(crate) fn path_key(path: &str) -> (r: String)
    ensures
        r@ == std_path_key(path@),
{
    std::path::Path::new(path).components().collect::<std::path::PathBuf>().to_string_lossy().into_owned()
}

/// The parent of a path, as `std::path::Path::parent` gives it.
pub uninterp spec fn std_path_parent(path: Seq<char>) -> Option<Seq<char>>;

/// The last component of a path, as `std::path::Path::file_name` gives it.
pub uninterp spec fn std_path_file_name(path: Seq<char>) -> Option<Seq<char>>;

/// Whether a path is absolute, as `std::path::Path::is_absolute` tells it.
pub uninterp spec fn std_path_is_absolute(path: Seq<char>) -> bool;

/// `std::path::Path::is_absolute` on `path`; the result is the named `std_path_is_absolute`.
#[verifier::external_body]
pub(crate) fn path_is_absolute(path: &str) -> (r: bool)
    ensures
        r == std_path_is_absolute(path@),
{
    std::path::Path::new(path).is_absolute()
}

/// The extension of a path, as `std::path::Path::extension` gives it (when it
/// is valid UTF-8).
pub uninterp spec fn std_path_extension(path: Seq<char>) -> Option<Seq<char>>;

/// `std::path::Path::extension` on `path`, kept where it is valid UTF-8; the
/// result is the named `std_path_extension`.
#[verifier::external_body]
pub(crate) fn path_extension(path: &str) -> (r: Option<String>)
    ensures
        match r {
            Some(s) => std_path_extension(path@) == Some(s@),
            None => std_path_extension(path@) is None,
        },
{
    match std::path::Path::new(path).extension().and_then(|e| e.to_str()) {
        Some(e) => Some(e.to_string()),
        None => None,
    }
}

/// A path with `name` appended, as `std::path::Path::join` gives it.
pub uninterp spec fn std_path_join(path: Seq<char>, name: Seq<char>) -> Seq<char>;

/// `std::path::Path::parent` on `path`; the result is the named `std_path_parent`.
#[verifier::external_body]
pub(crate) fn path_parent(path: &str) -> (r: Option<String>)
    ensures
        match r {
            Some(s) => std_path_parent(path@) == Some(s@),
            None => std_path_parent(path@) is None,
        },
{
    match std::path::Path::new(path).parent() {
        Some(p) => Some(p.to_string_lossy().into_owned()),
        None => None,
    }
}

/// `std::path::Path::file_name` on `path`; the result is the named `std_path_file_name`.
#[verifier::external_body]
pub(crate) fn path_file_name(path: &str) -> (r: Option<String>)
    ensures
        match r {
            Some(s) => std_path_file_name(path@) == Some(s@),
            None => std_path_file_name(path@) is None,
        },
{
    match std::path::Path::new(path).file_name() {
        Some(n) => Some(n.to_string_lossy().into_owned()),
        None => None,
    }
}

/// `std::path::Path::join` of `path` and `name`; the result is the named `std_path_join`.
#[verifier::external_body]
pub(crate) fn path_join(path: &str, name: &str) -> (r: String)
    ensures
        r@ == std_path_join(path@, name@),
{
    std::path::Path::new(path).join(name).to_string_lossy().into_owned()
}

/// A point in time, carried through file metadata.
#[verifier::external_type_specification]
#[verifier::external_body]
pub struct ExSystemTime(std::time::SystemTime);

/// Type of filesystem entry
#[derive(Debug, Clone, Copy, PartialEq, Eq, Structural)]
pub enum WasmFsEntryType {
    File,
    Directory,
}

/// Metadata about a filesystem entry
#[derive(Debug, Clone, Copy)]
pub struct WasmFsMetadata {
    pub size: Option<u64>,
    pub modified: Option<std::time::SystemTime>,
}

/// Represents a file or directory entry in the virtual filesystem
#[derive(Debug, Clone)]
pub struct WasmFsEntry {
    pub path: String,
    pub name: String,
    pub entry_type: WasmFsEntryType,
    pub metadata: Option<WasmFsMetadata>,
}

/// Why a filesystem request failed.
#[derive(Debug, Clone, Copy, PartialEq, Eq, Structural)]
pub enum WasmFsError {
    /// The directory to list does not exist.
    DirectoryNotFound,
    /// The path names neither a file nor a directory.
    NotFound,
    /// The file to remove does not exist.
    FileNotFound,
}

impl WasmFsError {
    /// The error's message.
    pub fn message(&self) -> (r: &'static str)
        ensures
            r@ == match self {
                WasmFsError::DirectoryNotFound => "Directory not found"@,
                WasmFsError::NotFound => "Not found"@,
                WasmFsError::FileNotFound => "File not found"@,
            },
    {
        match self {
            WasmFsError::DirectoryNotFound => "Directory not found",
            WasmFsError::NotFound => "Not found",
            WasmFsError::FileNotFound => "File not found",
        }
    }
}

impl WasmFsEntry {
    pub fn new(path: String, name: String, entry_type: WasmFsEntryType) -> (r: Self)
        ensures
            r.path == path,
            r.name == name,
            r.entry_type == entry_type,
            r.metadata is None,
    {
        Self { path, name, entry_type, metadata: None }
    }

    pub fn with_metadata(self, metadata: WasmFsMetadata) -> (r: Self)
        ensures
            r.path == self.path,
            r.name == self.name,
            r.entry_type == self.entry_type,
            r.metadata == Some(metadata),
    {
        let mut s = self;
        s.metadata = Some(metadata);
        s
    }

    pub fn is_dir(&self) -> (r: bool)
        ensures
            r == (self.entry_type == WasmFsEntryType::Directory),
    {
        self.entry_type == WasmFsEntryType::Directory
    }

    pub fn is_file(&self) -> (r: bool)
        ensures
            r == (self.entry_type == WasmFsEntryType::File),
    {
        self.entry_type == WasmFsEntryType::File
    }
}

impl WasmFsMetadata {
    pub fn new() -> (r: Self)
        ensures
            r.size is None,
            r.modified is None,
    {
        Self { size: None, modified: None }
    }

    pub fn with_size(self, size: u64) -> (r: Self)
        ensures
            r.size == Some(size),
            r.modified == self.modified,
    {
        let mut s = self;
        s.size = Some(size);
        s
    }
}

impl Default for WasmFsMetadata {
    fn default() -> (r: Self)
        ensures
            r.size is None,
            r.modified is None,
    {
        Self::new()
    }
}

/// Abstract state of the in-memory filesystem: file contents by path, and the
/// child names listed under each directory path.
pub struct FsView {
    pub files: Map<Seq<char>, Seq<u8>>,
    pub dirs: Map<Seq<char>, Seq<Seq<char>>>,
}

/// In-memory filesystem
pub struct WasmFsBackend {
    /// Virtual filesystem: path -> content
    files: Vec<(String, Vec<u8>)>,
    /// Directory structure: path -> child names
    directories: Vec<(String, Vec<String>)>,
}

impl View for WasmFsBackend {
    type V = FsView;

    closed spec fn view(&self) -> FsView {
        FsView { files: assoc_map(self.files@), dirs: assoc_map(self.directories@) }
    }
}

/// The names listed under key `p`, or none when `p` is not a directory.
pub open spec fn children_of(d: Map<Seq<char>, Seq<Seq<char>>>, p: Seq<char>) -> Seq<Seq<char>> {
    if d.contains_key(p) { d[p] } else { Seq::empty() }
}

/// The name a path is listed under in its parent: its last component, or empty.
pub open spec fn name_of(p: Seq<char>) -> Seq<char> {
    match std_path_file_name(p) {
        Some(n) => n,
        None => Seq::empty(),
    }
}

/// The listings after `p` is recorded under its parent (when it has one).
pub open spec fn dirs_with_child(d: Map<Seq<char>, Seq<Seq<char>>>, p: Seq<char>) -> Map<Seq<char>, Seq<Seq<char>>> {
    match std_path_parent(p) {
        Some(par) => d.insert(std_path_key(par), children_of(d, std_path_key(par)).push(name_of(p))),
        None => d,
    }
}

/// The filesystem after a file is added (or overwritten) at `p`.
pub open spec fn spec_add_file(v: FsView, p: Seq<char>, c: Seq<u8>) -> FsView {
    FsView { files: v.files.insert(std_path_key(p), c), dirs: dirs_with_child(v.dirs, p) }
}

/// The listings with directory `p` present (added empty when missing).
pub open spec fn dirs_with_dir(d: Map<Seq<char>, Seq<Seq<char>>>, p: Seq<char>) -> Map<Seq<char>, Seq<Seq<char>>> {
    if d.contains_key(std_path_key(p)) { d } else { d.insert(std_path_key(p), Seq::empty()) }
}

/// The filesystem after directory `p` is created.
pub open spec fn spec_create_dir(v: FsView, p: Seq<char>) -> FsView {
    FsView { files: v.files, dirs: dirs_with_child(dirs_with_dir(v.dirs, p), p) }
}

/// `s` without the entries equal to `n`.
pub open spec fn without_name(s: Seq<Seq<char>>, n: Seq<char>) -> Seq<Seq<char>>
    decreases s.len(),
{
    if s.len() == 0 {
        s
    } else if s.last() == n {
        without_name(s.drop_last(), n)
    } else {
        without_name(s.drop_last(), n).push(s.last())
    }
}

/// The filesystem after file `p` (which exists) is removed: gone from the files,
/// and its name gone from its parent's listing.
pub open spec fn spec_remove_file(v: FsView, p: Seq<char>) -> FsView {
    FsView {
        files: v.files.remove(std_path_key(p)),
        dirs: match (std_path_parent(p), std_path_file_name(p)) {
            (Some(par), Some(n)) => if v.dirs.contains_key(std_path_key(par)) {
                v.dirs.insert(std_path_key(par), without_name(v.dirs[std_path_key(par)], n))
            } else {
                v.dirs
            },
            _ => v.dirs,
        },
    }
}

/// The entry `read_dir` reports for child `name` of directory `path`.
pub open spec fn entry_matches(v: FsView, path: Seq<char>, name: Seq<char>, e: WasmFsEntry) -> bool {
    &&& e.path@ == std_path_join(path, name)
    &&& e.name@ == name
    &&& e.entry_type == (if v.files.contains_key(std_path_key(std_path_join(path, name))) {
        WasmFsEntryType::File
    } else {
        WasmFsEntryType::Directory
    })
    &&& e.metadata is None
}

/// Child name `name` added to the listing of `parent` (created when missing).
fn push_child(dirs: &mut Vec<(String, Vec<String>)>, parent: String, name: String)
    requires
        keys_distinct(old(dirs)@),
    ensures
        keys_distinct(final(dirs)@),
        assoc_map(final(dirs)@) == assoc_map(old(dirs)@).insert(parent@,
            children_of(assoc_map(old(dirs)@), parent@).push(name@)),
{
    proof {
        lemma_assoc_map(old(dirs)@);
    }
    match find_key(dirs, &parent) {
        Some(i) => {
            let ghost s = dirs@;
            let (k, mut children) = dirs.remove(i);
            let ghost before = children.deep_view();
            children.push(name);
            proof {
                assert(children.deep_view() =~= before.push(name@));
            }
            dirs.insert(i, (k, children));
            proof {
                assert(dirs@ =~= s.update(i as int, (k, children)));
                lemma_assoc_update(s, i as int, (k, children));
                assert(assoc_map(s)[s[i as int].0@] == s[i as int].1.deep_view());
            }
        },
        None => {
            let mut children: Vec<String> = Vec::new();
            children.push(name);
            proof {
                assert(children.deep_view() =~= Seq::<Seq<char>>::empty().push(name@));
                lemma_assoc_push(dirs@, (parent, children));
            }
            dirs.push((parent, children));
        },
    }
}

/// Directory `path` added with an empty listing, unless it exists.
fn ensure_dir(dirs: &mut Vec<(String, Vec<String>)>, path: &str)
    requires
        keys_distinct(old(dirs)@),
    ensures
        keys_distinct(final(dirs)@),
        assoc_map(final(dirs)@) == dirs_with_dir(assoc_map(old(dirs)@), path@),
{
    proof {
        lemma_assoc_map(old(dirs)@);
    }
    let path = path_key(path);
    match find_key(dirs, &path) {
        Some(_) => {},
        None => {
            let children: Vec<String> = Vec::new();
            proof {
                assert(children.deep_view() =~= Seq::<Seq<char>>::empty());
                lemma_assoc_push(dirs@, (path, children));
            }
            dirs.push((path, children));
        },
    }
}

impl WasmFsBackend {
    /// Internal consistency: each path occurs once in each table.
    pub closed spec fn wf(&self) -> bool {
        keys_distinct(self.files@) && keys_distinct(self.directories@)
    }

    /// An empty filesystem with only the root directory.
    pub fn new() -> (r: Self)
        ensures
            r.wf(),
            r@.files == Map::<Seq<char>, Seq<u8>>::empty(),
            r@.dirs == map!["/"@ => Seq::<Seq<char>>::empty()],
    {
        let mut dirs: Vec<(String, Vec<String>)> = Vec::new();
        let root = "/".to_string();
        let children: Vec<String> = Vec::new();
        proof {
            assert(children.deep_view() =~= Seq::<Seq<char>>::empty());
            lemma_assoc_push(dirs@, (root, children));
        }
        dirs.push((root, children));
        let r = Self { files: Vec::new(), directories: dirs };
        proof {
            assert(r@.dirs =~= map!["/"@ => Seq::<Seq<char>>::empty()]);
        }
        r
    }

    /// Add a file to the virtual filesystem
    pub fn add_file(&mut self, path: &str, content: Vec<u8>)
        requires
            old(self).wf(),
        ensures
            final(self).wf(),
            final(self)@ == spec_add_file(old(self)@, path@, content@),
    {
        let key = path_key(path);
        proof {
            lemma_assoc_map(self.files@);
            assert(content.deep_view() == content@);
        }
        match find_key(&self.files, &key) {
            Some(i) => {
                let ghost s = self.files@;
                proof {
                    lemma_assoc_update(s, i as int, (key, content));
                }
                self.files.set(i, (key, content));
            },
            None => {
                proof {
                    lemma_assoc_push(self.files@, (key, content));
                }
                self.files.push((key, content));
            },
        }
        match path_parent(path) {
            Some(parent) => {
                let name = match path_file_name(path) {
                    Some(n) => n,
                    None => String::new(),
                };
                push_child(&mut self.directories, path_key(parent.as_str()), name);
            },
            None => {},
        }
    }

    /// Read file content
    pub fn read_file(&self, path: &str) -> (r: Option<Vec<u8>>)
        requires
            self.wf(),
        ensures
            match r {
                Some(c) => self@.files.contains_key(std_path_key(path@)) && c@ == self@.files[std_path_key(path@)],
                None => !self@.files.contains_key(std_path_key(path@)),
            },
    {
        let key = path_key(path);
        proof {
            lemma_assoc_map(self.files@);
        }
        match find_key(&self.files, &key) {
            Some(i) => {
                let c = self.files[i].1.clone();
                proof {
                    assert(self.files@[i as int].1.deep_view() == self.files@[i as int].1@);
                }
                Some(c)
            },
            None => None,
        }
    }

    /// Write file content
    pub fn write_file(&mut self, path: &str, content: Vec<u8>)
        requires
            old(self).wf(),
        ensures
            final(self).wf(),
            final(self)@ == spec_add_file(old(self)@, path@, content@),
    {
        self.add_file(path, content);
    }

    /// Create a directory
    pub fn create_dir(&mut self, path: &str)
        requires
            old(self).wf(),
        ensures
            final(self).wf(),
            final(self)@ == spec_create_dir(old(self)@, path@),
    {
        ensure_dir(&mut self.directories, path);
        match path_parent(path) {
            Some(parent) => {
                let name = match path_file_name(path) {
                    Some(n) => n,
                    None => String::new(),
                };
                push_child(&mut self.directories, path_key(parent.as_str()), name);
            },
            None => {},
        }
    }

    /// Whether a file is stored at `path`.
    fn has_file(&self, path: &String) -> (r: bool)
        requires
            self.wf(),
        ensures
            r == self@.files.contains_key(std_path_key(path@)),
    {
        proof {
            lemma_assoc_map(self.files@);
        }
        let key = path_key(path.as_str());
        find_key(&self.files, &key).is_some()
    }

    /// List entries in a directory
    pub fn read_dir(&self, path: &str) -> (r: Result<Vec<WasmFsEntry>, WasmFsError>)
        requires
            self.wf(),
        ensures
            match r {
                Ok(v) => {
                    &&& self@.dirs.contains_key(std_path_key(path@))
                    &&& v@.len() == self@.dirs[std_path_key(path@)].len()
                    &&& forall|i: int| 0 <= i < v@.len() ==> entry_matches(self@, path@,
                        self@.dirs[std_path_key(path@)][i], #[trigger] v@[i])
                },
                Err(e) => e == WasmFsError::DirectoryNotFound && !self@.dirs.contains_key(std_path_key(path@)),
            },
    {
        let key = path_key(path);
        proof {
            lemma_assoc_map(self.directories@);
        }
        let i = match find_key(&self.directories, &key) {
            Some(i) => i,
            None => {
                return Err(WasmFsError::DirectoryNotFound);
            },
        };
        let names = &self.directories[i].1;
        let ghost listing = self@.dirs[std_path_key(path@)];
        proof {
            assert(listing == names.deep_view());
        }
        let mut out: Vec<WasmFsEntry> = Vec::new();
        let n = names.len();
        let mut j: usize = 0;
        while j < n
            invariant
                self.wf(),
                n == names@.len(),
                listing == names.deep_view(),
                j <= n,
                out@.len() == j,
                forall|k: int| 0 <= k < j ==> entry_matches(self@, path@, listing[k], #[trigger] out@[k]),
            decreases n - j,
        {
            let name = &names[j];
            let full_path = path_join(path, name.as_str());
            let entry_type = if self.has_file(&full_path) {
                WasmFsEntryType::File
            } else {
                WasmFsEntryType::Directory
            };
            proof {
                assert(listing[j as int] == names@[j as int]@);
            }
            out.push(WasmFsEntry::new(full_path, name.clone(), entry_type));
            j += 1;
        }
        Ok(out)
    }

    /// Check if path exists
    pub fn path_exists(&self, path: &str) -> (r: bool)
        requires
            self.wf(),
        ensures
            r == (self@.files.contains_key(std_path_key(path@)) || self@.dirs.contains_key(std_path_key(path@))),
    {
        let key = path_key(path);
        proof {
            lemma_assoc_map(self.files@);
            lemma_assoc_map(self.directories@);
        }
        find_key(&self.files, &key).is_some() || find_key(&self.directories, &key).is_some()
    }

    /// Check if path is a directory
    pub fn is_dir(&self, path: &str) -> (r: bool)
        requires
            self.wf(),
        ensures
            r == self@.dirs.contains_key(std_path_key(path@)),
    {
        let key = path_key(path);
        proof {
            lemma_assoc_map(self.directories@);
        }
        find_key(&self.directories, &key).is_some()
    }

    /// Get file/directory entry
    pub fn get_entry(&self, path: &str) -> (r: Result<WasmFsEntry, WasmFsError>)
        requires
            self.wf(),
        ensures
            match r {
                Ok(e) => {
                    &&& e.path@ == path@
                    &&& e.name@ == name_of(path@)
                    &&& if self@.files.contains_key(std_path_key(path@)) {
                        &&& e.entry_type == WasmFsEntryType::File
                        &&& e.metadata matches Some(m) && m.size == Some(self@.files[std_path_key(path@)].len() as u64)
                            && m.modified is None
                    } else {
                        &&& self@.dirs.contains_key(std_path_key(path@))
                        &&& e.entry_type == WasmFsEntryType::Directory
                        &&& e.metadata is None
                    }
                },
                Err(e) => e == WasmFsError::NotFound && !self@.files.contains_key(std_path_key(path@))
                    && !self@.dirs.contains_key(std_path_key(path@)),
            },
    {
        let key = path_key(path);
        let name = match path_file_name(path) {
            Some(n) => n,
            None => String::new(),
        };
        proof {
            lemma_assoc_map(self.files@);
            lemma_assoc_map(self.directories@);
        }
        match find_key(&self.files, &key) {
            Some(i) => {
                let size = self.files[i].1.len() as u64;
                proof {
                    assert(self.files@[i as int].1.deep_view() == self.files@[i as int].1@);
                }
                let metadata = WasmFsMetadata::new().with_size(size);
                Ok(WasmFsEntry::new(path.to_string(), name, WasmFsEntryType::File).with_metadata(metadata))
            },
            None => {
                if find_key(&self.directories, &key).is_some() {
                    Ok(WasmFsEntry::new(path.to_string(), name, WasmFsEntryType::Directory))
                } else {
                    Err(WasmFsError::NotFound)
                }
            },
        }
    }

    /// Remove a file
    pub fn remove_file(&mut self, path: &str) -> (r: Result<(), WasmFsError>)
        requires
            old(self).wf(),
        ensures
            final(self).wf(),
            match r {
                Ok(()) => old(self)@.files.contains_key(std_path_key(path@))
                    && final(self)@ == spec_remove_file(old(self)@, path@),
                Err(e) => e == WasmFsError::FileNotFound && !old(self)@.files.contains_key(std_path_key(path@))
                    && final(self)@ == old(self)@,
            },
    {
        let key = path_key(path);
        proof {
            lemma_assoc_map(self.files@);
        }
        let i = match find_key(&self.files, &key) {
            Some(i) => i,
            None => {
                return Err(WasmFsError::FileNotFound);
            },
        };
        proof {
            lemma_assoc_remove(self.files@, i as int);
        }
        self.files.remove(i);
        match path_parent(path) {
            Some(parent) => {
                proof {
                    lemma_assoc_map(self.directories@);
                }
                let parent_key = path_key(parent.as_str());
                match find_key(&self.directories, &parent_key) {
                    Some(j) => {
                        match path_file_name(path) {
                            Some(name) => {
                                let ghost s = self.directories@;
                                let (k, children) = self.directories.remove(j);
                                let kept = retain_other_names(&children, &name);
                                proof {
                                    assert(assoc_map(s)[s[j as int].0@] == s[j as int].1.deep_view());
                                }
                                self.directories.insert(j, (k, kept));
                                proof {
                                    assert(self.directories@ =~= s.update(j as int, (k, kept)));
                                    lemma_assoc_update(s, j as int, (k, kept));
                                }
                            },
                            None => {},
                        }
                    },
                    None => {},
                }
            },
            None => {},
        }
        Ok(())
    }

    /// Get all file paths in the filesystem (in no particular order, each once).
    pub fn list_all_files(&self) -> (r: Vec<String>)
        requires
            self.wf(),
        ensures
            r@.len() == self@.files.len(),
            forall|i: int| 0 <= i < r@.len() ==> self@.files.contains_key(#[trigger] r@[i]@),
            forall|k: Seq<char>| #[trigger] self@.files.contains_key(k) ==> exists|i: int| 0 <= i < r@.len() && r@[i]@ == k,
            forall|i: int, j: int| 0 <= i < r@.len() && 0 <= j < r@.len() && i != j ==> (#[trigger] r@[i])@ != (#[trigger] r@[j])@,
    {
        proof {
            lemma_assoc_map(self.files@);
        }
        let mut out: Vec<String> = Vec::new();
        let n = self.files.len();
        let mut i: usize = 0;
        while i < n
            invariant
                self.wf(),
                n == self.files@.len(),
                i <= n,
                out@.len() == i,
                forall|k: int| 0 <= k < i ==> (#[trigger] out@[k])@ == self.files@[k].0@,
            decreases n - i,
        {
            out.push(self.files[i].0.clone());
            i += 1;
        }
        proof {
            assert forall|k: Seq<char>| #[trigger] self@.files.contains_key(k) implies exists|i: int| 0 <= i < out@.len() && out@[i]@ == k by {
                let i = choose|i: int| 0 <= i < self.files@.len() && self.files@[i].0@ == k;
                assert(out@[i]@ == k);
            }
            assert forall|a: int, b: int| 0 <= a < out@.len() && 0 <= b < out@.len() && a != b implies (#[trigger] out@[a])@ != (#[trigger] out@[b])@ by {
                assert(out@[a]@ == self.files@[a].0@);
                assert(out@[b]@ == self.files@[b].0@);
            }
        }
        out
    }
}

/// The names of `children` other than `name`, in order.
fn retain_other_names(children: &Vec<String>, name: &String) -> (r: Vec<String>)
    ensures
        r.deep_view() == without_name(children.deep_view(), name@),
{
    let mut out: Vec<String> = Vec::new();
    let n = children.len();
    let mut i: usize = 0;
    while i < n
        invariant
            n == children@.len(),
            i <= n,
            out.deep_view() == without_name(children.deep_view().take(i as int), name@),
        decreases n - i,
    {
        let ghost t = children.deep_view().take(i as int + 1);
        proof {
            assert(t.drop_last() =~= children.deep_view().take(i as int));
            assert(t.last() == children@[i as int]@);
        }
        if children[i] != *name {
            let ghost before = out.deep_view();
            out.push(children[i].clone());
            proof {
                assert(out.deep_view() =~= before.push(children@[i as int]@));
            }
        }
        i += 1;
    }
    proof {
        assert(children.deep_view().take(n as int) =~= children.deep_view());
    }
    out
}

impl Default for WasmFsBackend {
    fn default() -> (r: Self)
        ensures
            r.wf(),
            r@.files == Map::<Seq<char>, Seq<u8>>::empty(),
            r@.dirs == map!["/"@ => Seq::<Seq<char>>::empty()],
    {
        Self::new()
    }
}

/// Reading a path after a file was added there (or at any path with the same
/// components) gives back exactly the content added.
pub proof fn law_read_after_add(v: FsView, p: Seq<char>, c: Seq<u8>, q: Seq<char>)
    requires
        std_path_key(q) == std_path_key(p),
    ensures
        spec_add_file(v, p, c).files.contains_key(std_path_key(q)),
        spec_add_file(v, p, c).files[std_path_key(q)] == c,
{
}

/// Adding a file leaves every path with other components as it was.
pub proof fn law_add_keeps_other_files(v: FsView, p: Seq<char>, c: Seq<u8>, q: Seq<char>)
    requires
        std_path_key(q) != std_path_key(p),
    ensures
        spec_add_file(v, p, c).files.contains_key(std_path_key(q)) == v.files.contains_key(std_path_key(q)),
        v.files.contains_key(std_path_key(q)) ==> spec_add_file(v, p, c).files[std_path_key(q)]
            == v.files[std_path_key(q)],
{
}

/// After a directory is created at a path, that path is a directory, and
/// directories that existed still do.
pub proof fn law_create_dir_makes_dir(v: FsView, p: Seq<char>, q: Seq<char>)
    ensures
        spec_create_dir(v, p).dirs.contains_key(std_path_key(p)),
        v.dirs.contains_key(q) ==> spec_create_dir(v, p).dirs.contains_key(q),
        spec_create_dir(v, p).files == v.files,
{
}

/// After a file is removed it can no longer be read, and other files stay.
pub proof fn law_remove_then_absent(v: FsView, p: Seq<char>, q: Seq<char>)
    ensures
        !spec_remove_file(v, p).files.contains_key(std_path_key(p)),
        std_path_key(q) != std_path_key(p) ==> spec_remove_file(v, p).files.contains_key(std_path_key(q))
            == v.files.contains_key(std_path_key(q)),
{
}

/// A file added at a path makes that path exist.
pub proof fn law_add_then_exists(v: FsView, p: Seq<char>, c: Seq<u8>)
    ensures
        spec_add_file(v, p, c).files.contains_key(std_path_key(p))
            || spec_add_file(v, p, c).dirs.contains_key(std_path_key(p)),
{
}

} // verus!
