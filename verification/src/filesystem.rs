//! Filesystem abstraction for file content I/O, and a filesystem without files.

use vstd::prelude::*;
use crate::text_util::{str_chars, push_chars, string_from_chars};
use crate::draw::{decimal, decimal_chars_u128};
use crate::fs_backend::{path_file_name, path_join, std_path_file_name, std_path_join};

verus! {

/// A path with its extension replaced by `ext`, as `std::path::Path::with_extension` gives it.
pub uninterp spec fn std_path_with_extension(path: Seq<char>, ext: Seq<char>) -> Seq<char>;

/// `std::path::Path::with_extension`; the result is the named `std_path_with_extension`.
#[verifier::external_body]
pub(crate) fn path_with_extension(path: &str, ext: &str) -> (r: String)
    requires
        !ext@.contains('/'),
    ensures
        r@ == std_path_with_extension(path@, ext@),
{
    std::path::Path::new(path).with_extension(ext).to_string_lossy().into_owned()
}

/// Opaque file permissions wrapper
#[derive(Debug, Clone, Copy, PartialEq, Eq, Structural)]
pub struct FilePermissions {
    mode: u32,
}

impl FilePermissions {
    /// Permissions with the given Unix mode bits.
    pub fn from_mode(mode: u32) -> (r: Self)
        ensures
            r.spec_mode() == mode,
    {
        Self { mode }
    }

    /// The Unix mode bits.
    pub closed spec fn spec_mode(&self) -> u32 {
        self.mode
    }

    /// Get the Unix mode (if available)
    pub fn mode(&self) -> (r: u32)
        ensures
            r == self.spec_mode(),
    {
        self.mode
    }
}

/// Metadata about a file
#[derive(Debug, Clone, Copy, PartialEq, Eq, Structural)]
pub struct FileMetadata {
    /// File size in bytes
    pub size: u64,
    /// File permissions (opaque, platform-specific)
    pub permissions: Option<FilePermissions>,
    /// File owner UID (Unix only)
    pub uid: Option<u32>,
    /// File owner GID (Unix only)
    pub gid: Option<u32>,
}

/// Category of a failed filesystem operation.
#[derive(Debug, Clone, Copy, PartialEq, Eq, Structural)]
pub enum FileSystemErrorKind {
    /// The filesystem cannot perform the operation at all.
    Unsupported,
    /// The file does not exist.
    NotFound,
    /// Any other failure reported by the platform.
    Other,
}

/// A failed filesystem operation: its category and a message.
#[derive(Debug, Clone)]
pub struct FileSystemError {
    pub kind: FileSystemErrorKind,
    pub message: String,
}

impl FileSystemError {
    /// The error of a filesystem that is not available.
    pub fn unsupported() -> (r: Self)
        ensures
            r.kind == FileSystemErrorKind::Unsupported,
            r.message@ == "Filesystem not available (WASM build)"@,
    {
        FileSystemError {
            kind: FileSystemErrorKind::Unsupported,
            message: "Filesystem not available (WASM build)".to_string(),
        }
    }
}

/// Whether the current user (uid `current_uid`) owns a file, given what reading
/// its metadata gave: the file's owner when known, else true.
pub open spec fn spec_is_owner(meta: Result<FileMetadata, FileSystemError>, current_uid: u32) -> bool {
    match meta {
        Ok(m) => match m.uid {
            Some(uid) => uid == current_uid,
            None => true,
        },
        Err(_) => true,
    }
}

/// Ownership decision from a metadata lookup and the current user's id.
pub fn owner_from_metadata(meta: &Result<FileMetadata, FileSystemError>, current_uid: u32) -> (r: bool)
    ensures
        r == spec_is_owner(*meta, current_uid),
{
    match meta {
        Ok(m) => match m.uid {
            Some(uid) => uid == current_uid,
            None => true,
        },
        Err(_) => true,
    }
}

/// Trait for filesystem operations: content I/O for buffers. Files are named
/// by path strings; writer and reader handles are the implementation's own.
pub trait FileSystem {
    /// A writable file handle.
    type Writer;
    /// A readable and seekable file handle.
    type Reader;

    /// Read entire file into memory
    fn read_file(&self, path: &str) -> Result<Vec<u8>, FileSystemError>;

    /// Read `len` bytes of a file starting at `offset`.
    fn read_range(&self, path: &str, offset: u64, len: usize) -> Result<Vec<u8>, FileSystemError>;

    /// Write data to file atomically
    fn write_file(&self, path: &str, data: &[u8]) -> Result<(), FileSystemError>;

    /// Get file metadata (size and permissions)
    fn metadata(&self, path: &str) -> Result<FileMetadata, FileSystemError>;

    /// Create a file for writing, returns a writer handle
    fn create_file(&self, path: &str) -> Result<Self::Writer, FileSystemError>;

    /// Open a file for reading, returns a reader handle
    fn open_file(&self, path: &str) -> Result<Self::Reader, FileSystemError>;

    /// Open a file for writing in-place (truncating existing content)
    fn open_file_for_write(&self, path: &str) -> Result<Self::Writer, FileSystemError>;

    /// Rename/move a file atomically
    fn rename(&self, from: &str, to: &str) -> Result<(), FileSystemError>;

    /// Copy a file (fallback when rename fails across filesystems)
    fn copy(&self, from: &str, to: &str) -> Result<u64, FileSystemError>;

    /// Remove a file
    fn remove_file(&self, path: &str) -> Result<(), FileSystemError>;

    /// Set file permissions
    fn set_permissions(&self, path: &str, permissions: &FilePermissions) -> Result<(), FileSystemError>;

    /// Get the current user's UID (0 where there is none)
    fn current_uid(&self) -> u32;

    /// Check if metadata exists (file exists), returns None if not
    fn metadata_if_exists(&self, path: &str) -> Option<FileMetadata> {
        match self.metadata(path) {
            Ok(m) => Some(m),
            Err(_) => None,
        }
    }

    /// Check if the current user is the owner of the file
    fn is_owner(&self, path: &str) -> bool {
        let meta = self.metadata(path);
        match &meta {
            Ok(m) => match m.uid {
                Some(_) => owner_from_metadata(&meta, self.current_uid()),
                None => true,
            },
            Err(_) => true,
        }
    }

    /// Get a temporary file path for atomic writes
    fn temp_path_for(&self, path: &str) -> String {
        proof {
            reveal_strlit("tmp");
        }
        path_with_extension(path, "tmp")
    }

    /// Get a unique temporary file path: in `temp_dir`, named after the
    /// destination's file name (`fresh-save` where it has none), the process id
    /// and the time in nanoseconds.
    fn unique_temp_path(&self, dest_path: &str, temp_dir: &str, pid: u32, timestamp_nanos: u128) -> (r: String)
        ensures
            r@ == std_path_join(temp_dir@, spec_unique_temp_name(
                match std_path_file_name(dest_path@) { Some(n) => n, None => "fresh-save"@ }, pid, timestamp_nanos)),
    {
        let name: String = match path_file_name(dest_path) {
            Some(n) => n,
            None => "fresh-save".to_string(),
        };
        let mut chars = str_chars(name.as_str());
        chars.push('-');
        let d = decimal_chars_u128(pid as u128);
        push_chars(&mut chars, &d);
        chars.push('-');
        let t = decimal_chars_u128(timestamp_nanos);
        push_chars(&mut chars, &t);
        chars.push('.');
        chars.push('t');
        chars.push('m');
        chars.push('p');
        let file = string_from_chars(&chars);
        proof {
            reveal_strlit("fresh-save");
            reveal_strlit("-");
            reveal_strlit(".tmp");
            assert(file@ =~= spec_unique_temp_name(
                match std_path_file_name(dest_path@) { Some(n) => n, None => "fresh-save"@ }, pid, timestamp_nanos));
        }
        path_join(temp_dir, file.as_str())
    }
}

/// The file name of a unique temporary file: `name-pid-nanos.tmp`.
pub open spec fn spec_unique_temp_name(name: Seq<char>, pid: u32, nanos: u128) -> Seq<char> {
    name + "-"@ + decimal(pid as nat) + "-"@ + decimal(nanos as nat) + ".tmp"@
}

/// No-op filesystem that returns errors for all operations
///
/// Used in WASM builds where there is no filesystem access.
#[derive(Debug, Clone, Copy, Default)]
pub struct NoopFileSystem;

impl FileSystem for NoopFileSystem {
    type Writer = ();
    type Reader = ();

    fn read_file(&self, path: &str) -> (r: Result<Vec<u8>, FileSystemError>)
        ensures
            r matches Err(e) && e.kind == FileSystemErrorKind::Unsupported,
    {
        Err(FileSystemError::unsupported())
    }

    fn read_range(&self, path: &str, offset: u64, len: usize) -> (r: Result<Vec<u8>, FileSystemError>)
        ensures
            r matches Err(e) && e.kind == FileSystemErrorKind::Unsupported,
    {
        Err(FileSystemError::unsupported())
    }

    fn write_file(&self, path: &str, data: &[u8]) -> (r: Result<(), FileSystemError>)
        ensures
            r matches Err(e) && e.kind == FileSystemErrorKind::Unsupported,
    {
        Err(FileSystemError::unsupported())
    }

    fn metadata(&self, path: &str) -> (r: Result<FileMetadata, FileSystemError>)
        ensures
            r matches Err(e) && e.kind == FileSystemErrorKind::Unsupported,
    {
        Err(FileSystemError::unsupported())
    }

    fn create_file(&self, path: &str) -> (r: Result<(), FileSystemError>)
        ensures
            r matches Err(e) && e.kind == FileSystemErrorKind::Unsupported,
    {
        Err(FileSystemError::unsupported())
    }

    fn open_file(&self, path: &str) -> (r: Result<(), FileSystemError>)
        ensures
            r matches Err(e) && e.kind == FileSystemErrorKind::Unsupported,
    {
        Err(FileSystemError::unsupported())
    }

    fn open_file_for_write(&self, path: &str) -> (r: Result<(), FileSystemError>)
        ensures
            r matches Err(e) && e.kind == FileSystemErrorKind::Unsupported,
    {
        Err(FileSystemError::unsupported())
    }

    fn rename(&self, from: &str, to: &str) -> (r: Result<(), FileSystemError>)
        ensures
            r matches Err(e) && e.kind == FileSystemErrorKind::Unsupported,
    {
        Err(FileSystemError::unsupported())
    }

    fn copy(&self, from: &str, to: &str) -> (r: Result<u64, FileSystemError>)
        ensures
            r matches Err(e) && e.kind == FileSystemErrorKind::Unsupported,
    {
        Err(FileSystemError::unsupported())
    }

    fn remove_file(&self, path: &str) -> (r: Result<(), FileSystemError>)
        ensures
            r matches Err(e) && e.kind == FileSystemErrorKind::Unsupported,
    {
        Err(FileSystemError::unsupported())
    }

    fn set_permissions(&self, path: &str, permissions: &FilePermissions) -> (r: Result<(), FileSystemError>)
        ensures
            r matches Err(e) && e.kind == FileSystemErrorKind::Unsupported,
    {
        Err(FileSystemError::unsupported())
    }

    fn current_uid(&self) -> (r: u32)
        ensures
            r == 0,
    {
        0
    }
}

} // verus!
