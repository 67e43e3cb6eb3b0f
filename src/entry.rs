use vstd::prelude::*;

verus! {

/// One child of a listed directory, as handed back to the caller.
#[derive(Debug)]
pub struct FileEntry {
    pub path: String,
    pub name: String,
    pub is_dir: bool,
}

/// One child of a directory as the file system reported it, before filtering.
#[derive(Debug)]
pub struct RawEntry {
    pub path: String,
    pub name: String,
    /// The metadata says it is a regular file.
    pub is_file: bool,
    /// The metadata says it is a directory.
    pub is_dir: bool,
}

/// What the file system says of a path before an operation touches it.
#[derive(Clone, Copy, Debug, PartialEq, Eq, Structural)]
pub struct PathProbe {
    pub exists: bool,
    pub is_dir: bool,
}

/// The entry handed back for a raw entry.
pub open spec fn entry_of(e: RawEntry) -> FileEntry {
    FileEntry { path: e.path, name: e.name, is_dir: e.is_dir }
}

} // verus!
