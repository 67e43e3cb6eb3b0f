use vstd::prelude::*;

verus! {

/// The part a missing path plays in the operation that looked for it.
#[derive(Clone, Copy, Debug, PartialEq, Eq, Structural)]
pub enum PathRole {
    /// The directory to list.
    Directory,
    /// The file to rename.
    Source,
    /// The file to delete.
    File,
}

/// The step of an operation at which the file system reported a failure.
#[derive(Clone, Copy, Debug, PartialEq, Eq, Structural)]
pub enum IoStage {
    ReadDirectory,
    ReadEntry,
    ReadMetadata,
    Rename,
    Delete,
}

/// Why a file operation failed.
#[derive(Debug)]
pub enum FsError {
    /// The path does not exist.
    NotFound { role: PathRole, path: String },
    /// The path to list exists and is not a directory.
    NotADirectory { path: String },
    /// The path to delete is a directory.
    IsADirectory { path: String },
    /// The file system failed; `cause` is its own description of the failure.
    Io { stage: IoStage, cause: String },
}

/// The fixed opening of the message of `e`.
pub open spec fn message_prefix(e: FsError) -> Seq<char> {
    match e {
        FsError::NotFound { role, .. } => match role {
            PathRole::Directory => "Directory does not exist: "@,
            PathRole::Source => "Source file does not exist: "@,
            PathRole::File => "File does not exist: "@,
        },
        FsError::NotADirectory { .. } => "Path is not a directory: "@,
        FsError::IsADirectory { .. } => "Path is a directory, not a file: "@,
        FsError::Io { stage, .. } => match stage {
            IoStage::ReadDirectory => "Failed to read directory: "@,
            IoStage::ReadEntry => "Failed to read entry: "@,
            IoStage::ReadMetadata => "Failed to read metadata: "@,
            IoStage::Rename => "Failed to rename file: "@,
            IoStage::Delete => "Failed to delete file: "@,
        },
    }
}

/// What the message of `e` ends with: the offending path, or the cause.
pub open spec fn message_subject(e: FsError) -> Seq<char> {
    match e {
        FsError::NotFound { path, .. } => path@,
        FsError::NotADirectory { path } => path@,
        FsError::IsADirectory { path } => path@,
        FsError::Io { cause, .. } => cause@,
    }
}

impl FsError {
    /// This error says that `path`, in the part `role`, does not exist.
    pub open spec fn is_not_found(self, role: PathRole, path: Seq<char>) -> bool {
        match self {
            FsError::NotFound { role: r, path: p } => r == role && p@ == path,
            _ => false,
        }
    }

    /// This error says that `path` is not a directory.
    pub open spec fn is_not_a_directory(self, path: Seq<char>) -> bool {
        match self {
            FsError::NotADirectory { path: p } => p@ == path,
            _ => false,
        }
    }

    /// This error says that `path` is a directory.
    pub open spec fn is_a_directory(self, path: Seq<char>) -> bool {
        match self {
            FsError::IsADirectory { path: p } => p@ == path,
            _ => false,
        }
    }

    /// This error is a failure of the file system at `stage`, described by `cause`.
    pub open spec fn is_io(self, stage: IoStage, cause: Seq<char>) -> bool {
        match self {
            FsError::Io { stage: s, cause: c } => s == stage && c@ == cause,
            _ => false,
        }
    }

    /// The failure of the file system at `stage`, described by `cause`.
    pub fn io(stage: IoStage, cause: String) -> (r: FsError)
        ensures
            r.is_io(stage, cause@),
    {
        FsError::Io { stage, cause }
    }

    /// The human-readable message of this error.
    pub fn message(&self) -> (r: String)
        ensures
            r@ == message_prefix(*self) + message_subject(*self),
    {
        let mut r = match self {
            FsError::NotFound { role, .. } => match role {
                PathRole::Directory => String::from_str("Directory does not exist: "),
                PathRole::Source => String::from_str("Source file does not exist: "),
                PathRole::File => String::from_str("File does not exist: "),
            },
            FsError::NotADirectory { .. } => String::from_str("Path is not a directory: "),
            FsError::IsADirectory { .. } => String::from_str("Path is a directory, not a file: "),
            FsError::Io { stage, .. } => match stage {
                IoStage::ReadDirectory => String::from_str("Failed to read directory: "),
                IoStage::ReadEntry => String::from_str("Failed to read entry: "),
                IoStage::ReadMetadata => String::from_str("Failed to read metadata: "),
                IoStage::Rename => String::from_str("Failed to rename file: "),
                IoStage::Delete => String::from_str("Failed to delete file: "),
            },
        };
        let subject = match self {
            FsError::NotFound { path, .. } => path.as_str(),
            FsError::NotADirectory { path } => path.as_str(),
            FsError::IsADirectory { path } => path.as_str(),
            FsError::Io { cause, .. } => cause.as_str(),
        };
        r.append(subject);
        r
    }
}

} // verus!
