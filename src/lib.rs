pub mod entry;
pub mod error;
pub mod listing;
pub mod ops;
pub mod order;
pub mod pattern;
pub mod text;

pub use entry::{FileEntry, PathProbe, RawEntry};
pub use error::{FsError, IoStage, PathRole};
pub use listing::{check_directory, collect_entries, finish_listing, list_entries, sort_entries};
pub use ops::{plan_delete, plan_rename};
pub use pattern::{matches_pattern, DEFAULT_PATTERN};
