//! A file-renaming engine that prefixes file names with their creation
//! timestamp (`YYYYMMDD_HHMMSS_`), with Unicode normalization of names,
//! idempotency detection (already-stamped names are skipped), deterministic
//! traversal ordering, and dry-run support.

pub mod cli;
pub mod errors;
pub mod executor;
pub mod normalize;
pub mod pathname;
pub mod plan;
pub mod rename_command;
pub mod test_command;
pub mod text;
pub mod timestamp;
pub mod walk;
