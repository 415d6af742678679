//! File-oriented source abstractions: stable file ids, line/offset lookup
//! and the in-memory source database.

pub mod file_id;
pub mod line_index;
pub mod source_db;
pub mod source_file;

pub use file_id::FileId;
pub use line_index::{LineCol, LineIndex};
pub use source_db::SourceDb;
pub use source_file::SourceFile;
