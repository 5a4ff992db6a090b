//! An in-memory table of static assets: every file under a root directory,
//! keyed by its URL path, with the media type of its extension and its bytes.
pub mod laws;
pub mod media;
pub mod paths;
pub mod table;

pub use table::{load, resolve_path, Asset, AssetTable, SourceFile};
