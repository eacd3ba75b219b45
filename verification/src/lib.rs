//! Verified core of the task desk: the JSON document model, the
//! normalised tables it is stored in, the incremental save plan, the
//! reassembly of the document from stored rows, and the small pieces of
//! decision logic around them (snapshots, data directory, AI chat replies,
//! escaping for the platform helpers).

pub mod text;
pub mod json;

pub mod out;
pub mod schema;
pub mod save;
pub mod load;
pub mod laws;
pub mod platform;
pub mod snapshots;
pub mod chat;
pub mod setup;
