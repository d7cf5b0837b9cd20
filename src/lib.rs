//! A file-backed archive of journal entries: the in-memory cache of entry
//! records, the rules that assign identity and file names, and the tolerant
//! decoding of stored documents.

pub mod codec;
pub mod document;
pub mod entry;
pub mod sanitize;
pub mod store;
