//! Persistence-side model of a secret scanner: content-addressed matches,
//! findings grouped from them, annotations by people and their merge, and the
//! provenance of scanned blobs.

pub mod blob_id;
pub mod blob_metadata;
pub mod datastore;
pub mod digest;
pub mod document;
pub mod location;
pub mod match_type;
pub mod sequences;
pub mod snippet;
pub mod startup;
pub mod summarize;
pub mod target;
pub mod target_set;
pub mod text;
