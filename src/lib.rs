//! Incremental icon build pipeline: expands a configuration into render jobs,
//! derives their output paths, builds template contexts, decides which raster
//! outputs are stale from content hashes, and groups finished icons into
//! library manifests.
pub mod collision;
pub mod context;
pub mod hashes;
pub mod jobs;
pub mod library;
pub mod paths;
pub mod text;
