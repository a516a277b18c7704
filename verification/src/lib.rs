//! Toolchain launcher core: distribution resolution, cache-key hashing and
//! the decision logic of the download/extract pipeline.
pub mod java_hash;
pub mod text;
pub mod uri;
pub mod locator;
pub mod digest;
pub mod props;
pub mod cache;
pub mod config;
pub mod resolve;
pub mod launch;
