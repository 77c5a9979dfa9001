//! Dependency records of a manifest, their version requirements, and the
//! rules that decide which of them lag behind a package registry.

pub mod cargoreader;
pub mod commands;
pub mod crateinfo;
pub mod cratesio;
pub mod dependency;
pub mod manifest;
pub mod selection;
pub mod utils;
pub mod version;
