//! The dependency record and its operations under the names that the
//! crate-information view of a manifest uses.

pub use crate::dependency::{
    transform_dependency_version as transform_crate_info_version, Dependency as CrateInfo, RawToml,
};
pub use crate::version::{get_version_from_version_req, get_versions_from_str};
