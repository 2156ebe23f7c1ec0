//! Version checks for CI task manifests.
//!
//! The crate compares version strings that come in several shapes (`"1"`,
//! `"1.0"`, `"1.0.0"`, `"1.2.3-beta"`), keeps the store of versions that are
//! accepted for each task, and decides from which source credentials are taken.

pub mod text;
pub mod version;
pub mod error;
pub mod credentials;
pub mod config;

pub use config::{Config, GitVersionState, SupportedTask, TaskStates, TaskValidState, TaskVersions};
pub use credentials::Credentials;
pub use error::ProbeError;
pub use version::VersionCompare;
