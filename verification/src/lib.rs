//! Repository discovery and package-registry setup planning.
//!
//! The library inspects the manifests of a source repository, describes the
//! publishable packages it finds, and derives an ordered setup plan for each
//! package registry. Every function here is verified; reading files, running
//! processes and driving a browser are left to the caller.

pub mod text;
pub mod model;
pub mod plan;
pub mod pattern;
pub mod json_doc;
pub mod toml_doc;
pub mod sort;
pub mod discovery;
pub mod report;
pub mod setup;
pub mod output;
pub mod browser;
pub mod version_sync;

pub use discovery::inspect_repository;
pub use model::{Inspection, Package, Registry, RepositoryInfo, SetupPlan, SetupStep};
pub use plan::{build_plans, build_plans_for};
