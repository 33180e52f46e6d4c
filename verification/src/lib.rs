//! Deployment orchestration: resolving process descriptors into named
//! deployments, versioning the containers they need, and driving the
//! configured stages.

pub mod base;
pub mod deploy;
pub mod descriptor;
pub mod download;
pub mod exit;
pub mod inner;
pub mod local;
pub mod names;
pub mod options;
pub mod templates;
pub mod text;
pub mod version;
pub mod wark_version;
