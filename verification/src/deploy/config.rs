//! The deployment configuration as the rest of the library reads it.

use vstd::prelude::*;
use crate::deploy::tools::{ciruela, kokkupanek};
use crate::names::NameMap;
use crate::templates::Pattern;

verus! {

/// The glob of the deployment directories where none is configured; its
/// group captures the name of the deployment.
pub const DEFAULT_DEPLOYMENT_DIRS: &'static str = "config/deploy-(*)";

/// The glob of the descriptor files below a deployment directory where
/// none is configured; its group captures the name of the process.
pub const DEFAULT_LITHOS_CONFIGS: &'static str = "lithos.(*).yaml";

/// The pattern of the deployment name where none is configured: the first
/// group of the directory glob.
pub const DEFAULT_DEPLOYMENT_NAME: &'static str = "{{ patterns.deployment_dirs[1] }}";

/// The pattern of the process name where none is configured: the first
/// group of the file glob.
pub const DEFAULT_PROCESS_NAME: &'static str = "{{ patterns.lithos_configs[1] }}";

/// The glob of the descriptor files as seen from inside a container,
/// where none is configured.
pub const DEFAULT_CONFIG_FILES_INNER: &'static str = "/config/deploy-*/lithos.*.yaml";

/// The path of the generated configuration file where none is configured.
pub const DEFAULT_VAGGA_CONFIG: &'static str = "vagga/deploy.yaml";

/// The suffix of the names of the containers that are built, where none
/// is configured.
pub const DEFAULT_CONTAINER_SUFFIX: &'static str = "-deploy";

/// How the version of a run is derived.
#[derive(Clone, Copy, Debug, PartialEq, Eq, Structural)]
pub enum VersionKind {
    GitDescribe,
}

impl VersionKind {
    /// The name of the kind as it is written in configuration and printed
    /// by templates.
    pub fn output(&self) -> (r: &'static str)
        ensures
            *self == VersionKind::GitDescribe ==> r@ == "git-describe"@,
    {
        match self {
            VersionKind::GitDescribe => "git-describe",
        }
    }
}

/// One step of the deployment script.
#[derive(Debug)]
pub enum Stage {
    Ciruela(ciruela::Settings),
    VerwalterKokkupanek(kokkupanek::Settings),
}

/// The whole configuration of a project's deployments.
#[derive(Debug)]
pub struct Config {
    pub minimum_wark: String,
    pub deployment_dirs: String,
    pub lithos_configs: String,
    pub default_copy: NameMap<String>,
    pub config_files_inner: String,
    pub vagga_config: String,
    pub container_suffix: String,
    pub version: VersionKind,
    pub deployment_name: Pattern,
    pub process_name: Pattern,
    pub script: Vec<Stage>,
}

} // verus!
