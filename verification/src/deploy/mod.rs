//! Deploying: the configuration, the resolved deployments, the build of
//! their containers and the stages that ship them.

pub mod containers;
pub mod config;
pub mod engine;
pub mod resolve;
pub mod tools;

pub use self::containers::{build, build_order, check_ver, BuildOutcome, BuildReport, Container, Context};
pub use self::config::{Config, Stage, VersionKind};
pub use self::resolve::{resolve, Command, Daemon, Deployment, Spec};
