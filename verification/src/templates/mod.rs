//! Patterns and the variables they are rendered with.

pub mod glob_var;
pub mod pattern;

pub use self::glob_var::GlobVar;
pub use self::pattern::{ContainerVar, Pattern, PatternError, TemplateError};
