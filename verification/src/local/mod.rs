//! Keeping the generated configuration file in step with the resolved
//! deployments.

use vstd::prelude::*;
use crate::text::{compare, joined, Sign};

verus! {

/// The options of the `check` subcommand.
#[derive(Debug, Default)]
pub struct CheckOptions {
}

/// The options of the `update` subcommand.
#[derive(Debug, Default)]
pub struct UpdateOptions {
}

/// Whether the configuration file is up to date: it exists and holds
/// exactly what the deployments render to.
pub fn check_config(rendered: &str, on_disk: Option<&str>) -> (r: bool)
    ensures
        r == (on_disk matches Some(text) && text@ == rendered@),
{
    match on_disk {
        Some(text) => match compare(text, rendered) {
            Sign::Equal => true,
            _ => false,
        },
        None => false,
    }
}

/// The name of the file that an update is written to before it takes the
/// place of the configuration file.
pub fn update_path(vagga_config: &str) -> (r: String)
    ensures
        r@ == vagga_config@ + ".tmp"@,
{
    joined(vagga_config, ".tmp")
}

} // verus!
