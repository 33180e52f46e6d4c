//! The options of the `inner` subcommand.

use vstd::prelude::*;

verus! {

/// The options of the preparation inside a container.
#[derive(Debug, Default)]
pub struct Options {
    /// The glob pattern of the descriptor files to check.
    pub lithos_configs: String,
    /// The directory that the symlinks for `/etc/resolv.conf` and
    /// `/etc/hosts` should point into.
    pub dns_symlinks: Option<String>,
    /// Only check, and fail where something would have to be changed.
    pub check: bool,
}

} // verus!
