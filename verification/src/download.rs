//! Fetching the deployment configuration through the capsule.

use vstd::prelude::*;
use vstd::utf8::{decode_utf8, valid_utf8};
use crate::text::{trim, trimmed};

verus! {

/// The arguments that the capsule is run with to fetch `url`.
pub fn download_args(url: &str, refresh: bool) -> (r: Vec<String>)
    ensures
        r@.len() == if refresh {
            4int
        } else {
            3int
        },
        r@[0]@ == "_capsule"@,
        r@[1]@ == "download"@,
        refresh ==> r@[2]@ == "--refresh"@,
        r@.last()@ == url@,
{
    let mut args: Vec<String> = Vec::new();
    args.push("_capsule".to_owned());
    args.push("download".to_owned());
    if refresh {
        args.push("--refresh".to_owned());
    }
    args.push(url.to_owned());
    args
}

/// How the run of the capsule ended.
#[derive(Debug)]
pub enum Fetched {
    /// The capsule could not be started.
    SpawnFailed,
    /// The capsule ran and exited with a failure status.
    Failed,
    /// The capsule exited successfully, having written this to its
    /// standard output.
    Finished(Vec<u8>),
}

/// Why there is no downloaded file.
#[derive(Clone, Copy, Debug, PartialEq, Eq, Structural)]
pub enum DownloadError {
    /// The capsule could not be run, or it failed.
    CapsuleFailed,
    /// What the capsule printed is not text.
    InvalidPath,
}

/// The path that the capsule printed, without the white space around it.
pub fn download(fetched: &Fetched) -> (r: Result<String, DownloadError>)
    ensures
        match *fetched {
            Fetched::Finished(stdout) => if valid_utf8(stdout@) {
                r matches Ok(path) && path@ == trimmed(decode_utf8(stdout@))
            } else {
                r == Err::<String, DownloadError>(DownloadError::InvalidPath)
            },
            _ => r == Err::<String, DownloadError>(DownloadError::CapsuleFailed),
        },
{
    match fetched {
        Fetched::Finished(stdout) => match core::str::from_utf8(stdout.as_slice()) {
            Ok(text) => Ok(trim(text).to_owned()),
            Err(_) => Err(DownloadError::InvalidPath),
        },
        _ => Err(DownloadError::CapsuleFailed),
    }
}

} // verus!
