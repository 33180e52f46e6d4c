//! The version of a run.

use vstd::prelude::*;
use vstd::string::{StrSliceExecFns, StringExecFns};
use crate::deploy::config::{Config, VersionKind};
use crate::exit::ExitCode;
use crate::text::{chars_of, joined, contains_text, decimal, numeral, occurs};

verus! {

/// The version that stands in where none could be derived.
pub open spec fn unknown_version() -> Seq<char> {
    "v0.0.0-unknown"@
}

/// The version of the run from what describing the repository gave: the
/// description, or, where there is none, the stand-in version and an error
/// on the exit status.
pub fn describe(described: Option<String>, exit: &mut ExitCode) -> (r: String)
    ensures
        match described {
            Some(v) => r == v && *final(exit) == *old(exit),
            None => r@ == unknown_version() && final(exit).code() == 1 && final(exit).is_closed()
                == old(exit).is_closed(),
        },
{
    match described {
        Some(v) => v,
        None => {
            exit.report_error();
            "v0.0.0-unknown".to_owned()
        },
    }
}

/// The version of the run as the configuration wants it derived.
pub fn get(cfg: &Config, described: Option<String>, exit: &mut ExitCode) -> (r: String)
    ensures
        match described {
            Some(v) => r == v && *final(exit) == *old(exit),
            None => r@ == unknown_version() && final(exit).code() == 1 && final(exit).is_closed()
                == old(exit).is_closed(),
        },
{
    match cfg.version {
        VersionKind::GitDescribe => describe(described, exit),
    }
}

/// Whether an error of describing the repository only says that no tag
/// matches, so that the version is made up from the commits instead.
pub fn is_untagged(message: &str) -> (r: bool)
    ensures
        r == occurs(message@, "no reference found"@),
{
    contains_text(message, "no reference found")
}

/// The first `n` characters of `s`, or all of it where it is shorter.
pub open spec fn head(s: Seq<char>, n: int) -> Seq<char> {
    if s.len() <= n {
        s
    } else {
        s.subrange(0, n)
    }
}

/// The version of a repository without tags: `v0.0.0-`, the number of
/// commits, `-u` and the first seven characters of the commit id, with
/// `-dirty` at the end where the work tree has changes.
pub open spec fn untagged_version(commits: u64, id: Seq<char>, dirty: bool) -> Seq<char> {
    "v0.0.0-"@ + numeral(commits as nat) + "-u"@ + head(id, 7) + if dirty {
        "-dirty"@
    } else {
        Seq::<char>::empty()
    }
}

/// The version of a repository without tags.
pub fn get_version(commits: u64, id: &str, dirty: bool) -> (r: String)
    ensures
        r@ == untagged_version(commits, id@, dirty),
{
    let mut r = joined("v0.0.0-", decimal(commits).as_str());
    r.append("-u");
    let chars = chars_of(id);
    if chars.len() <= 7 {
        r.append(id);
    } else {
        r.append(id.substring_char(0, 7));
    }
    if dirty {
        r.append("-dirty");
    }
    assert(r@ =~= untagged_version(commits, id@, dirty));
    r
}

} // verus!
