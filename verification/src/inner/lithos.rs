//! Checking a container from inside: its descriptor files, the
//! directories of its volumes, and the symlinks of its name resolution.
//!
//! What is found on disk is handed in; what is to be done about it comes
//! back, and what cannot be mended is recorded on the exit status.

use vstd::prelude::*;
use crate::exit::ExitCode;
use crate::inner::options::Options;
use vstd::string::StringExecFns;
use crate::descriptor::ContainerDescriptor;
use crate::text::{chars_of, compare, joined, hex_numeral, hexadecimal, Sign};

verus! {

/// `std::io::Error`: an error of input or output, carried through as it is.
#[verifier::external_type_specification]
#[verifier::external_body]
pub struct ExIoError(std::io::Error);

/// The bytes that a character takes in UTF-8.
pub open spec fn utf8_len(c: char) -> nat {
    let u = c as u32;
    if u < 0x80 {
        1
    } else if u < 0x800 {
        2
    } else if u < 0x10000 {
        3
    } else {
        4
    }
}

/// The bytes that a text takes in UTF-8.
pub open spec fn byte_len(s: Seq<char>) -> nat
    decreases s.len(),
{
    if s.len() == 0 {
        0
    } else {
        byte_len(s.drop_last()) + utf8_len(s.last())
    }
}

/// How many characters from the start of `s` fit into `limit` bytes.
pub open spec fn fit_count(s: Seq<char>, limit: nat) -> nat
    decreases s.len(),
{
    if s.len() == 0 || utf8_len(s[0]) > limit {
        0
    } else {
        1 + fit_count(s.drop_first(), (limit - utf8_len(s[0])) as nat)
    }
}

/// The most bytes of a command line that are shown before it is cut.
pub const CMDLINE_LIMIT: usize = 60;

/// What stands after the last slash of a path; all of it where it has no
/// slash.
pub open spec fn file_name(path: Seq<char>) -> Seq<char>
    decreases path.len(),
{
    if path.len() == 0 {
        path
    } else if path.last() == '/' {
        Seq::empty()
    } else {
        file_name(path.drop_last()).push(path.last())
    }
}

/// The line that grows by one argument after the other, each after a
/// space, until it is longer than the limit; then it is cut back to the
/// characters that fit into the limit, three dots are put behind it, and
/// the arguments that are left are dropped.
pub open spec fn shortened(line: Seq<char>, arguments: Seq<String>) -> Seq<char>
    decreases arguments.len(),
{
    if arguments.len() == 0 {
        line
    } else if byte_len(line) > CMDLINE_LIMIT {
        line.take(fit_count(line, CMDLINE_LIMIT as nat) as int) + "..."@
    } else {
        shortened(line + " "@ + arguments[0]@, arguments.drop_first())
    }
}

/// A character as it is shown: the tab, the carriage return, the line
/// feed, the quotes and the backslash after a backslash; any other
/// printable ASCII character as it is; every other character by its code
/// point in hexadecimal, as `\u{..}`.
pub open spec fn escape(c: char) -> Seq<char> {
    let u = c as u32;
    if c == '\t' {
        seq!['\\', 't']
    } else if c == '\r' {
        seq!['\\', 'r']
    } else if c == '\n' {
        seq!['\\', 'n']
    } else if c == '\'' {
        seq!['\\', '\'']
    } else if c == '"' {
        seq!['\\', '"']
    } else if c == '\\' {
        seq!['\\', '\\']
    } else if 0x20 <= u <= 0x7e {
        seq![c]
    } else {
        seq!['\\', 'u', '{'] + hex_numeral(u as nat) + seq!['}']
    }
}

/// A text as it is shown: every character escaped.
pub open spec fn escaped(s: Seq<char>) -> Seq<char>
    decreases s.len(),
{
    if s.len() == 0 {
        s
    } else {
        escaped(s.drop_last()) + escape(s.last())
    }
}

/// The command line of a descriptor as it is shown.
pub open spec fn cmdline_of(cfg: &ContainerDescriptor) -> Seq<char> {
    escaped(shortened(file_name(cfg.executable@), cfg.arguments@))
}

/// The bytes that a character takes in UTF-8.
fn char_len(c: char) -> (r: usize)
    ensures
        r == utf8_len(c),
        1 <= r <= 4,
{
    let u: u32 = c as u32;
    if u < 0x80 {
        1
    } else if u < 0x800 {
        2
    } else if u < 0x10000 {
        3
    } else {
        4
    }
}

/// A byte count that is exact up to the limit and stands at one more for
/// anything longer.
spec fn capped(len: nat) -> nat {
    if len > CMDLINE_LIMIT {
        (CMDLINE_LIMIT + 1) as nat
    } else {
        len
    }
}

/// Puts `c` at the end of `line` and keeps the capped byte count.
fn extend(line: &mut Vec<char>, size: &mut usize, c: char)
    requires
        *old(size) == capped(byte_len(old(line)@)),
    ensures
        final(line)@ == old(line)@.push(c),
        *final(size) == capped(byte_len(final(line)@)),
{
    let ghost before = line@;
    line.push(c);
    assert(line@.drop_last() =~= before);
    let more = *size + char_len(c);
    *size = if more > CMDLINE_LIMIT {
        CMDLINE_LIMIT + 1
    } else {
        more
    };
}

/// Appends to `out` what `c` is shown as.
fn show(out: &mut String, c: char)
    ensures
        final(out)@ == old(out)@ + escape(c),
{
    let ghost before = out@;
    let u: u32 = c as u32;
    if c == '\t' {
        out.push('\\');
        out.push('t');
    } else if c == '\r' {
        out.push('\\');
        out.push('r');
    } else if c == '\n' {
        out.push('\\');
        out.push('n');
    } else if c == '\'' {
        out.push('\\');
        out.push('\'');
    } else if c == '"' {
        out.push('\\');
        out.push('"');
    } else if c == '\\' {
        out.push('\\');
        out.push('\\');
    } else if 0x20 <= u && u <= 0x7e {
        out.push(c);
    } else {
        out.push('\\');
        out.push('u');
        out.push('{');
        let hex = hexadecimal(u);
        out.append(hex.as_str());
        out.push('}');
    }
    assert(out@ =~= before + escape(c));
}

/// The command line of a descriptor for the log: the file name of the
/// executable and the arguments, cut after the limit, with everything
/// escaped that is not printable ASCII.
pub fn nice_cmdline(cfg: &ContainerDescriptor) -> (r: String)
    ensures
        r@ == cmdline_of(cfg),
{
    let path = chars_of(cfg.executable.as_str());
    let mut line: Vec<char> = Vec::new();
    let mut size: usize = 0;
    let mut i: usize = 0;
    assert(path@.take(0) =~= Seq::<char>::empty());
    while i < path.len()
        invariant
            i <= path.len(),
            line@ == file_name(path@.take(i as int)),
            size == capped(byte_len(line@)),
        decreases path.len() - i,
    {
        proof {
            assert(path@.take(i + 1).drop_last() =~= path@.take(i as int));
            assert(path@.take(i + 1).last() == path@[i as int]);
        }
        if path[i] == '/' {
            line = Vec::new();
            size = 0;
        } else {
            extend(&mut line, &mut size, path[i]);
        }
        i = i + 1;
    }
    assert(path@.take(path.len() as int) =~= path@);
    let mut k: usize = 0;
    let mut cut: bool = false;
    assert(cfg.arguments@.skip(0) =~= cfg.arguments@);
    while k < cfg.arguments.len() && !cut
        invariant
            k <= cfg.arguments@.len(),
            !cut ==> size == capped(byte_len(line@)),
            shortened(file_name(cfg.executable@), cfg.arguments@) == if cut {
                line@
            } else {
                shortened(line@, cfg.arguments@.skip(k as int))
            },
        decreases cfg.arguments@.len() - k, if cut { 0int } else { 1int },
    {
        let ghost rest = cfg.arguments@.skip(k as int);
        proof {
            assert(rest[0] == cfg.arguments@[k as int]);
            assert(rest.drop_first() =~= cfg.arguments@.skip(k + 1));
        }
        if size > CMDLINE_LIMIT {
            let ghost long = line@;
            let mut keep: usize = 0;
            let mut used: usize = 0;
            assert(line@.skip(0) =~= line@);
            while keep < line.len() && used + char_len(line[keep]) <= CMDLINE_LIMIT
                invariant
                    keep <= line.len(),
                    used <= CMDLINE_LIMIT,
                    fit_count(line@, CMDLINE_LIMIT as nat) == keep + fit_count(
                        line@.skip(keep as int),
                        (CMDLINE_LIMIT - used) as nat,
                    ),
                decreases line.len() - keep,
            {
                proof {
                    assert(line@.skip(keep as int)[0] == line@[keep as int]);
                    assert(line@.skip(keep as int).drop_first() =~= line@.skip(keep + 1));
                }
                used = used + char_len(line[keep]);
                keep = keep + 1;
            }
            proof {
                if keep < line.len() {
                    assert(line@.skip(keep as int)[0] == line@[keep as int]);
                }
            }
            line.truncate(keep);
            line.push('.');
            line.push('.');
            line.push('.');
            proof {
                reveal_strlit("...");
                assert("..."@ =~= seq!['.', '.', '.']);
                assert(line@ =~= long.take(keep as int) + "..."@);
            }
            cut = true;
        } else {
            let ghost short = line@;
            extend(&mut line, &mut size, ' ');
            let item = chars_of(cfg.arguments[k].as_str());
            let mut m: usize = 0;
            proof {
                reveal_strlit(" ");
                assert(" "@ =~= seq![' ']);
                assert(line@ =~= short + " "@ + item@.take(0));
            }
            while m < item.len()
                invariant
                    m <= item.len(),
                    size == capped(byte_len(line@)),
                    line@ == short + " "@ + item@.take(m as int),
                decreases item.len() - m,
            {
                extend(&mut line, &mut size, item[m]);
                assert(item@.take(m + 1) =~= item@.take(m as int).push(item@[m as int]));
                assert(line@ =~= short + " "@ + item@.take(m + 1));
                m = m + 1;
            }
            assert(item@.take(item.len() as int) =~= item@);
            k = k + 1;
        }
    }
    let mut out = String::new();
    let mut n: usize = 0;
    assert(line@.take(0) =~= Seq::<char>::empty());
    while n < line.len()
        invariant
            n <= line.len(),
            out@ == escaped(line@.take(n as int)),
        decreases line.len() - n,
    {
        proof {
            assert(line@.take(n + 1).drop_last() =~= line@.take(n as int));
            assert(line@.take(n + 1).last() == line@[n as int]);
        }
        show(&mut out, line[n]);
        n = n + 1;
    }
    assert(line@.take(line.len() as int) =~= line@);
    out
}

/// The kinds of input and output errors that are told apart here.
#[derive(Clone, Copy, Debug, PartialEq, Eq, Structural)]
pub enum IoKind {
    NotFound,
    InvalidInput,
    Other,
}

/// The kind of an error.
pub uninterp spec fn kind_of(e: std::io::Error) -> IoKind;

/// `std::io::Error::kind`, with every kind but the two that are named
/// taken together.
#[verifier::external_body]
fn error_kind(e: &std::io::Error) -> (r: IoKind)
    ensures
        r == kind_of(*e),
{
    match e.kind() {
        std::io::ErrorKind::NotFound => IoKind::NotFound,
        std::io::ErrorKind::InvalidInput => IoKind::InvalidInput,
        _ => IoKind::Other,
    }
}

/// The error in a result of reading a symlink that stands in the way of
/// replacing it: none where the link was read, where nothing is there, or
/// where what is there is no symlink.
pub fn fatal_err<T>(r: Result<T, std::io::Error>) -> (e: Option<std::io::Error>)
    ensures
        match r {
            Ok(_) => e is None,
            Err(err) => if kind_of(err) == IoKind::Other {
                e == Some(err)
            } else {
                e is None
            },
        },
{
    match r {
        Ok(_) => None,
        Err(e) => match error_kind(&e) {
            IoKind::Other => Some(e),
            _ => None,
        },
    }
}

/// What is wrong with a symlink.
#[derive(Clone, Copy, Debug, PartialEq, Eq, Structural)]
pub enum LinkProblem {
    /// It points elsewhere, and only checking was asked for.
    WrongTarget,
    /// It could not be read.
    Unreadable,
}

/// What to do about a symlink.
#[derive(Clone, Copy, Debug, PartialEq, Eq, Structural)]
pub enum LinkAction {
    /// It points where it should.
    Keep,
    /// It is left as it is; the problem was recorded as an error.
    Report(LinkProblem),
    /// It is to be replaced by a link to the destination.
    Fix,
}

/// What is to be done about a symlink that reads as `link` and should
/// point to `dest`.
pub open spec fn link_action(link: Result<String, std::io::Error>, dest: Seq<char>, check: bool) -> LinkAction {
    match link {
        Ok(target) => if target@ == dest {
            LinkAction::Keep
        } else if check {
            LinkAction::Report(LinkProblem::WrongTarget)
        } else {
            LinkAction::Fix
        },
        Err(e) => if check || kind_of(e) == IoKind::Other {
            LinkAction::Report(LinkProblem::Unreadable)
        } else {
            LinkAction::Fix
        },
    }
}

/// Decides about one symlink. A link that points to `dest` is kept. When
/// only checking, any other state is an error. Otherwise the link is to be
/// replaced, unless reading it failed for another reason than that nothing
/// or no symlink is there.
pub fn symlink_file(
    link: Result<String, std::io::Error>,
    dest: &str,
    opt: &Options,
    exit: &mut ExitCode,
) -> (r: LinkAction)
    ensures
        r == link_action(link, dest@, opt.check),
        r is Report ==> final(exit).code() == 1,
        !(r is Report) ==> final(exit).code() == old(exit).code(),
        final(exit).is_closed() == old(exit).is_closed(),
{
    match link {
        Ok(target) => {
            if let Sign::Equal = compare(target.as_str(), dest) {
                return LinkAction::Keep;
            }
            if opt.check {
                exit.report_error();
                return LinkAction::Report(LinkProblem::WrongTarget);
            }
            LinkAction::Fix
        },
        Err(e) => {
            if opt.check {
                exit.report_error();
                return LinkAction::Report(LinkProblem::Unreadable);
            }
            match fatal_err::<()>(Err(e)) {
                Some(_) => {
                    exit.report_error();
                    LinkAction::Report(LinkProblem::Unreadable)
                },
                None => LinkAction::Fix,
            }
        },
    }
}

/// The path of the symlink for the file `name` of the name resolution.
pub fn link_path(name: &str) -> (r: String)
    ensures
        r@ == "/etc/"@ + name@,
{
    joined("/etc/", name)
}

/// The path at which the new symlink for the file `name` is made before it
/// takes the place of the old one.
pub fn link_tmp_path(name: &str) -> (r: String)
    ensures
        r@ == "/etc/"@ + name@ + ".tmp"@,
{
    joined(link_path(name).as_str(), ".tmp")
}

/// Decides about the two symlinks of the name resolution, `resolv.conf`
/// first and `hosts` second, each against its own destination.
pub fn symlink_dns(
    resolv_conf: (Result<String, std::io::Error>, &str),
    hosts: (Result<String, std::io::Error>, &str),
    opt: &Options,
    exit: &mut ExitCode,
) -> (r: (LinkAction, LinkAction))
    ensures
        r.0 == link_action(resolv_conf.0, resolv_conf.1@, opt.check),
        r.1 == link_action(hosts.0, hosts.1@, opt.check),
        final(exit).code() == if r.0 is Report || r.1 is Report {
            1
        } else {
            old(exit).code()
        },
        final(exit).is_closed() == old(exit).is_closed(),
{
    let first = symlink_file(resolv_conf.0, resolv_conf.1, opt, exit);
    let second = symlink_file(hosts.0, hosts.1, opt, exit);
    (first, second)
}

/// The names of the files of the name resolution whose symlinks are
/// looked after.
pub fn dns_files() -> (r: (&'static str, &'static str))
    ensures
        r.0@ == "resolv.conf"@,
        r.1@ == "hosts"@,
{
    ("resolv.conf", "hosts")
}

/// The places of the missing directories among `present`.
pub open spec fn missing(present: Seq<bool>) -> Seq<usize>
    decreases present.len(),
{
    if present.len() == 0 {
        seq![]
    } else if present.last() {
        missing(present.drop_last())
    } else {
        missing(present.drop_last()).push((present.len() - 1) as usize)
    }
}

/// Decides about the directories of the volumes, given for each whether it
/// is there: the missing ones are to be created, in order; when only
/// checking, nothing is created and a missing directory is an error.
pub fn check_volume_dirs(present: &Vec<bool>, opt: &Options, exit: &mut ExitCode) -> (r: Vec<usize>)
    ensures
        r@ == if opt.check {
            Seq::<usize>::empty()
        } else {
            missing(present@)
        },
        final(exit).code() == if opt.check && missing(present@).len() > 0 {
            1
        } else {
            old(exit).code()
        },
        final(exit).is_closed() == old(exit).is_closed(),
{
    let mut create: Vec<usize> = Vec::new();
    let mut i: usize = 0;
    let mut found: bool = false;
    assert(present@.take(0) =~= Seq::<bool>::empty());
    while i < present.len()
        invariant
            i <= present@.len(),
            found == (missing(present@.take(i as int)).len() > 0),
            create@ == if opt.check {
                Seq::<usize>::empty()
            } else {
                missing(present@.take(i as int))
            },
        decreases present@.len() - i,
    {
        proof {
            assert(present@.take(i + 1).drop_last() =~= present@.take(i as int));
            assert(present@.take(i + 1).last() == present@[i as int]);
        }
        if !present[i] {
            found = true;
            if !opt.check {
                create.push(i);
            }
        }
        i = i + 1;
    }
    assert(present@.take(present@.len() as int) =~= present@);
    if found && opt.check {
        exit.report_error();
    }
    create
}

/// What listing and parsing gave for one descriptor file.
#[derive(Clone, Copy, Debug, PartialEq, Eq, Structural)]
pub enum Found {
    /// The directory could not be listed further.
    ListError,
    /// The file does not parse or validate.
    Unparsable,
    /// The file is a valid descriptor.
    Parsed,
}

/// How many of the found files are looked at: all up to and including the
/// first at which listing failed.
pub open spec fn looked_at(found: Seq<Found>) -> int
    decreases found.len(),
{
    if found.len() == 0 {
        0
    } else if found[0] == Found::ListError {
        1
    } else {
        1 + looked_at(found.drop_first())
    }
}

/// Whether any of the first `n` found files is not a valid descriptor.
pub open spec fn any_bad(found: Seq<Found>, n: int) -> bool {
    exists|i: int| 0 <= i < n && i < found.len() && #[trigger] found[i] != Found::Parsed
}

/// Goes through what the glob gave. Where the glob itself failed
/// (`None`), that is the one error. Else the files are looked at in
/// order: one that does not parse is an error and the scan goes on; one at
/// which listing fails is an error and ends the scan. Returns how many
/// files were looked at.
pub fn check_configs(files: Option<&Vec<Found>>, exit: &mut ExitCode) -> (r: usize)
    ensures
        match files {
            None => r == 0 && final(exit).code() == 1,
            Some(found) => r == looked_at(found@) && final(exit).code() == if any_bad(
                found@,
                r as int,
            ) {
                1
            } else {
                old(exit).code()
            },
        },
        final(exit).is_closed() == old(exit).is_closed(),
{
    let found = match files {
        Some(found) => found,
        None => {
            exit.report_error();
            return 0;
        },
    };
    let mut i: usize = 0;
    let mut bad: bool = false;
    let mut stopped: bool = false;
    assert(found@.skip(0) =~= found@);
    while i < found.len() && !stopped
        invariant
            i <= found@.len(),
            looked_at(found@) == if stopped {
                i as int
            } else {
                i + looked_at(found@.skip(i as int))
            },
            bad == any_bad(found@, i as int),
        decreases found@.len() - i,
    {
        let item = found[i];
        proof {
            assert(found@.skip(i as int)[0] == item);
            assert(found@.skip(i as int).drop_first() =~= found@.skip(i + 1));
        }
        match item {
            Found::Parsed => {
                assert(any_bad(found@, i + 1) ==> any_bad(found@, i as int));
            },
            Found::Unparsable => {
                bad = true;
                assert(found@[i as int] != Found::Parsed);
            },
            Found::ListError => {
                bad = true;
                stopped = true;
                assert(found@[i as int] != Found::Parsed);
            },
        }
        i = i + 1;
    }
    if bad {
        exit.report_error();
    }
    i
}

} // verus!
