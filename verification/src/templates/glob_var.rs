//! The variable that stands for one glob match: the matched path and the
//! text of its capture groups.

use vstd::prelude::*;
use capturing_glob::Entry;

verus! {

/// `capturing_glob::Entry`: one match of a glob, read only through the
/// two functions below.
#[verifier::external_type_specification]
#[verifier::external_body]
pub struct ExEntry(Entry);

/// The groups of a glob match, group 0 being the whole matched path; a group
/// whose bytes are not UTF-8 has no text.
pub uninterp spec fn entry_groups(e: Entry) -> Seq<Option<Seq<char>>>;

/// `capturing_glob::Entry::path`: the matched path is group 0 of the match,
/// handed out as text when it is UTF-8.
#[verifier::external_body]
fn entry_path(e: &Entry) -> (r: Option<String>)
    ensures
        match r {
            Some(s) => entry_groups(*e).len() >= 1 && entry_groups(*e)[0] == Some(s@),
            None => entry_groups(*e).len() >= 1 && entry_groups(*e)[0] is None,
        },
{
    e.path().to_str().map(|s| s.to_string())
}

/// `capturing_glob::Entry::group`: group `n` if the match has one, with its
/// text when it is UTF-8; `None` past the last group.
#[verifier::external_body]
fn entry_group(e: &Entry, n: usize) -> (r: Option<Option<String>>)
    ensures
        r is Some <==> n < entry_groups(*e).len(),
        r matches Some(g) ==> (g is Some <==> entry_groups(*e)[n as int] is Some),
        r matches Some(Some(s)) ==> entry_groups(*e)[n as int] == Some(s@),
{
    e.group(n).map(|g| g.to_str().map(|s| s.to_string()))
}

/// The most groups of a match that a `GlobVar` keeps.
pub const MAX_CAPTURES: usize = 10;

/// A matched path together with its capture groups; `captures[0]` is the
/// whole path, `captures[1]` the first group of the pattern.
#[derive(Debug)]
pub struct GlobVar {
    path: String,
    captures: Vec<String>,
}

impl GlobVar {
    /// The matched path.
    pub closed spec fn path_view(&self) -> Seq<char> {
        self.path@
    }

    /// The texts of the kept groups.
    pub closed spec fn captures_view(&self) -> Seq<Seq<char>> {
        self.captures@.map_values(|s: String| s@)
    }

    /// A variable made of the given path and groups.
    pub fn new(path: String, captures: Vec<String>) -> (r: GlobVar)
        ensures
            r.path_view() == path@,
            r.captures_view() == captures@.map_values(|s: String| s@),
    {
        GlobVar { path, captures }
    }

    /// How many groups of `groups` are kept.
    pub open spec fn kept(groups: Seq<Option<Seq<char>>>) -> int {
        if groups.len() < MAX_CAPTURES {
            groups.len() as int
        } else {
            MAX_CAPTURES as int
        }
    }

    /// The variable for a glob match: its path and its first groups, at most
    /// [`MAX_CAPTURES`] of them. There is none when the path or one of those
    /// groups is not UTF-8.
    pub fn from_entry(e: &Entry) -> (r: Option<GlobVar>)
        ensures
            entry_groups(*e).len() >= 1,
            r is Some <==> forall|n: int|
                0 <= n < Self::kept(entry_groups(*e)) ==> (#[trigger] entry_groups(*e)[n]) is Some,
            r matches Some(v) ==> {
                &&& Some(v.path_view()) == entry_groups(*e)[0]
                &&& v.captures_view().len() == Self::kept(entry_groups(*e))
                &&& forall|n: int|
                    0 <= n < v.captures_view().len() ==> Some(#[trigger] v.captures_view()[n])
                        == entry_groups(*e)[n]
            },
    {
        let path = match entry_path(e) {
            Some(path) => path,
            None => {
                return None;
            },
        };
        let mut captures: Vec<String> = Vec::new();
        let mut i: usize = 0;
        while i < MAX_CAPTURES
            invariant
                i <= MAX_CAPTURES,
                i <= entry_groups(*e).len(),
                captures@.len() == i,
                forall|n: int|
                    0 <= n < i ==> entry_groups(*e)[n] == Some(#[trigger] captures@[n]@),
            ensures
                i == MAX_CAPTURES || i == entry_groups(*e).len(),
            decreases MAX_CAPTURES - i,
        {
            match entry_group(e, i) {
                Some(Some(text)) => {
                    captures.push(text);
                },
                Some(None) => {
                    assert(entry_groups(*e)[i as int] is None);
                    return None;
                },
                None => {
                    break;
                },
            }
            i = i + 1;
        }
        let r = GlobVar { path, captures };
        assert(r.captures_view().len() == Self::kept(entry_groups(*e)));
        assert forall|n: int| 0 <= n < r.captures_view().len() implies Some(
            #[trigger] r.captures_view()[n],
        ) == entry_groups(*e)[n] by {
            assert(r.captures_view()[n] == r.captures@[n]@);
        }
        assert forall|n: int| 0 <= n < Self::kept(entry_groups(*e)) implies (
            #[trigger] entry_groups(*e)[n]) is Some by {
            assert(entry_groups(*e)[n] == Some(r.captures@[n]@));
        }
        Some(r)
    }

    /// The matched path: what the variable prints as.
    pub fn path(&self) -> (r: &String)
        ensures
            r@ == self.path_view(),
    {
        &self.path
    }

    /// The group at `index`, if the match has one: what indexing the variable
    /// gives.
    pub fn capture(&self, index: usize) -> (r: Option<&String>)
        ensures
            r is Some <==> index < self.captures_view().len(),
            r matches Some(s) ==> s@ == self.captures_view()[index as int],
    {
        if index < self.captures.len() {
            Some(&self.captures[index])
        } else {
            None
        }
    }
}

} // verus!
