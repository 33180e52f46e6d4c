//! What the command line asks for.

use vstd::prelude::*;
use vstd::string::StrSliceExecFns;
use crate::inner;
use crate::local;
use crate::names::NameMap;
use crate::text::{chars_of, find_char, first_index};

verus! {

/// The options of the program.
#[derive(Debug)]
pub struct Options {
    /// The place of the deployment configuration.
    pub destination: Option<String>,
    /// The deployment to deploy now.
    pub deployment: Option<String>,
    /// Prepare everything but do not deploy.
    pub dry_run: bool,
    /// The variables defined on the command line, each as `NAME=VALUE` or
    /// `NAME`.
    pub var: Vec<String>,
    pub command: Option<Command>,
}

/// The subcommands.
#[derive(Debug)]
pub enum Command {
    /// Run all preparation from inside a container.
    Inner(inner::Options),
    /// Check that the generated configuration is up to date.
    Check(local::CheckOptions),
    /// Update the generated configuration.
    Update(local::UpdateOptions),
}

/// What the program is to do.
#[derive(Clone, Copy, Debug, PartialEq, Eq, Structural)]
pub enum Task {
    Inner,
    Check,
    Update,
    /// Deploy the named deployment.
    Deploy,
    /// List the deployments that are available.
    List,
}

impl Options {
    /// What the options ask for: the subcommand where one is given, else a
    /// deployment where one is named, else the list of deployments.
    pub fn task(&self) -> (r: Task)
        ensures
            r == match self.command {
                Some(Command::Inner(_)) => Task::Inner,
                Some(Command::Check(_)) => Task::Check,
                Some(Command::Update(_)) => Task::Update,
                None => if self.deployment is Some {
                    Task::Deploy
                } else {
                    Task::List
                },
            },
    {
        match &self.command {
            Some(Command::Inner(_)) => Task::Inner,
            Some(Command::Check(_)) => Task::Check,
            Some(Command::Update(_)) => Task::Update,
            None => if self.deployment.is_some() {
                Task::Deploy
            } else {
                Task::List
            },
        }
    }

    /// Whether the options lack what the task needs: every task but the
    /// inner one reads the configuration and so needs the destination.
    pub fn lacks_destination(&self) -> (r: bool)
        ensures
            r == (self.destination is None && !(self.command matches Some(Command::Inner(_)))),
    {
        match self.task() {
            Task::Inner => false,
            _ => self.destination.is_none(),
        }
    }
}

/// The name in a variable definition: what stands before the first `=`, or
/// all of it where there is none.
pub open spec fn var_name(pair: Seq<char>) -> Seq<char> {
    match first_index(pair, '=') {
        Some(i) => pair.subrange(0, i),
        None => pair,
    }
}

/// The value in a variable definition: what stands after the first `=`, or
/// `true` where there is none.
pub open spec fn var_value(pair: Seq<char>) -> Seq<char> {
    match first_index(pair, '=') {
        Some(i) => pair.subrange(i + 1, pair.len() as int),
        None => "true"@,
    }
}

/// Splits one variable definition into name and value.
pub fn parse_var(pair: &str) -> (r: (String, String))
    ensures
        r.0@ == var_name(pair@),
        r.1@ == var_value(pair@),
{
    let chars = chars_of(pair);
    let end = chars.len();
    match find_char(&chars, '=') {
        Some(i) => {
            proof {
                crate::text::lemma_first_index(pair@, '=');
            }
            (
                pair.substring_char(0, i).to_owned(),
                pair.substring_char(i + 1, end).to_owned(),
            )
        },
        None => (pair.to_owned(), "true".to_owned()),
    }
}

/// The variables after the given definitions, taken in order: a later
/// definition of a name replaces an earlier one.
pub open spec fn vars_of(pairs: Seq<String>) -> Map<Seq<char>, Seq<char>>
    decreases pairs.len(),
{
    if pairs.len() == 0 {
        Map::empty()
    } else {
        vars_of(pairs.drop_last()).insert(var_name(pairs.last()@), var_value(pairs.last()@))
    }
}

/// The variables that the command line defines.
pub fn parse_vars(pairs: &Vec<String>) -> (r: NameMap<String>)
    ensures
        crate::templates::pattern::table_view(r@) == vars_of(pairs@),
{
    let mut vars: NameMap<String> = NameMap::new();
    let mut i: usize = 0;
    assert(crate::templates::pattern::table_view(vars@) =~= vars_of(pairs@.take(0)));
    while i < pairs.len()
        invariant
            i <= pairs@.len(),
            crate::templates::pattern::table_view(vars@) == vars_of(pairs@.take(i as int)),
        decreases pairs@.len() - i,
    {
        proof {
            assert(pairs@.take(i + 1).drop_last() =~= pairs@.take(i as int));
            assert(pairs@.take(i + 1).last() == pairs@[i as int]);
        }
        let ghost before = crate::templates::pattern::table_view(vars@);
        let (name, value) = parse_var(pairs[i].as_str());
        vars.insert(name, value);
        assert(crate::templates::pattern::table_view(vars@) =~= before.insert(name@, value@));
        i = i + 1;
    }
    assert(pairs@.take(pairs@.len() as int) =~= pairs@);
    vars
}

} // verus!
