//! Listing the deployments that are available.

use vstd::prelude::*;
use crate::deploy::resolve::{Deployment, Spec};
use crate::text::{chars_of, joined, string_of};

verus! {

/// One line of the list: a deployment and how many processes of each role
/// it has.
#[derive(Debug)]
pub struct Summary {
    pub name: String,
    pub daemons: usize,
    pub commands: usize,
}

/// The deployments of `spec`, in name order, each with the numbers of its
/// daemons and commands.
pub fn available(spec: &Spec) -> (r: Vec<Summary>)
    ensures
        r@.len() == spec.deployments.names().len(),
        forall|i: int|
            0 <= i < r@.len() ==> {
                &&& (#[trigger] r@[i]).name@ == spec.deployments.names()[i]
                &&& r@[i].daemons == spec.deployments.items()[i].daemons@.dom().len()
                &&& r@[i].commands == spec.deployments.items()[i].commands@.dom().len()
            },
{
    let mut out: Vec<Summary> = Vec::new();
    let mut i: usize = 0;
    let n = spec.deployments.len();
    while i < n
        invariant
            n == spec.deployments.names().len(),
            i <= spec.deployments.names().len(),
            spec.deployments.names().len() == spec.deployments.items().len(),
            out@.len() == i,
            forall|j: int|
                0 <= j < i ==> {
                    &&& (#[trigger] out@[j]).name@ == spec.deployments.names()[j]
                    &&& out@[j].daemons == spec.deployments.items()[j].daemons@.dom().len()
                    &&& out@[j].commands == spec.deployments.items()[j].commands@.dom().len()
                },
        decreases spec.deployments.names().len() - i,
    {
        let dep: &Deployment = spec.deployments.item_at(i);
        out.push(
            Summary {
                name: spec.deployments.name_at(i).clone(),
                daemons: dep.daemons.len(),
                commands: dep.commands.len(),
            },
        );
        i = i + 1;
    }
    out
}

/// `s` without its round brackets.
pub open spec fn without_brackets(s: Seq<char>) -> Seq<char>
    decreases s.len(),
{
    if s.len() == 0 {
        s
    } else if s.last() == '(' || s.last() == ')' {
        without_brackets(s.drop_last())
    } else {
        without_brackets(s.drop_last()).push(s.last())
    }
}

/// The glob that tells the user where descriptor files are looked for:
/// the two configured patterns joined by a slash, without the brackets
/// that mark their capture groups.
pub fn scan_hint(deployment_dirs: &str, lithos_configs: &str) -> (r: String)
    ensures
        r@ == without_brackets(deployment_dirs@ + "/"@ + lithos_configs@),
{
    let joined = joined(joined(deployment_dirs, "/").as_str(), lithos_configs);
    let chars = chars_of(joined.as_str());
    let mut kept: Vec<char> = Vec::new();
    let mut i: usize = 0;
    assert(chars@.take(0) =~= Seq::<char>::empty());
    while i < chars.len()
        invariant
            i <= chars.len(),
            kept@ == without_brackets(chars@.take(i as int)),
        decreases chars.len() - i,
    {
        proof {
            assert(chars@.take(i + 1).drop_last() =~= chars@.take(i as int));
            assert(chars@.take(i + 1).last() == chars@[i as int]);
        }
        let c = chars[i];
        if c != '(' && c != ')' {
            kept.push(c);
        }
        i = i + 1;
    }
    assert(chars@.take(chars.len() as int) =~= chars@);
    string_of(&kept)
}

} // verus!
