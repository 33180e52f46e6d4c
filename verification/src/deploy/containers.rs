//! The build phase: which containers the builder is asked for, what its
//! answers are worth, and the threshold between building and the stages.

use vstd::prelude::*;
use vstd::utf8::{decode_utf8, valid_utf8};
use crate::deploy::resolve::{Deployment, Spec};
use crate::names::{NameMap, NameSet};
use crate::text::{chars_of, joined, trim, trimmed};

verus! {

/// `core::str::Utf8Error`: why bytes are no text, carried through as it is.
#[verifier::external_type_specification]
#[verifier::external_body]
pub struct ExUtf8Error(core::str::Utf8Error);

/// `core::str::from_utf8`: bytes are text exactly where they are valid
/// UTF-8, and the text is what they decode to.
pub assume_specification[ core::str::from_utf8 ](v: &[u8]) -> (r: Result<
    &str,
    core::str::Utf8Error,
>)
    ensures
        r is Ok <==> valid_utf8(v@),
        r matches Ok(s) ==> s@ == decode_utf8(v@),
;

/// Whether a character may stand in a version: an ASCII letter or digit, a
/// dash or a dot.
pub open spec fn is_version_char(c: char) -> bool {
    let u = c as u32;
    ||| 0x30 <= u <= 0x39
    ||| 0x41 <= u <= 0x5a
    ||| 0x61 <= u <= 0x7a
    ||| c == '-'
    ||| c == '.'
}

/// Whether a text is an acceptable version: not empty and made of version
/// characters only.
pub open spec fn is_version(s: Seq<char>) -> bool {
    s.len() > 0 && forall|i: int| 0 <= i < s.len() ==> is_version_char(#[trigger] s[i])
}

/// Whether a character may stand in a version.
fn version_char(c: char) -> (r: bool)
    ensures
        r == is_version_char(c),
{
    let u: u32 = c as u32;
    (0x30 <= u && u <= 0x39) || (0x41 <= u && u <= 0x5a) || (0x61 <= u && u <= 0x7a) || c == '-'
        || c == '.'
}

/// Whether `s` is an acceptable version.
pub fn check_ver(s: &str) -> (r: bool)
    ensures
        r == is_version(s@),
{
    let chars = chars_of(s);
    if chars.len() == 0 {
        return false;
    }
    let mut i: usize = 0;
    while i < chars.len()
        invariant
            i <= chars.len(),
            chars@ == s@,
            forall|j: int| 0 <= j < i ==> is_version_char(#[trigger] chars@[j]),
        decreases chars.len() - i,
    {
        if !version_char(chars[i]) {
            return false;
        }
        i = i + 1;
    }
    true
}

/// A built container: the immutable version the builder gave it.
#[derive(Debug)]
pub struct Container {
    pub version: String,
}

/// How one invocation of the builder ended.
#[derive(Debug)]
pub enum BuildOutcome {
    /// The builder could not be started.
    SpawnFailed,
    /// The builder ran and exited with a failure status.
    Failed,
    /// The builder exited successfully, having written this to its
    /// standard output.
    Finished(Vec<u8>),
}

/// Why a container counts as failed.
#[derive(Clone, Copy, Debug, PartialEq, Eq, Structural)]
pub enum BuildError {
    /// The builder could not be started.
    SpawnFailed,
    /// The builder exited with a failure status.
    ExitStatus,
    /// What the builder printed is no version.
    InvalidVersion,
}

/// What a builder's answer is worth: the version it carries, which is its
/// output, decoded and trimmed, where the builder succeeded and that text
/// is a version; else why the container failed.
pub open spec fn judged(outcome: BuildOutcome) -> Result<Seq<char>, BuildError> {
    match outcome {
        BuildOutcome::SpawnFailed => Err(BuildError::SpawnFailed),
        BuildOutcome::Failed => Err(BuildError::ExitStatus),
        BuildOutcome::Finished(stdout) => if valid_utf8(stdout@) && is_version(
            trimmed(decode_utf8(stdout@)),
        ) {
            Ok(trimmed(decode_utf8(stdout@)))
        } else {
            Err(BuildError::InvalidVersion)
        },
    }
}

/// The version in a builder's answer, or why there is none.
pub fn read_version(outcome: &BuildOutcome) -> (r: Result<String, BuildError>)
    ensures
        match r {
            Ok(v) => judged(*outcome) == Ok::<Seq<char>, BuildError>(v@),
            Err(e) => judged(*outcome) == Err::<Seq<char>, BuildError>(e),
        },
{
    match outcome {
        BuildOutcome::SpawnFailed => Err(BuildError::SpawnFailed),
        BuildOutcome::Failed => Err(BuildError::ExitStatus),
        BuildOutcome::Finished(stdout) => match core::str::from_utf8(stdout.as_slice()) {
            Ok(text) => {
                let version = trim(text);
                if check_ver(version) {
                    Ok(version.to_owned())
                } else {
                    Err(BuildError::InvalidVersion)
                }
            },
            Err(_) => Err(BuildError::InvalidVersion),
        },
    }
}

/// Each name with the suffix appended.
pub open spec fn suffixed(names: Seq<String>, suffix: Seq<char>) -> Seq<Seq<char>> {
    names.map_values(|n: String| n@ + suffix)
}

/// The distinct members of `names`, each at the place of its first
/// occurrence.
pub open spec fn first_occurrences(names: Seq<Seq<char>>) -> Seq<Seq<char>>
    decreases names.len(),
{
    if names.len() == 0 {
        seq![]
    } else {
        let rest = first_occurrences(names.drop_last());
        if rest.contains(names.last()) {
            rest
        } else {
            rest.push(names.last())
        }
    }
}

/// The builder is asked for every name, and for none twice.
pub proof fn lemma_built_once(names: Seq<Seq<char>>)
    ensures
        first_occurrences(names).no_duplicates(),
        forall|n: Seq<char>| first_occurrences(names).contains(n) <==> names.contains(n),
    decreases names.len(),
{
    if names.len() > 0 {
        let rest = names.drop_last();
        let last = names.last();
        lemma_built_once(rest);
        let before = first_occurrences(rest);
        let all = first_occurrences(names);
        assert forall|n: Seq<char>| all.contains(n) <==> names.contains(n) by {
            if all.contains(n) {
                let i = all.index_of(n);
                if i < before.len() {
                    assert(before[i] == n);
                    assert(before.contains(n));
                    assert(rest.contains(n));
                    let j = rest.index_of(n);
                    assert(rest[j] == n);
                    assert(names[j] == n);
                } else {
                    assert(names[names.len() - 1] == n);
                }
            }
            if names.contains(n) {
                let j = names.index_of(n);
                if j < rest.len() {
                    assert(rest[j] == n);
                    assert(rest.contains(n));
                    assert(before.contains(n));
                    let i = before.index_of(n);
                    assert(before[i] == n);
                    assert(all[i] == n);
                } else if before.contains(n) {
                } else {
                    assert(all[before.len() as int] == n);
                }
            }
        }
    }
}

/// The views of a list of names.
pub open spec fn views(names: Seq<String>) -> Seq<Seq<char>> {
    names.map_values(|n: String| n@)
}

/// The containers to ask the builder for, in order: every name with the
/// suffix appended, once, at the place where it first occurs.
pub fn build_order(names: &Vec<String>, suffix: &str) -> (r: Vec<String>)
    ensures
        views(r@) == first_occurrences(suffixed(names@, suffix@)),
{
    let mut order: Vec<String> = Vec::new();
    let mut seen = NameSet::new();
    let mut i: usize = 0;
    assert(suffixed(names@, suffix@).take(0) =~= Seq::<Seq<char>>::empty());
    assert(views(order@) =~= first_occurrences(suffixed(names@, suffix@).take(0)));
    while i < names.len()
        invariant
            i <= names@.len(),
            views(order@) == first_occurrences(suffixed(names@, suffix@).take(i as int)),
            forall|n: Seq<char>| seen@.contains(n) <==> views(order@).contains(n),
        decreases names@.len() - i,
    {
        let name = joined(names[i].as_str(), suffix);
        let ghost all = suffixed(names@, suffix@);
        let ghost before = views(order@);
        proof {
            assert(all.take(i + 1).drop_last() =~= all.take(i as int));
            assert(all.take(i + 1).last() == name@);
        }
        if !seen.contains(name.as_str()) {
            seen.insert(name.clone());
            order.push(name);
            proof {
                assert(views(order@) =~= before.push(name@));
                assert forall|n: Seq<char>| seen@.contains(n) <==> views(order@).contains(
                    n,
                ) by {
                    if views(order@).contains(n) {
                        let k = views(order@).index_of(n);
                        if k < before.len() {
                            assert(before[k] == n);
                        }
                    }
                    if before.contains(n) {
                        let k = before.index_of(n);
                        assert(views(order@)[k] == n);
                    }
                    if n == name@ {
                        assert(views(order@)[before.len() as int] == n);
                    }
                }
            }
        }
        i = i + 1;
    }
    assert(suffixed(names@, suffix@).take(names@.len() as int) =~= suffixed(names@, suffix@));
    order
}

/// What the build phase has to show: the version of every container that
/// was built, and why each of the others failed.
#[derive(Debug)]
pub struct BuildReport {
    pub containers: NameMap<Container>,
    pub failed: NameMap<BuildError>,
}

/// The version of every container of a map.
pub open spec fn versions(containers: Map<Seq<char>, Container>) -> Map<Seq<char>, Seq<char>> {
    containers.map_values(|c: Container| c.version@)
}

/// Versions and failures after one more answer of the builder: nothing
/// changes for a container that already has a version; else the answer
/// gives the container its version, or marks it as failed.
pub open spec fn report_step(
    before: (Map<Seq<char>, Seq<char>>, Map<Seq<char>, BuildError>),
    answer: (String, BuildOutcome),
) -> (Map<Seq<char>, Seq<char>>, Map<Seq<char>, BuildError>) {
    if before.0.dom().contains(answer.0@) {
        before
    } else {
        match judged(answer.1) {
            Ok(v) => (before.0.insert(answer.0@, v), before.1),
            Err(e) => (before.0, before.1.insert(answer.0@, e)),
        }
    }
}

/// Versions and failures after all the answers, taken in order.
pub open spec fn report_of(answers: Seq<(String, BuildOutcome)>) -> (
    Map<Seq<char>, Seq<char>>,
    Map<Seq<char>, BuildError>,
)
    decreases answers.len(),
{
    if answers.len() == 0 {
        (Map::empty(), Map::empty())
    } else {
        report_step(report_of(answers.drop_last()), answers.last())
    }
}

/// Whether the builder was asked for the container of this name.
pub open spec fn asked(answers: Seq<(String, BuildOutcome)>, name: Seq<char>) -> bool {
    exists|i: int| 0 <= i < answers.len() && (#[trigger] answers[i]).0@ == name
}

/// Every container that the builder was asked for has a version or is
/// marked as failed, and no other container is; so after a build without
/// failures the versions are those of exactly the containers asked for.
pub proof fn lemma_build_accounts(answers: Seq<(String, BuildOutcome)>, name: Seq<char>)
    ensures
        asked(answers, name) <==> report_of(answers).0.dom().contains(name) || report_of(
            answers,
        ).1.dom().contains(name),
    decreases answers.len(),
{
    if answers.len() > 0 {
        let rest = answers.drop_last();
        lemma_build_accounts(rest, name);
        if asked(rest, name) {
            let i = choose|i: int| 0 <= i < rest.len() && (#[trigger] rest[i]).0@ == name;
            assert(answers[i].0@ == name);
        }
        if asked(answers, name) {
            let i = choose|i: int| 0 <= i < answers.len() && (#[trigger] answers[i]).0@ == name;
            if i < rest.len() {
                assert(rest[i].0@ == name);
            }
        } else {
            assert(answers[answers.len() - 1].0@ != name);
        }
    }
}

/// Whether no container is asked for twice.
pub open spec fn asked_once(answers: Seq<(String, BuildOutcome)>) -> bool {
    forall|i: int, j: int|
        0 <= i < j < answers.len() ==> (#[trigger] answers[i]).0@ != (#[trigger] answers[j]).0@
}

/// Where no container is asked for twice, every answer counts: the
/// container has the version that its answer carries, or is marked as
/// failed for the reason that its answer gives, and never both.
pub proof fn lemma_every_answer_counts(answers: Seq<(String, BuildOutcome)>, i: int)
    requires
        asked_once(answers),
        0 <= i < answers.len(),
    ensures
        match judged(answers[i].1) {
            Ok(v) => report_of(answers).0.dom().contains(answers[i].0@) && report_of(
                answers,
            ).0[answers[i].0@] == v && !report_of(answers).1.dom().contains(answers[i].0@),
            Err(e) => report_of(answers).1.dom().contains(answers[i].0@) && report_of(
                answers,
            ).1[answers[i].0@] == e && !report_of(answers).0.dom().contains(answers[i].0@),
        },
    decreases answers.len(),
{
    let rest = answers.drop_last();
    let last = answers.len() - 1;
    assert(asked_once(rest)) by {
        assert forall|a: int, b: int| 0 <= a < b < rest.len() implies (#[trigger] rest[a]).0@ != (
        #[trigger] rest[b]).0@ by {
            assert(rest[a] == answers[a] && rest[b] == answers[b]);
        }
    }
    if i < last {
        assert(rest[i] == answers[i]);
        lemma_every_answer_counts(rest, i);
        assert(answers[i].0@ != answers[last].0@);
    } else {
        lemma_build_accounts(rest, answers[i].0@);
        if asked(rest, answers[i].0@) {
            let k = choose|k: int| 0 <= k < rest.len() && (#[trigger] rest[k]).0@ == answers[i].0@;
            assert(answers[k].0@ == answers[last].0@);
        }
    }
}

/// Takes the builder's answers, one per container asked for, and keeps
/// the versions and the failures. A failure never stops the phase.
pub fn build(answers: &Vec<(String, BuildOutcome)>) -> (r: BuildReport)
    ensures
        versions(r.containers@) == report_of(answers@).0,
        r.failed@ == report_of(answers@).1,
{
    let mut containers: NameMap<Container> = NameMap::new();
    let mut failed: NameMap<BuildError> = NameMap::new();
    let mut i: usize = 0;
    assert(versions(containers@) =~= report_of(answers@.take(0)).0);
    while i < answers.len()
        invariant
            i <= answers@.len(),
            versions(containers@) == report_of(answers@.take(i as int)).0,
            failed@ == report_of(answers@.take(i as int)).1,
        decreases answers@.len() - i,
    {
        proof {
            assert(answers@.take(i + 1).drop_last() =~= answers@.take(i as int));
            assert(answers@.take(i + 1).last() == answers@[i as int]);
        }
        let ghost before = versions(containers@);
        let name = &answers[i].0;
        if !containers.contains_key(name.as_str()) {
            match read_version(&answers[i].1) {
                Ok(version) => {
                    containers.insert(name.clone(), Container { version });
                    assert(versions(containers@) =~= before.insert(name@, version@));
                },
                Err(e) => {
                    failed.insert(name.clone(), e);
                },
            }
        }
        i = i + 1;
    }
    assert(answers@.take(answers@.len() as int) =~= answers@);
    BuildReport { containers, failed }
}

/// Why the stages cannot be entered.
#[derive(Debug)]
pub enum EntryError {
    /// The selected deployment is not among the resolved ones.
    NoDeployment(String),
    /// Some containers failed to build.
    BuildFailed(NameMap<BuildError>),
}

/// What the stages work on: the resolved deployments, the selected one,
/// and the version of every container. It exists only where the selected
/// deployment does and no container failed to build.
#[derive(Debug)]
pub struct Context {
    spec: Spec,
    dry_run: bool,
    deployment: String,
    containers: NameMap<Container>,
}

impl Context {
    /// The resolved deployments.
    pub closed spec fn spec_view(&self) -> Spec {
        self.spec
    }

    /// Whether the stages only prepare.
    pub closed spec fn is_dry_run(&self) -> bool {
        self.dry_run
    }

    /// The name of the selected deployment.
    pub closed spec fn deployment_view(&self) -> Seq<char> {
        self.deployment@
    }

    /// The built containers.
    pub closed spec fn containers_view(&self) -> Map<Seq<char>, Container> {
        self.containers@
    }

    #[verifier::type_invariant]
    spec fn inv(&self) -> bool {
        self.spec.deployments@.dom().contains(self.deployment@)
    }

    /// The threshold between the build phase and the stages: it is passed
    /// where the selected deployment exists and no container failed to
    /// build.
    pub fn new(spec: Spec, dry_run: bool, deployment: String, report: BuildReport) -> (r: Result<
        Context,
        EntryError,
    >)
        ensures
            r is Ok <==> spec.deployments@.dom().contains(deployment@)
                && report.failed@.dom().len() == 0,
            r matches Ok(c) ==> c.spec_view() == spec && c.is_dry_run() == dry_run
                && c.deployment_view() == deployment@ && c.containers_view()
                == report.containers@,
            r matches Err(EntryError::NoDeployment(name)) ==> name@ == deployment@
                && !spec.deployments@.dom().contains(deployment@),
            r matches Err(EntryError::BuildFailed(failed)) ==> failed@ == report.failed@
                && spec.deployments@.dom().contains(deployment@),
    {
        if !spec.deployments.contains_key(deployment.as_str()) {
            return Err(EntryError::NoDeployment(deployment));
        }
        let BuildReport { containers, failed } = report;
        if failed.len() > 0 {
            return Err(EntryError::BuildFailed(failed));
        }
        Ok(Context { spec, dry_run, deployment, containers })
    }

    /// The selected deployment.
    pub fn selected(&self) -> (r: &Deployment)
        ensures
            *r == self.spec_view().deployments@[self.deployment_view()],
    {
        proof {
            use_type_invariant(self);
        }
        match self.spec.deployments.get(self.deployment.as_str()) {
            Some(deployment) => deployment,
            None => vstd::pervasive::unreached(),
        }
    }

    /// The resolved deployments.
    pub fn spec(&self) -> (r: &Spec)
        ensures
            *r == self.spec_view(),
    {
        &self.spec
    }

    /// Whether the stages only prepare.
    pub fn dry_run(&self) -> (r: bool)
        ensures
            r == self.is_dry_run(),
    {
        self.dry_run
    }

    /// The name of the selected deployment.
    pub fn deployment(&self) -> (r: &String)
        ensures
            r@ == self.deployment_view(),
    {
        &self.deployment
    }

    /// The built containers.
    pub fn containers(&self) -> (r: &NameMap<Container>)
        ensures
            r@ == self.containers_view(),
    {
        &self.containers
    }
}

} // verus!
