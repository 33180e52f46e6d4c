//! Resolving: from the descriptor files that the configured globs matched to
//! the named deployments and the processes that belong to each.

use vstd::prelude::*;
use std::sync::Arc;
use crate::deploy::config::Config;
use crate::descriptor::{declared_container, ContainerDescriptor, ContainerField, ContainerKind};
use crate::names::{NameMap, NameSet};
use crate::templates::TemplateError;

verus! {

/// `Arc::clone`: another handle to the same shared value.
#[verifier::external_body]
fn share(config: &Arc<ContainerDescriptor>) -> (r: Arc<ContainerDescriptor>)
    ensures
        r == *config,
{
    config.clone()
}

/// What is recorded of a process, whichever role it has.
pub struct ProcessView {
    pub name: Seq<char>,
    pub container: Seq<char>,
    pub config: Arc<ContainerDescriptor>,
    pub config_path: Seq<char>,
}

/// A long-running process of a deployment.
#[derive(Debug)]
pub struct Daemon {
    pub name: String,
    pub container: String,
    pub config: Arc<ContainerDescriptor>,
    pub config_path: String,
}

/// A process of a deployment that is run on demand.
#[derive(Debug)]
pub struct Command {
    pub name: String,
    pub container: String,
    pub config: Arc<ContainerDescriptor>,
    pub config_path: String,
}

impl View for Daemon {
    type V = ProcessView;

    open spec fn view(&self) -> ProcessView {
        ProcessView {
            name: self.name@,
            container: self.container@,
            config: self.config,
            config_path: self.config_path@,
        }
    }
}

impl View for Command {
    type V = ProcessView;

    open spec fn view(&self) -> ProcessView {
        ProcessView {
            name: self.name@,
            container: self.container@,
            config: self.config,
            config_path: self.config_path@,
        }
    }
}

/// The processes of one deployment, by role and process name.
#[verifier::ext_equal]
pub struct DeploymentView {
    pub daemons: Map<Seq<char>, ProcessView>,
    pub commands: Map<Seq<char>, ProcessView>,
}

/// A named group of processes that are deployed together.
#[derive(Debug)]
pub struct Deployment {
    pub daemons: NameMap<Daemon>,
    pub commands: NameMap<Command>,
}

impl View for Deployment {
    type V = DeploymentView;

    open spec fn view(&self) -> DeploymentView {
        DeploymentView {
            daemons: self.daemons@.map_values(|d: Daemon| d@),
            commands: self.commands@.map_values(|c: Command| c@),
        }
    }
}

impl Deployment {
    /// A deployment without processes.
    pub fn new() -> (r: Deployment)
        ensures
            r@ == empty_deployment(),
    {
        let r = Deployment { daemons: NameMap::new(), commands: NameMap::new() };
        assert(r@.daemons =~= Map::<Seq<char>, ProcessView>::empty());
        assert(r@.commands =~= Map::<Seq<char>, ProcessView>::empty());
        r
    }
}

/// A glob or a path that could not be scanned.
#[derive(Debug)]
pub struct ScanError {
    pub message: String,
}

/// A descriptor file that did not parse or validate.
#[derive(Debug)]
pub struct DescriptorError {
    pub path: String,
    pub message: String,
}

/// Why one match was left out of the resolved deployments.
#[derive(Debug)]
pub enum ResolveError {
    Scan(ScanError),
    Template(TemplateError),
    Descriptor(DescriptorError),
    /// The descriptor at `path` names no container: its metadata has no
    /// `container` entry, or (`present`) has one that is not a string.
    MissingContainerField { path: String, present: bool },
}

/// One descriptor file that the globs matched, with what was derived from it.
#[derive(Debug)]
pub struct Match {
    /// The path of the descriptor file.
    pub path: String,
    /// The rendered deployment name.
    pub deployment: Result<String, TemplateError>,
    /// The rendered process name.
    pub process: Result<String, TemplateError>,
    /// The parsed descriptor.
    pub descriptor: Result<Arc<ContainerDescriptor>, DescriptorError>,
}

/// One step of the scan, in traversal order.
#[derive(Debug)]
pub enum ScanItem {
    Failed(ScanError),
    Found(Match),
}

/// A match that enters the deployments.
pub struct Accepted {
    pub deployment: Seq<char>,
    pub kind: ContainerKind,
    pub process: ProcessView,
}

/// The entry a scan item contributes, if it contributes one: both names
/// rendered, the descriptor parsed, and its metadata naming a container.
pub open spec fn accepted(item: ScanItem) -> Option<Accepted> {
    match item {
        ScanItem::Failed(_) => None,
        ScanItem::Found(m) => match (m.deployment, m.process, m.descriptor) {
            (Ok(deployment), Ok(process), Ok(config)) => match declared_container(
                config.metadata@,
            ) {
                Some(container) => Some(
                    Accepted {
                        deployment: deployment@,
                        kind: config.kind,
                        process: ProcessView {
                            name: process@,
                            container,
                            config,
                            config_path: m.path@,
                        },
                    },
                ),
                None => None,
            },
            _ => None,
        },
    }
}

/// The errors a scan item is reported with: both rendering failures where
/// both names fail; else the parse failure; else the missing container.
pub open spec fn reported(item: ScanItem) -> Seq<ResolveError> {
    match item {
        ScanItem::Failed(e) => seq![ResolveError::Scan(e)],
        ScanItem::Found(m) => match (m.deployment, m.process) {
            (Err(d), Err(p)) => seq![ResolveError::Template(d), ResolveError::Template(p)],
            (Err(d), Ok(_)) => seq![ResolveError::Template(d)],
            (Ok(_), Err(p)) => seq![ResolveError::Template(p)],
            (Ok(_), Ok(_)) => match m.descriptor {
                Err(e) => seq![ResolveError::Descriptor(e)],
                Ok(config) => if declared_container(config.metadata@) is Some {
                    seq![]
                } else {
                    seq![
                        ResolveError::MissingContainerField {
                            path: m.path,
                            present: config.metadata@.dom().contains(
                                crate::descriptor::container_key(),
                            ),
                        },
                    ]
                },
            },
        },
    }
}

/// The deployment without processes.
pub open spec fn empty_deployment() -> DeploymentView {
    DeploymentView { daemons: Map::empty(), commands: Map::empty() }
}

/// Whether a descriptor of this kind is listed among the daemons.
pub open spec fn runs_as_daemon(kind: ContainerKind) -> bool {
    kind != ContainerKind::Command
}

/// Whether a descriptor of this kind is listed among the commands.
pub open spec fn runs_as_command(kind: ContainerKind) -> bool {
    kind != ContainerKind::Daemon
}

/// A deployment after one more process entered it: it is listed under its
/// process name in each role its kind allows, in place of what was there.
pub open spec fn with_process(dep: DeploymentView, a: Accepted) -> DeploymentView {
    DeploymentView {
        daemons: if runs_as_daemon(a.kind) {
            dep.daemons.insert(a.process.name, a.process)
        } else {
            dep.daemons
        },
        commands: if runs_as_command(a.kind) {
            dep.commands.insert(a.process.name, a.process)
        } else {
            dep.commands
        },
    }
}

/// The deployments after one more scan item.
pub open spec fn graph_step(
    graph: Map<Seq<char>, DeploymentView>,
    item: ScanItem,
) -> Map<Seq<char>, DeploymentView> {
    match accepted(item) {
        None => graph,
        Some(a) => {
            let before = if graph.dom().contains(a.deployment) {
                graph[a.deployment]
            } else {
                empty_deployment()
            };
            graph.insert(a.deployment, with_process(before, a))
        },
    }
}

/// The deployments that a scan resolves to.
pub open spec fn graph_of(items: Seq<ScanItem>) -> Map<Seq<char>, DeploymentView>
    decreases items.len(),
{
    if items.len() == 0 {
        Map::empty()
    } else {
        graph_step(graph_of(items.drop_last()), items.last())
    }
}

/// The containers that the processes of a scan run in.
pub open spec fn containers_of(items: Seq<ScanItem>) -> Set<Seq<char>>
    decreases items.len(),
{
    if items.len() == 0 {
        Set::empty()
    } else {
        match accepted(items.last()) {
            None => containers_of(items.drop_last()),
            Some(a) => containers_of(items.drop_last()).insert(a.process.container),
        }
    }
}

/// The errors of a scan, in traversal order.
pub open spec fn errors_of(items: Seq<ScanItem>) -> Seq<ResolveError>
    decreases items.len(),
{
    if items.len() == 0 {
        seq![]
    } else {
        errors_of(items.drop_last()) + reported(items.last())
    }
}

/// The resolved deployments of one run.
#[derive(Debug)]
pub struct Spec {
    pub config: Config,
    pub version: String,
    pub all_containers: NameSet,
    pub deployments: NameMap<Deployment>,
}

/// The views of the deployments of a map.
pub open spec fn graph_view(deployments: Map<Seq<char>, Deployment>) -> Map<
    Seq<char>,
    DeploymentView,
> {
    deployments.map_values(|d: Deployment| d@)
}

impl Spec {
    /// The deployments by name, each with its processes by role and name.
    pub open spec fn graph(&self) -> Map<Seq<char>, DeploymentView> {
        graph_view(self.deployments@)
    }

    /// Every process runs in a container that is among the containers of
    /// the run.
    pub open spec fn consistent(&self) -> bool {
        &&& forall|deployment: Seq<char>, process: Seq<char>| #[trigger]
            has_daemon(self.graph(), deployment, process) ==> self.all_containers@.contains(
                self.graph()[deployment].daemons[process].container,
            )
        &&& forall|deployment: Seq<char>, process: Seq<char>| #[trigger]
            has_command(self.graph(), deployment, process) ==> self.all_containers@.contains(
                self.graph()[deployment].commands[process].container,
            )
    }
}

/// Whether item `i` of the scan lists process `process` of deployment
/// `deployment` among the daemons.
pub open spec fn is_daemon_at(
    items: Seq<ScanItem>,
    i: int,
    deployment: Seq<char>,
    process: Seq<char>,
) -> bool {
    &&& 0 <= i < items.len()
    &&& accepted(items[i]) matches Some(a)
    &&& a.deployment == deployment
    &&& a.process.name == process
    &&& runs_as_daemon(a.kind)
}

/// Whether item `i` of the scan lists process `process` of deployment
/// `deployment` among the commands.
pub open spec fn is_command_at(
    items: Seq<ScanItem>,
    i: int,
    deployment: Seq<char>,
    process: Seq<char>,
) -> bool {
    &&& 0 <= i < items.len()
    &&& accepted(items[i]) matches Some(a)
    &&& a.deployment == deployment
    &&& a.process.name == process
    &&& runs_as_command(a.kind)
}

/// Whether the deployments list `process` among the daemons of `deployment`.
pub open spec fn has_daemon(
    graph: Map<Seq<char>, DeploymentView>,
    deployment: Seq<char>,
    process: Seq<char>,
) -> bool {
    graph.dom().contains(deployment) && graph[deployment].daemons.dom().contains(process)
}

/// Whether the deployments list `process` among the commands of `deployment`.
pub open spec fn has_command(
    graph: Map<Seq<char>, DeploymentView>,
    deployment: Seq<char>,
    process: Seq<char>,
) -> bool {
    graph.dom().contains(deployment) && graph[deployment].commands.dom().contains(process)
}

/// The daemons of a resolved deployment are exactly the rendered process
/// names of the accepted descriptors of that deployment whose kind is
/// daemon or command-or-daemon, and the commands exactly those whose kind is
/// command or command-or-daemon; so a command-or-daemon descriptor stands in
/// both maps under the same name.
pub proof fn lemma_roles_follow_kinds(
    items: Seq<ScanItem>,
    deployment: Seq<char>,
    process: Seq<char>,
)
    ensures
        has_daemon(graph_of(items), deployment, process) <==> exists|i: int|
            is_daemon_at(items, i, deployment, process),
        has_command(graph_of(items), deployment, process) <==> exists|i: int|
            is_command_at(items, i, deployment, process),
    decreases items.len(),
{
    if items.len() > 0 {
        let rest = items.drop_last();
        let last = items.len() - 1;
        lemma_roles_follow_kinds(rest, deployment, process);
        assert forall|i: int| 0 <= i < rest.len() implies (is_daemon_at(
            rest,
            i,
            deployment,
            process,
        ) <==> is_daemon_at(items, i, deployment, process)) && (is_command_at(
            rest,
            i,
            deployment,
            process,
        ) <==> is_command_at(items, i, deployment, process)) by {
            assert(rest[i] == items[i]);
        }
        if has_daemon(graph_of(items), deployment, process) {
            if has_daemon(graph_of(rest), deployment, process) {
                let i = choose|i: int| is_daemon_at(rest, i, deployment, process);
                assert(is_daemon_at(items, i, deployment, process));
            } else {
                assert(is_daemon_at(items, last, deployment, process));
            }
        }
        if exists|i: int| is_daemon_at(items, i, deployment, process) {
            let i = choose|i: int| is_daemon_at(items, i, deployment, process);
            if i < last {
                assert(is_daemon_at(rest, i, deployment, process));
            }
        }
        if has_command(graph_of(items), deployment, process) {
            if has_command(graph_of(rest), deployment, process) {
                let i = choose|i: int| is_command_at(rest, i, deployment, process);
                assert(is_command_at(items, i, deployment, process));
            } else {
                assert(is_command_at(items, last, deployment, process));
            }
        }
        if exists|i: int| is_command_at(items, i, deployment, process) {
            let i = choose|i: int| is_command_at(items, i, deployment, process);
            if i < last {
                assert(is_command_at(rest, i, deployment, process));
            }
        }
    }
}

/// Where two matches render the same deployment, role and process name, the
/// later one is the one that is listed.
pub proof fn lemma_last_write_wins(
    items: Seq<ScanItem>,
    i: int,
    deployment: Seq<char>,
    process: Seq<char>,
)
    ensures
        is_daemon_at(items, i, deployment, process) && (forall|j: int|
            i < j < items.len() ==> !is_daemon_at(items, j, deployment, process)) ==> has_daemon(
            graph_of(items),
            deployment,
            process,
        ) && graph_of(items)[deployment].daemons[process] == accepted(items[i])->0.process,
        is_command_at(items, i, deployment, process) && (forall|j: int|
            i < j < items.len() ==> !is_command_at(items, j, deployment, process))
            ==> has_command(graph_of(items), deployment, process) && graph_of(
            items,
        )[deployment].commands[process] == accepted(items[i])->0.process,
    decreases items.len(),
{
    if items.len() > 0 {
        let rest = items.drop_last();
        let last = items.len() - 1;
        lemma_last_write_wins(rest, i, deployment, process);
        assert forall|j: int| 0 <= j < rest.len() implies (is_daemon_at(
            rest,
            j,
            deployment,
            process,
        ) <==> is_daemon_at(items, j, deployment, process)) && (is_command_at(
            rest,
            j,
            deployment,
            process,
        ) <==> is_command_at(items, j, deployment, process)) by {
            assert(rest[j] == items[j]);
        }
        if 0 <= i < last {
            assert(rest[i] == items[i]);
            if is_daemon_at(items, i, deployment, process) && (forall|j: int|
                i < j < items.len() ==> !is_daemon_at(items, j, deployment, process)) {
                assert(!is_daemon_at(items, last, deployment, process));
            }
            if is_command_at(items, i, deployment, process) && (forall|j: int|
                i < j < items.len() ==> !is_command_at(items, j, deployment, process)) {
                assert(!is_command_at(items, last, deployment, process));
            }
        }
    }
}

/// Every listed process runs in a container that is among the containers
/// of the scan.
pub proof fn lemma_containers_cover(
    items: Seq<ScanItem>,
    deployment: Seq<char>,
    process: Seq<char>,
)
    ensures
        has_daemon(graph_of(items), deployment, process) ==> containers_of(items).contains(
            graph_of(items)[deployment].daemons[process].container,
        ),
        has_command(graph_of(items), deployment, process) ==> containers_of(items).contains(
            graph_of(items)[deployment].commands[process].container,
        ),
    decreases items.len(),
{
    if items.len() > 0 {
        lemma_containers_cover(items.drop_last(), deployment, process);
    }
}

/// Enters one accepted process into the deployments.
fn enter(
    deployments: &mut NameMap<Deployment>,
    deployment: String,
    kind: ContainerKind,
    process: String,
    container: String,
    config: Arc<ContainerDescriptor>,
    config_path: String,
)
    ensures
        graph_view(final(deployments)@) == {
            let graph = graph_view(old(deployments)@);
            let a = Accepted {
                deployment: deployment@,
                kind,
                process: ProcessView {
                    name: process@,
                    container: container@,
                    config,
                    config_path: config_path@,
                },
            };
            let before = if graph.dom().contains(a.deployment) {
                graph[a.deployment]
            } else {
                empty_deployment()
            };
            graph.insert(a.deployment, with_process(before, a))
        },
{
    let ghost graph = graph_view(deployments@);
    let ghost view = ProcessView {
        name: process@,
        container: container@,
        config,
        config_path: config_path@,
    };
    let mut dep = match deployments.remove(deployment.as_str()) {
        Some(dep) => dep,
        None => Deployment::new(),
    };
    let ghost before = dep@;
    assert(before == if graph.dom().contains(deployment@) {
        graph[deployment@]
    } else {
        empty_deployment()
    });
    match kind {
        ContainerKind::Command => {
            let command = Command { name: process.clone(), container, config, config_path };
            dep.commands.insert(process, command);
            assert(dep@.commands =~= before.commands.insert(view.name, view));
        },
        ContainerKind::Daemon => {
            let daemon = Daemon { name: process.clone(), container, config, config_path };
            dep.daemons.insert(process, daemon);
            assert(dep@.daemons =~= before.daemons.insert(view.name, view));
        },
        ContainerKind::CommandOrDaemon => {
            let command = Command {
                name: process.clone(),
                container: container.clone(),
                config: share(&config),
                config_path: config_path.clone(),
            };
            dep.commands.insert(process.clone(), command);
            let daemon = Daemon { name: process.clone(), container, config, config_path };
            dep.daemons.insert(process, daemon);
            assert(dep@.commands =~= before.commands.insert(view.name, view));
            assert(dep@.daemons =~= before.daemons.insert(view.name, view));
        },
    }
    let ghost after = dep@;
    assert(after == with_process(
        before,
        Accepted { deployment: deployment@, kind, process: view },
    ));
    let ghost key = deployment@;
    deployments.insert(deployment, dep);
    assert(graph_view(deployments@) =~= graph.insert(key, after));
}

/// Resolves what a scan found into deployments.
///
/// The items are taken in traversal order. An item that cannot be used is
/// left out and reported; it never stops the scan. A process is listed
/// under its rendered name in every role that its descriptor's kind allows,
/// and a later match replaces an earlier one of the same deployment, role
/// and process name.
pub fn resolve(config: Config, version: String, items: Vec<ScanItem>) -> (r: (
    Spec,
    Vec<ResolveError>,
))
    ensures
        r.0.config == config,
        r.0.version == version,
        r.0.graph() == graph_of(items@),
        r.0.all_containers@ == containers_of(items@),
        r.0.consistent(),
        r.1@ == errors_of(items@),
{
    let mut deployments: NameMap<Deployment> = NameMap::new();
    let mut all_containers = NameSet::new();
    let mut errors: Vec<ResolveError> = Vec::new();
    let ghost all = items@;
    assert(graph_view(deployments@) =~= graph_of(all.take(0)));
    assert(errors@ =~= errors_of(all.take(0)));
    for item in it: items
        invariant
            it.seq() == all,
            graph_view(deployments@) == graph_of(all.take(it.index())),
            all_containers@ == containers_of(all.take(it.index())),
            errors@ == errors_of(all.take(it.index())),
    {
        let ghost done = all.take(it.index());
        let ghost next = all.take(it.index() + 1);
        assert(next.drop_last() =~= done);
        assert(next.last() == item);
        match item {
            ScanItem::Failed(e) => {
                errors.push(ResolveError::Scan(e));
            },
            ScanItem::Found(m) => {
                let Match { path, deployment, process, descriptor } = m;
                match (deployment, process) {
                    (Err(d), Err(p)) => {
                        errors.push(ResolveError::Template(d));
                        errors.push(ResolveError::Template(p));
                    },
                    (Err(d), Ok(_)) => {
                        errors.push(ResolveError::Template(d));
                    },
                    (Ok(_), Err(p)) => {
                        errors.push(ResolveError::Template(p));
                    },
                    (Ok(deployment), Ok(process)) => match descriptor {
                        Err(e) => {
                            errors.push(ResolveError::Descriptor(e));
                        },
                        Ok(config) => match config.container() {
                            ContainerField::Named(container) => {
                                let kind = config.kind;
                                all_containers.insert(container.clone());
                                enter(
                                    &mut deployments,
                                    deployment,
                                    kind,
                                    process,
                                    container,
                                    config,
                                    path,
                                );
                            },
                            ContainerField::NotText => {
                                errors.push(
                                    ResolveError::MissingContainerField { path, present: true },
                                );
                            },
                            ContainerField::Absent => {
                                errors.push(
                                    ResolveError::MissingContainerField { path, present: false },
                                );
                            },
                        },
                    },
                }
            },
        }
        assert(errors@ =~= errors_of(done) + reported(item));
    }
    assert(all.take(all.len() as int) =~= all);
    let spec = Spec { config, version, all_containers, deployments };
    proof {
        assert forall|deployment: Seq<char>, process: Seq<char>| #[trigger]
            has_daemon(spec.graph(), deployment, process) implies spec.all_containers@.contains(
            spec.graph()[deployment].daemons[process].container,
        ) by {
            lemma_containers_cover(all, deployment, process);
        }
        assert forall|deployment: Seq<char>, process: Seq<char>| #[trigger]
            has_command(spec.graph(), deployment, process) implies spec.all_containers@.contains(
            spec.graph()[deployment].commands[process].container,
        ) by {
            lemma_containers_cover(all, deployment, process);
        }
    }
    (spec, errors)
}

} // verus!
