//! The upload stage: signed, content-addressed uploads of container images
//! to every configured cluster.
//!
//! The stage is planned here: which clusters are addressed, which images go
//! where, which keys sign, and what the answers of the clusters add up to.
//! Scanning the images, signing and the connections are the caller's.

use vstd::prelude::*;
use abstract_ns::Name;
use crate::deploy::containers::Context;
use crate::deploy::tools::kokkupanek::selected;
use crate::names::{increasing, NameMap, NameSet};
use crate::templates::pattern::{container_view, rendered, table_view};
use crate::templates::{ContainerVar, Pattern, TemplateError};
use crate::text::joined;

verus! {

/// `abstract_ns::Name`: a parsed host name, carried through as it is.
#[verifier::external_type_specification]
#[verifier::external_body]
pub struct ExName(Name);

/// `abstract_ns::name::Error`: why a text is no host name, carried through
/// as it is.
#[verifier::external_type_specification]
#[verifier::external_body]
pub struct ExNameError(abstract_ns::name::Error);

/// Where the images go: the clusters and the directory on them.
#[derive(Debug)]
pub struct Settings {
    pub clusters: Vec<Pattern>,
    pub dir: Pattern,
}

/// Whether a character may stand in a host name besides the dot: a
/// lower-case ASCII letter, an ASCII digit, a dash or an underscore.
pub open spec fn is_name_char(c: char) -> bool {
    let u = c as u32;
    ||| 0x61 <= u <= 0x7a
    ||| 0x30 <= u <= 0x39
    ||| c == '-'
    ||| c == '_'
}

/// Whether a text is made of parts that are joined by single dots, each
/// part not empty, made of name characters, and neither beginning nor
/// ending with a dash.
pub open spec fn is_dotted_name(s: Seq<char>) -> bool {
    &&& s.len() > 0
    &&& forall|i: int| 0 <= i < s.len() ==> (#[trigger] s[i]) == '.' || is_name_char(s[i])
    &&& s[0] != '.' && s[0] != '-'
    &&& s.last() != '.' && s.last() != '-'
    &&& forall|i: int|
        0 <= i < s.len() - 1 && (#[trigger] s[i]) == '.' ==> s[i + 1] != '.' && s[i + 1] != '-'
    &&& forall|i: int| 0 <= i < s.len() - 1 && (#[trigger] s[i]) == '-' ==> s[i + 1] != '.'
}

/// Whether a text is a host name: a dotted name, with or without one dot
/// at its end.
pub open spec fn is_host_name(s: Seq<char>) -> bool {
    if s.len() > 0 && s.last() == '.' {
        is_dotted_name(s.drop_last())
    } else {
        is_dotted_name(s)
    }
}

/// `<abstract_ns::Name as FromStr>::from_str`: a text is a name exactly
/// where it is a host name.
#[verifier::external_body]
fn parse_name(host: &str) -> (r: Result<Name, abstract_ns::name::Error>)
    ensures
        r is Ok <==> is_host_name(host@),
{
    host.parse()
}

/// Where a signing key may be found.
#[derive(Clone, Copy, Debug, PartialEq, Eq, Structural)]
pub enum KeyLocation {
    /// The environment variable `CIRUELA_KEY`.
    Environment,
    /// `.ssh/id_ed25519` in the home directory.
    SshEd25519,
    /// `.ssh/id_ciruela` in the home directory.
    SshCiruela,
    /// `.ciruela/id_ed25519` in the home directory.
    CiruelaEd25519,
}

/// The name of the environment variable that may hold a key.
pub fn key_variable() -> (r: &'static str)
    ensures
        r@ == "CIRUELA_KEY"@,
{
    "CIRUELA_KEY"
}

/// The path of a key file below the home directory; `None` for the
/// environment.
pub fn key_file(location: KeyLocation) -> (r: Option<&'static str>)
    ensures
        location == KeyLocation::Environment ==> r is None,
        location == KeyLocation::SshEd25519 ==> (r matches Some(p) && p@ == ".ssh/id_ed25519"@),
        location == KeyLocation::SshCiruela ==> (r matches Some(p) && p@ == ".ssh/id_ciruela"@),
        location == KeyLocation::CiruelaEd25519 ==> (r matches Some(p) && p@
            == ".ciruela/id_ed25519"@),
{
    match location {
        KeyLocation::Environment => None,
        KeyLocation::SshEd25519 => Some(".ssh/id_ed25519"),
        KeyLocation::SshCiruela => Some(".ssh/id_ciruela"),
        KeyLocation::CiruelaEd25519 => Some(".ciruela/id_ed25519"),
    }
}

/// The places to look for keys, in the order they are read: the
/// environment first, then, where the home directory is known, the three
/// key files.
pub fn key_locations(home_known: bool) -> (r: Vec<KeyLocation>)
    ensures
        r@ == if home_known {
            seq![
                KeyLocation::Environment,
                KeyLocation::SshEd25519,
                KeyLocation::SshCiruela,
                KeyLocation::CiruelaEd25519,
            ]
        } else {
            seq![KeyLocation::Environment]
        },
{
    let mut r: Vec<KeyLocation> = Vec::new();
    r.push(KeyLocation::Environment);
    if home_known {
        r.push(KeyLocation::SshEd25519);
        r.push(KeyLocation::SshCiruela);
        r.push(KeyLocation::CiruelaEd25519);
    }
    r
}

/// What reading one key location gave.
#[derive(Debug)]
pub enum KeySource<K> {
    /// The variable is not set, or the file does not exist.
    Absent,
    /// The variable or the file is there and could not be read as text.
    Unreadable,
    /// What was read holds no keys that could be parsed.
    Unparsable,
    /// The keys that were read.
    Keys(Vec<K>),
}

/// Why a key location gave no keys though something is there.
#[derive(Clone, Copy, Debug, PartialEq, Eq, Structural)]
pub enum KeyFailure {
    Unreadable,
    Unparsable,
}

/// A key location that is present and unusable.
#[derive(Clone, Copy, Debug, PartialEq, Eq, Structural)]
pub struct SigningError {
    /// The place of the location among the sources.
    pub source: usize,
    pub cause: KeyFailure,
}

/// What stands in the way of using a source, if anything does.
pub open spec fn obstacle<K>(source: KeySource<K>) -> Option<KeyFailure> {
    match source {
        KeySource::Absent => None,
        KeySource::Unreadable => Some(KeyFailure::Unreadable),
        KeySource::Unparsable => Some(KeyFailure::Unparsable),
        KeySource::Keys(_) => None,
    }
}

/// The keys of the sources, in the order of the sources.
pub open spec fn keys_of<K>(sources: Seq<KeySource<K>>) -> Seq<K>
    decreases sources.len(),
{
    if sources.len() == 0 {
        seq![]
    } else {
        keys_of(sources.drop_last()) + match sources.last() {
            KeySource::Keys(keys) => keys@,
            _ => seq![],
        }
    }
}

/// Gathers the signing keys from what the key locations gave, in order.
/// A location that is absent is passed over; the first one that is present
/// and cannot be read or parsed fails the gathering.
pub fn gather_keys<K>(sources: Vec<KeySource<K>>) -> (r: Result<Vec<K>, SigningError>)
    ensures
        r is Ok <==> forall|i: int|
            0 <= i < sources@.len() ==> obstacle(#[trigger] sources@[i]) is None,
        r matches Ok(keys) ==> keys@ == keys_of(sources@),
        r matches Err(e) ==> {
            &&& e.source < sources@.len()
            &&& obstacle(sources@[e.source as int]) == Some(e.cause)
            &&& forall|i: int| 0 <= i < e.source ==> obstacle(#[trigger] sources@[i]) is None
        },
{
    let mut keys: Vec<K> = Vec::new();
    let mut place: usize = 0;
    let count = sources.len();
    let ghost all = sources@;
    assert(all.take(0) =~= Seq::<KeySource<K>>::empty());
    for source in it: sources
        invariant
            it.seq() == all,
            all.len() == count,
            place == it.index(),
            place <= all.len(),
            forall|j: int| 0 <= j < place ==> obstacle(#[trigger] all[j]) is None,
            keys@ == keys_of(all.take(place as int)),
    {
        proof {
            assert(all.take(place + 1).drop_last() =~= all.take(place as int));
            assert(all.take(place + 1).last() == source);
        }
        match source {
            KeySource::Absent => {},
            KeySource::Unreadable => {
                return Err(SigningError { source: place, cause: KeyFailure::Unreadable });
            },
            KeySource::Unparsable => {
                return Err(SigningError { source: place, cause: KeyFailure::Unparsable });
            },
            KeySource::Keys(mut found) => {
                keys.append(&mut found);
            },
        }
        place = place + 1;
    }
    assert(all.take(all.len() as int) =~= all);
    Ok(keys)
}

/// Whether the user should be told that no identity was found: the home
/// directory is unknown and no key came from elsewhere.
pub fn identity_missing(home_known: bool, keys: usize) -> (r: bool)
    ensures
        r == (!home_known && keys == 0),
{
    !home_known && keys == 0
}

/// One image to upload.
#[derive(Debug)]
pub struct Upload {
    /// The name of the container, with the configured suffix.
    pub container: String,
    /// The version of its build.
    pub version: String,
    /// The rendered directory on the clusters that the image goes to.
    pub dir: String,
    /// The directory that holds the root file system of the build.
    pub root: String,
}

/// One cluster to upload to: its rendered host name, as text and parsed.
#[derive(Debug)]
pub struct Cluster {
    pub host: String,
    pub name: Name,
}

/// What the upload stage is to do.
#[derive(Debug)]
pub struct Plan {
    pub clusters: Vec<Cluster>,
    /// The images, in the order of their containers' names.
    pub uploads: Vec<Upload>,
    /// In a dry run nothing is sent.
    pub dry_run: bool,
}

/// Why the stage could not be planned.
#[derive(Debug)]
pub enum PlanError {
    HostPattern(TemplateError),
    /// A rendered cluster is no host name.
    HostName { host: String, cause: abstract_ns::name::Error },
    /// A process runs in a container that was not built.
    ContainerNotFound(String),
    DirPattern(TemplateError),
}

/// What a cluster pattern renders to with the user's variables.
pub open spec fn cluster_host(pattern: Pattern, vars: &NameMap<String>) -> Option<Seq<char>> {
    rendered(pattern@, table_view(vars@), None)
}

/// Whether every cluster pattern renders.
pub open spec fn clusters_render(patterns: Seq<Pattern>, vars: &NameMap<String>) -> bool {
    forall|i: int| 0 <= i < patterns.len() ==> cluster_host(#[trigger] patterns[i], vars) is Some
}

/// Whether every cluster pattern renders to a host name.
pub open spec fn clusters_named(patterns: Seq<Pattern>, vars: &NameMap<String>) -> bool {
    forall|i: int|
        0 <= i < patterns.len() ==> (cluster_host(#[trigger] patterns[i], vars) matches Some(
            host,
        ) && is_host_name(host))
}

/// The name of a container as it is built: with the configured suffix.
pub open spec fn built_name(ctx: &Context, container: Seq<char>) -> Seq<char> {
    container + ctx.spec_view().config.container_suffix@
}

/// Whether a built name is that of a container that a process of the
/// selected deployment runs in.
pub open spec fn is_referenced(ctx: &Context, name: Seq<char>) -> bool {
    ||| exists|i: int|
        0 <= i < selected(ctx).commands.items().len() && built_name(
            ctx,
            (#[trigger] selected(ctx).commands.items()[i]).container@,
        ) == name
    ||| exists|i: int|
        0 <= i < selected(ctx).daemons.items().len() && built_name(
            ctx,
            (#[trigger] selected(ctx).daemons.items()[i]).container@,
        ) == name
}

/// The directory that holds the root file system of a build.
pub open spec fn root_of(version: Seq<char>) -> Seq<char> {
    "/vagga/base/.roots/"@ + version + "/root"@
}

/// The directory an image goes to: the directory pattern rendered with the
/// user's variables and the container in hand.
pub open spec fn target_dir(
    set: &Settings,
    vars: &NameMap<String>,
    container: Seq<char>,
    version: Seq<char>,
) -> Option<Seq<char>> {
    rendered(set.dir@, table_view(vars@), Some((container, version)))
}

/// Whether `upload` is the upload of the container of this built name.
pub open spec fn is_upload_of(
    ctx: &Context,
    set: &Settings,
    vars: &NameMap<String>,
    upload: Upload,
) -> bool {
    &&& is_referenced(ctx, upload.container@)
    &&& ctx.containers_view().dom().contains(upload.container@)
    &&& upload.version@ == ctx.containers_view()[upload.container@].version@
    &&& target_dir(set, vars, upload.container@, upload.version@) == Some(upload.dir@)
    &&& upload.root@ == root_of(upload.version@)
}

/// Whether the image of the container of this built name can be planned:
/// the container was built and its directory renders.
pub open spec fn can_upload(
    ctx: &Context,
    set: &Settings,
    vars: &NameMap<String>,
    name: Seq<char>,
) -> bool {
    ctx.containers_view().dom().contains(name) && target_dir(
        set,
        vars,
        name,
        ctx.containers_view()[name].version@,
    ) is Some
}

/// The built names of the upload list.
pub open spec fn upload_names(uploads: Seq<Upload>) -> Seq<Seq<char>> {
    uploads.map_values(|u: Upload| u.container@)
}

/// The built names of the containers that the processes of the selected
/// deployment run in.
fn referenced(ctx: &Context) -> (r: NameSet)
    ensures
        r.wf(),
        forall|name: Seq<char>| r@.contains(name) <==> is_referenced(ctx, name),
{
    let dep = ctx.selected();
    let suffix = ctx.spec().config.container_suffix.as_str();
    let mut names = NameSet::new();
    let mut i: usize = 0;
    while i < dep.commands.len()
        invariant
            i <= dep.commands.items().len(),
            *dep == selected(ctx),
            suffix@ == ctx.spec_view().config.container_suffix@,
            names.wf(),
            forall|name: Seq<char>|
                names@.contains(name) <==> exists|j: int|
                    0 <= j < i && built_name(ctx, (#[trigger] dep.commands.items()[j]).container@)
                        == name,
        decreases dep.commands.items().len() - i,
    {
        let name = joined(dep.commands.item_at(i).container.as_str(), suffix);
        let ghost before = names@;
        names.insert(name);
        proof {
            assert forall|n: Seq<char>| names@.contains(n) <==> exists|j: int|
                0 <= j < i + 1 && built_name(ctx, (#[trigger] dep.commands.items()[j]).container@)
                    == n by {
                if before.contains(n) {
                    let j = choose|j: int|
                        0 <= j < i && built_name(
                            ctx,
                            (#[trigger] dep.commands.items()[j]).container@,
                        ) == n;
                    assert(0 <= j < i + 1);
                }
                if n == name@ {
                    assert(built_name(ctx, dep.commands.items()[i as int].container@) == n);
                }
            }
        }
        i = i + 1;
    }
    let mut k: usize = 0;
    while k < dep.daemons.len()
        invariant
            k <= dep.daemons.items().len(),
            *dep == selected(ctx),
            suffix@ == ctx.spec_view().config.container_suffix@,
            names.wf(),
            forall|name: Seq<char>|
                names@.contains(name) <==> (exists|j: int|
                    0 <= j < dep.commands.items().len() && built_name(
                        ctx,
                        (#[trigger] dep.commands.items()[j]).container@,
                    ) == name) || (exists|j: int|
                    0 <= j < k && built_name(ctx, (#[trigger] dep.daemons.items()[j]).container@)
                        == name),
        decreases dep.daemons.items().len() - k,
    {
        let name = joined(dep.daemons.item_at(k).container.as_str(), suffix);
        let ghost before = names@;
        names.insert(name);
        proof {
            assert forall|n: Seq<char>| names@.contains(n) <==> (exists|j: int|
                0 <= j < dep.commands.items().len() && built_name(
                    ctx,
                    (#[trigger] dep.commands.items()[j]).container@,
                ) == n) || (exists|j: int|
                0 <= j < k + 1 && built_name(ctx, (#[trigger] dep.daemons.items()[j]).container@)
                    == n) by {
                if before.contains(n) && !(exists|j: int|
                    0 <= j < dep.commands.items().len() && built_name(
                        ctx,
                        (#[trigger] dep.commands.items()[j]).container@,
                    ) == n) {
                    let j = choose|j: int|
                        0 <= j < k && built_name(
                            ctx,
                            (#[trigger] dep.daemons.items()[j]).container@,
                        ) == n;
                    assert(0 <= j < k + 1);
                }
                if n == name@ {
                    assert(built_name(ctx, dep.daemons.items()[k as int].container@) == n);
                }
            }
        }
        k = k + 1;
    }
    names
}

/// Renders the clusters and parses them as host names.
fn plan_clusters(set: &Settings, vars: &NameMap<String>) -> (r: Result<Vec<Cluster>, PlanError>)
    ensures
        r is Ok <==> clusters_named(set.clusters@, vars),
        r matches Ok(clusters) ==> clusters@.len() == set.clusters@.len() && forall|i: int|
            0 <= i < clusters@.len() ==> cluster_host(set.clusters@[i], vars) == Some(
                (#[trigger] clusters@[i]).host@,
            ),
        r matches Err(PlanError::HostPattern(_)) ==> !clusters_render(set.clusters@, vars),
        r matches Err(PlanError::HostName { host, .. }) ==> clusters_render(set.clusters@, vars)
            && !is_host_name(host@) && exists|i: int|
            0 <= i < set.clusters@.len() && cluster_host(#[trigger] set.clusters@[i], vars)
                == Some(host@),
        r is Err ==> r matches Err(PlanError::HostPattern(_)) || r matches Err(
            PlanError::HostName { .. },
        ),
{
    let hosts = match crate::templates::pattern::render_all(&set.clusters, vars, None) {
        Ok(hosts) => hosts,
        Err(e) => {
            return Err(PlanError::HostPattern(e));
        },
    };
    assert(clusters_render(set.clusters@, vars)) by {
        assert forall|i: int| 0 <= i < set.clusters@.len() implies cluster_host(
            #[trigger] set.clusters@[i],
            vars,
        ) is Some by {
            assert(cluster_host(set.clusters@[i], vars) == Some(hosts@[i]@));
        }
    }
    let mut clusters: Vec<Cluster> = Vec::new();
    let mut i: usize = 0;
    while i < hosts.len()
        invariant
            i <= hosts@.len(),
            hosts@.len() == set.clusters@.len(),
            clusters_render(set.clusters@, vars),
            forall|j: int|
                0 <= j < hosts@.len() ==> cluster_host(set.clusters@[j], vars) == Some(
                    #[trigger] hosts@[j]@,
                ),
            clusters@.len() == i,
            forall|j: int|
                0 <= j < i ==> (#[trigger] clusters@[j]).host@ == hosts@[j]@ && is_host_name(
                    hosts@[j]@,
                ),
        decreases hosts@.len() - i,
    {
        let host = hosts[i].clone();
        match parse_name(host.as_str()) {
            Ok(name) => {
                clusters.push(Cluster { host, name });
            },
            Err(cause) => {
                assert(cluster_host(set.clusters@[i as int], vars) == Some(host@));
                return Err(PlanError::HostName { host, cause });
            },
        }
        i = i + 1;
    }
    assert forall|j: int| 0 <= j < set.clusters@.len() implies (cluster_host(
        #[trigger] set.clusters@[j],
        vars,
    ) matches Some(host) && is_host_name(host)) by {
        assert(clusters@[j].host@ == hosts@[j]@);
    }
    Ok(clusters)
}

/// Plans the stage: the clusters, rendered and parsed, and one upload for
/// every container that a process of the selected deployment runs in, in
/// the order of the containers' built names.
///
/// The checks are made in this order, and the first that fails gives the
/// error: the cluster patterns, the cluster names, and then container by
/// container its build and its directory pattern.
pub fn plan(ctx: &Context, set: &Settings, vars: &NameMap<String>) -> (r: Result<Plan, PlanError>)
    ensures
        r is Ok <==> clusters_named(set.clusters@, vars) && forall|name: Seq<char>|
            is_referenced(ctx, name) ==> can_upload(ctx, set, vars, name),
        r matches Ok(p) ==> {
            &&& p.dry_run == ctx.is_dry_run()
            &&& p.clusters@.len() == set.clusters@.len()
            &&& forall|i: int|
                0 <= i < p.clusters@.len() ==> cluster_host(set.clusters@[i], vars) == Some(
                    (#[trigger] p.clusters@[i]).host@,
                )
            &&& increasing(upload_names(p.uploads@))
            &&& forall|name: Seq<char>|
                upload_names(p.uploads@).contains(name) <==> is_referenced(ctx, name)
            &&& forall|i: int|
                0 <= i < p.uploads@.len() ==> is_upload_of(ctx, set, vars, #[trigger] p.uploads@[i])
        },
        r matches Err(PlanError::HostPattern(_)) ==> !clusters_render(set.clusters@, vars),
        r matches Err(PlanError::HostName { host, .. }) ==> clusters_render(set.clusters@, vars)
            && !is_host_name(host@),
        r matches Err(PlanError::ContainerNotFound(name)) ==> clusters_named(set.clusters@, vars)
            && is_referenced(ctx, name@) && !ctx.containers_view().dom().contains(name@),
        r matches Err(PlanError::DirPattern(_)) ==> clusters_named(set.clusters@, vars)
            && exists|name: Seq<char>|
            is_referenced(ctx, name) && ctx.containers_view().dom().contains(name)
                && !can_upload(ctx, set, vars, name),
{
    let clusters = match plan_clusters(set, vars) {
        Ok(clusters) => clusters,
        Err(e) => {
            return Err(e);
        },
    };
    let names = referenced(ctx);
    proof {
        names.lemma_listing();
    }
    let mut uploads: Vec<Upload> = Vec::new();
    let mut i: usize = 0;
    while i < names.len()
        invariant
            i <= names.names().len(),
            names.wf(),
            clusters_named(set.clusters@, vars),
            increasing(names.names()),
            forall|name: Seq<char>| names@.contains(name) <==> names.names().contains(name),
            forall|name: Seq<char>| names@.contains(name) <==> is_referenced(ctx, name),
            uploads@.len() == i,
            forall|j: int|
                0 <= j < i ==> (#[trigger] uploads@[j]).container@ == names.names()[j]
                    && is_upload_of(ctx, set, vars, uploads@[j]),
        decreases names.names().len() - i,
    {
        let name = names.name_at(i);
        assert(names.names().contains(name@));
        let container = match ctx.containers().get(name.as_str()) {
            Some(container) => container,
            None => {
                assert(is_referenced(ctx, name@) && !can_upload(ctx, set, vars, name@));
                return Err(PlanError::ContainerNotFound(name.clone()));
            },
        };
        let var = ContainerVar { name: name.clone(), version: container.version.clone() };
        let dir = match set.dir.render_or_explain(vars, Some(&var)) {
            Ok(dir) => dir,
            Err(e) => {
                assert(is_referenced(ctx, name@));
                assert(ctx.containers_view().dom().contains(name@));
                assert(container_view(Some(&var)) == Some((name@, container.version@)));
                assert(!can_upload(ctx, set, vars, name@));
                return Err(PlanError::DirPattern(e));
            },
        };
        let root = joined(joined("/vagga/base/.roots/", var.version.as_str()).as_str(), "/root");
        uploads.push(Upload { container: var.name, version: var.version, dir, root });
        i = i + 1;
    }
    proof {
        assert(upload_names(uploads@) =~= names.names());
        assert forall|name: Seq<char>| is_referenced(ctx, name) implies can_upload(
            ctx,
            set,
            vars,
            name,
        ) by {
            let j = names.names().index_of(name);
            assert(is_upload_of(ctx, set, vars, uploads@[j]));
        }
    }
    Ok(Plan { clusters, uploads, dry_run: ctx.dry_run() })
}

/// One submission: which upload goes to which cluster, both by their
/// places in the plan.
#[derive(Clone, Copy, Debug, PartialEq, Eq, Structural)]
pub struct Delivery {
    pub cluster: usize,
    pub upload: usize,
}

/// The delivery of the upload at place `upload` to the cluster at place
/// `cluster`.
pub open spec fn delivery(cluster: usize, upload: usize) -> Delivery {
    Delivery { cluster, upload }
}

/// The deliveries of a plan of `clusters` clusters and `uploads` uploads:
/// every upload to every cluster, cluster by cluster; none in a dry run.
pub open spec fn deliveries_of(clusters: nat, uploads: nat, dry_run: bool) -> Seq<Delivery> {
    if dry_run {
        seq![]
    } else {
        Seq::new(
            clusters * uploads,
            |k: int| Delivery { cluster: (k / uploads as int) as usize, upload: (k % uploads as int) as usize },
        )
    }
}

impl Plan {
    /// What is to be sent: every upload to every cluster, so that all
    /// clusters receive the same uploads; nothing in a dry run.
    pub fn deliveries(&self) -> (r: Vec<Delivery>)
        ensures
            r@ == deliveries_of(self.clusters@.len(), self.uploads@.len(), self.dry_run),
            forall|k: int|
                0 <= k < r@.len() ==> (#[trigger] r@[k]).cluster < self.clusters@.len()
                    && r@[k].upload < self.uploads@.len(),
            !self.dry_run ==> forall|c: usize, u: usize|
                c < self.clusters@.len() && u < self.uploads@.len() ==> r@.contains(
                    #[trigger] delivery(c, u),
                ),
    {
        let mut out: Vec<Delivery> = Vec::new();
        if self.dry_run {
            return out;
        }
        let clusters = self.clusters.len();
        let uploads = self.uploads.len();
        let mut c: usize = 0;
        while c < clusters
            invariant
                c <= clusters,
                clusters == self.clusters@.len(),
                uploads == self.uploads@.len(),
                out@.len() == c * uploads,
                forall|k: int|
                    0 <= k < out@.len() ==> (#[trigger] out@[k]).cluster == k / uploads as int
                        && out@[k].upload == k % uploads as int,
            decreases clusters - c,
        {
            let mut u: usize = 0;
            while u < uploads
                invariant
                    u <= uploads,
                    c < clusters,
                    out@.len() == c * uploads + u,
                    forall|k: int|
                        0 <= k < out@.len() ==> (#[trigger] out@[k]).cluster == k / uploads as int
                            && out@[k].upload == k % uploads as int,
                decreases uploads - u,
            {
                proof {
                    let k = c * uploads + u;
                    vstd::arithmetic::div_mod::lemma_fundamental_div_mod_converse(
                        k as int,
                        uploads as int,
                        c as int,
                        u as int,
                    );
                }
                out.push(Delivery { cluster: c, upload: u });
                u = u + 1;
            }
            assert(c * uploads + uploads == (c + 1) * uploads) by (nonlinear_arith);
            c = c + 1;
        }
        proof {
            assert(out@.len() == clusters * uploads);
            assert(out@ =~= deliveries_of(clusters as nat, uploads as nat, false));
            let n = uploads as int;
            let m = clusters as int;
            assert forall|k: int| 0 <= k < out@.len() implies (#[trigger] out@[k]).cluster
                < clusters && out@[k].upload < uploads by {
                assert(n > 0) by (nonlinear_arith)
                    requires
                        0 <= k < m * n,
                        0 <= m,
                        0 <= n,
                ;
                vstd::arithmetic::div_mod::lemma_fundamental_div_mod(k, n);
                vstd::arithmetic::div_mod::lemma_mod_bound(k, n);
                let q = k / n;
                let r = k % n;
                assert(q < m) by (nonlinear_arith)
                    requires
                        0 <= k < m * n,
                        n > 0,
                        k == n * q + r,
                        0 <= r,
                ;
                assert(0 <= q) by (nonlinear_arith)
                    requires
                        0 <= k,
                        n > 0,
                        k == n * q + r,
                        r < n,
                ;
            }
            assert forall|cu: usize, uu: usize| cu < clusters && uu < uploads implies out@.contains(
                #[trigger] delivery(cu, uu),
            ) by {
                let ci = cu as int;
                let ui = uu as int;
                let k = ci * uploads + ui;
                assert(0 <= k < clusters * uploads) by (nonlinear_arith)
                    requires
                        0 <= ci < clusters,
                        0 <= ui < uploads,
                        k == ci * uploads + ui,
                ;
                vstd::arithmetic::div_mod::lemma_fundamental_div_mod_converse(
                    k,
                    uploads as int,
                    ci,
                    ui,
                );
                assert(out@[k] == delivery(cu, uu));
            }
        }
        out
    }
}

/// Adds up the answers of the clusters, one for every delivery: the stage
/// succeeds where every delivery did, and fails where any connection or
/// submission failed, however many others succeeded.
pub fn conclude(results: &Vec<bool>) -> (r: Result<(), usize>)
    ensures
        r is Ok <==> forall|i: int| 0 <= i < results@.len() ==> #[trigger] results@[i],
        r matches Err(first) ==> first < results@.len() && !results@[first as int] && forall|
            i: int,
        | 0 <= i < first ==> #[trigger] results@[i],
{
    let mut i: usize = 0;
    while i < results.len()
        invariant
            i <= results@.len(),
            forall|j: int| 0 <= j < i ==> #[trigger] results@[j],
        decreases results@.len() - i,
    {
        if !results[i] {
            return Err(i);
        }
        i = i + 1;
    }
    Ok(())
}

} // verus!
