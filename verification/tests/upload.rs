use std::sync::Arc;

use trimmer::Parser;
use wark::deploy::config::{Config, VersionKind};
use wark::deploy::containers::{build, BuildOutcome, Context};
use wark::deploy::resolve::{resolve, Match, ScanItem};
use wark::deploy::tools::ciruela::{
    conclude, gather_keys, identity_missing, key_file, key_locations, key_variable, plan,
    Delivery, KeyFailure, KeyLocation, KeySource, PlanError, Settings, SigningError,
};
use wark::descriptor::{ContainerDescriptor, ContainerKind, MetadataValue};
use wark::names::NameMap;
use wark::templates::Pattern;

fn pattern(text: &str) -> Pattern {
    Pattern::parse(&Parser::new(), text).expect("pattern parses")
}

fn found(deployment: &str, process: &str, kind: ContainerKind, container: &str) -> ScanItem {
    let mut metadata = NameMap::new();
    metadata.insert("container".to_string(), MetadataValue::Text(container.to_string()));
    ScanItem::Found(Match {
        path: format!("config/deploy-{}/lithos.{}.yaml", deployment, process),
        deployment: Ok(deployment.to_string()),
        process: Ok(process.to_string()),
        descriptor: Ok(Arc::new(ContainerDescriptor {
            kind,
            metadata,
            volumes: Vec::new(),
            executable: "/bin/run".to_string(),
            arguments: Vec::new(),
        })),
    })
}

fn context(items: Vec<ScanItem>, built: &[(&str, &str)], dry_run: bool) -> Context {
    let config = Config {
        minimum_wark: "0.1.0".to_string(),
        deployment_dirs: "config/deploy-(*)".to_string(),
        lithos_configs: "lithos.(*).yaml".to_string(),
        default_copy: NameMap::new(),
        config_files_inner: "/config/deploy-*/lithos.*.yaml".to_string(),
        vagga_config: "vagga/deploy.yaml".to_string(),
        container_suffix: "-deploy".to_string(),
        version: VersionKind::GitDescribe,
        deployment_name: pattern("{{ patterns.deployment_dirs[1] }}"),
        process_name: pattern("{{ patterns.lithos_configs[1] }}"),
        script: Vec::new(),
    };
    let spec = resolve(config, "v1.2.3".to_string(), items).0;
    let answers = built
        .iter()
        .map(|(name, version)| {
            (name.to_string(), BuildOutcome::Finished(version.as_bytes().to_vec()))
        })
        .collect();
    Context::new(spec, dry_run, "prod".to_string(), build(&answers)).expect("context")
}

fn one_container(dry_run: bool) -> Context {
    context(
        vec![found("prod", "web", ContainerKind::Daemon, "web")],
        &[("web-deploy", "1.0.1\n")],
        dry_run,
    )
}

fn settings(clusters: &[&str], dir: &str) -> Settings {
    Settings { clusters: clusters.iter().map(|c| pattern(c)).collect(), dir: pattern(dir) }
}

fn vars(pairs: &[(&str, &str)]) -> NameMap<String> {
    let mut vars = NameMap::new();
    for (k, v) in pairs {
        vars.insert(k.to_string(), v.to_string());
    }
    vars
}

#[test]
fn two_clusters_receive_the_same_upload() {
    let ctx = one_container(false);
    let set = settings(
        &["{{ vars.first }}.example.org", "b.example.org"],
        "/images/{{ container_name }}/{{ container_version }}",
    );
    let plan = plan(&ctx, &set, &vars(&[("first", "a")])).expect("plan");
    assert!(!plan.dry_run);
    let hosts: Vec<&str> = plan.clusters.iter().map(|c| c.host.as_str()).collect();
    assert_eq!(hosts, vec!["a.example.org", "b.example.org"]);
    let parsed: Vec<&str> = plan.clusters.iter().map(|c| c.name.as_ref()).collect();
    assert_eq!(parsed, vec!["a.example.org", "b.example.org"]);
    assert_eq!(plan.uploads.len(), 1);
    assert_eq!(plan.uploads[0].container, "web-deploy");
    assert_eq!(plan.uploads[0].version, "1.0.1");
    assert_eq!(plan.uploads[0].dir, "/images/web-deploy/1.0.1");
    assert_eq!(plan.uploads[0].root, "/vagga/base/.roots/1.0.1/root");
    assert_eq!(
        plan.deliveries(),
        vec![Delivery { cluster: 0, upload: 0 }, Delivery { cluster: 1, upload: 0 }]
    );
}

#[test]
fn one_failed_cluster_fails_the_stage() {
    assert_eq!(conclude(&vec![true, true]), Ok(()));
    assert_eq!(conclude(&vec![true, false]), Err(1));
    assert_eq!(conclude(&vec![false, true]), Err(0));
    assert_eq!(conclude(&vec![false, false]), Err(0));
    assert_eq!(conclude(&Vec::new()), Ok(()));
}

#[test]
fn a_dry_run_sends_nothing() {
    let ctx = one_container(true);
    let set = settings(&["a.example.org", "b.example.org"], "/images");
    let plan = plan(&ctx, &set, &vars(&[])).expect("plan");
    assert!(plan.dry_run);
    assert_eq!(plan.uploads.len(), 1);
    assert_eq!(plan.clusters.len(), 2);
    assert_eq!(plan.deliveries(), Vec::new());
}

#[test]
fn uploads_are_the_containers_of_the_selected_deployment() {
    let ctx = context(
        vec![
            found("prod", "web", ContainerKind::Daemon, "web"),
            found("prod", "api", ContainerKind::Daemon, "api"),
            found("prod", "migrate", ContainerKind::Command, "web"),
            found("prod", "shell", ContainerKind::CommandOrDaemon, "tools"),
            found("staging", "exp", ContainerKind::Daemon, "experiment"),
        ],
        &[
            ("web-deploy", "1.0.1\n"),
            ("api-deploy", "2.0\n"),
            ("tools-deploy", "t9\n"),
            ("experiment-deploy", "e1\n"),
        ],
        false,
    );
    let set = settings(&["c1", "c2", "c3"], "/dir/{{ container_name }}");
    let plan = plan(&ctx, &set, &vars(&[])).expect("plan");
    let uploads: Vec<(&str, &str, &str)> = plan
        .uploads
        .iter()
        .map(|u| (u.container.as_str(), u.version.as_str(), u.dir.as_str()))
        .collect();
    assert_eq!(
        uploads,
        vec![
            ("api-deploy", "2.0", "/dir/api-deploy"),
            ("tools-deploy", "t9", "/dir/tools-deploy"),
            ("web-deploy", "1.0.1", "/dir/web-deploy"),
        ]
    );
    let deliveries = plan.deliveries();
    assert_eq!(deliveries.len(), 9);
    assert_eq!(deliveries[0], Delivery { cluster: 0, upload: 0 });
    assert_eq!(deliveries[2], Delivery { cluster: 0, upload: 2 });
    assert_eq!(deliveries[3], Delivery { cluster: 1, upload: 0 });
    assert_eq!(deliveries[8], Delivery { cluster: 2, upload: 2 });
}

#[test]
fn a_cluster_must_render() {
    let ctx = one_container(false);
    let set = settings(&["a.example.org", "{{ missing }}"], "/images");
    assert!(matches!(
        plan(&ctx, &set, &vars(&[])),
        Err(PlanError::HostPattern(e)) if e.pattern == "{{ missing }}"
    ));
}

#[test]
fn a_cluster_must_be_a_host_name() {
    let ctx = one_container(false);
    for bad in ["Upper.example.org", "a..b", ".a", "-a.example.org", "a-.b", "a b", "a/b", "."] {
        let set = settings(&["good.example.org", bad], "/images");
        match plan(&ctx, &set, &vars(&[])) {
            Err(PlanError::HostName { host, .. }) => assert_eq!(host, bad),
            other => panic!("unexpected {:?} for {:?}", other, bad),
        }
    }
    for good in ["localhost", "a.b.", "x1.y-2.z_3", "1.2.x", "_srv"] {
        let set = settings(&[good], "/images");
        let plan = plan(&ctx, &set, &vars(&[])).expect("plan");
        assert_eq!(plan.clusters[0].host, good);
    }
}

#[test]
fn an_empty_cluster_is_no_host_name() {
    let ctx = one_container(false);
    let set = settings(&["{{ vars.empty }}"], "/images");
    match plan(&ctx, &set, &vars(&[("empty", "")])) {
        Err(PlanError::HostName { host, .. }) => assert_eq!(host, ""),
        other => panic!("unexpected {:?}", other),
    }
}

#[test]
fn every_referenced_container_must_be_built() {
    let ctx = context(
        vec![
            found("prod", "web", ContainerKind::Daemon, "web"),
            found("prod", "api", ContainerKind::Daemon, "api"),
        ],
        &[("web-deploy", "1.0.1\n")],
        false,
    );
    let set = settings(&["a.example.org"], "/images");
    assert!(matches!(
        plan(&ctx, &set, &vars(&[])),
        Err(PlanError::ContainerNotFound(name)) if name == "api-deploy"
    ));
}

#[test]
fn the_directory_must_render() {
    let ctx = one_container(false);
    let set = settings(&["a.example.org"], "/images/{{ undefined_thing }}");
    assert!(matches!(
        plan(&ctx, &set, &vars(&[])),
        Err(PlanError::DirPattern(e)) if e.pattern == "/images/{{ undefined_thing }}"
    ));
}

#[test]
fn key_locations_in_order() {
    assert_eq!(key_variable(), "CIRUELA_KEY");
    assert_eq!(
        key_locations(true),
        vec![
            KeyLocation::Environment,
            KeyLocation::SshEd25519,
            KeyLocation::SshCiruela,
            KeyLocation::CiruelaEd25519,
        ]
    );
    assert_eq!(key_locations(false), vec![KeyLocation::Environment]);
    assert_eq!(key_file(KeyLocation::Environment), None);
    assert_eq!(key_file(KeyLocation::SshEd25519), Some(".ssh/id_ed25519"));
    assert_eq!(key_file(KeyLocation::SshCiruela), Some(".ssh/id_ciruela"));
    assert_eq!(key_file(KeyLocation::CiruelaEd25519), Some(".ciruela/id_ed25519"));
}

#[test]
fn absent_key_sources_are_passed_over() {
    let sources: Vec<KeySource<u32>> =
        vec![KeySource::Absent, KeySource::Absent, KeySource::Absent, KeySource::Absent];
    assert_eq!(gather_keys(sources), Ok(Vec::new()));
    assert_eq!(gather_keys(Vec::<KeySource<u32>>::new()), Ok(Vec::new()));
}

#[test]
fn keys_are_gathered_in_the_order_of_their_sources() {
    let sources = vec![
        KeySource::Keys(vec!["env".to_string()]),
        KeySource::Absent,
        KeySource::Keys(vec!["ciruela-1".to_string(), "ciruela-2".to_string()]),
        KeySource::Keys(Vec::new()),
    ];
    assert_eq!(gather_keys(sources), Ok(vec![
        "env".to_string(),
        "ciruela-1".to_string(),
        "ciruela-2".to_string(),
    ]));
}

#[test]
fn a_present_key_source_must_be_usable() {
    let sources: Vec<KeySource<u32>> =
        vec![KeySource::Keys(vec![1]), KeySource::Unreadable, KeySource::Unparsable];
    assert_eq!(
        gather_keys(sources),
        Err(SigningError { source: 1, cause: KeyFailure::Unreadable })
    );
    let sources: Vec<KeySource<u32>> = vec![
        KeySource::Absent,
        KeySource::Absent,
        KeySource::Unparsable,
        KeySource::Unreadable,
    ];
    assert_eq!(
        gather_keys(sources),
        Err(SigningError { source: 2, cause: KeyFailure::Unparsable })
    );
}

#[test]
fn a_missing_identity_is_told() {
    assert!(identity_missing(false, 0));
    assert!(!identity_missing(false, 1));
    assert!(!identity_missing(true, 0));
    assert!(!identity_missing(true, 2));
}
