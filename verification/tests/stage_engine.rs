use std::sync::Arc;

use trimmer::Parser;
use wark::deploy::config::{Config, Stage, VersionKind};
use wark::deploy::containers::{build, BuildOutcome, Context};
use wark::deploy::engine::{Engine, RunState};
use wark::deploy::resolve::{resolve, Match, ScanItem};
use wark::deploy::tools::{ciruela, kokkupanek};
use wark::descriptor::{ContainerDescriptor, ContainerKind, MetadataValue};
use wark::names::NameMap;
use wark::templates::Pattern;

fn pattern(text: &str) -> Pattern {
    Pattern::parse(&Parser::new(), text).expect("pattern parses")
}

fn context(dry_run: bool, stages: usize) -> Context {
    let mut script = Vec::new();
    for i in 0..stages {
        if i % 2 == 0 {
            script.push(Stage::Ciruela(ciruela::Settings {
                clusters: vec![pattern("cluster.example.org")],
                dir: pattern("/images/{{ container_name }}"),
            }));
        } else {
            script.push(Stage::VerwalterKokkupanek(kokkupanek::Settings {
                hosts: vec![pattern("verwalter.example.org")],
                slug: pattern("my-project"),
                deployment_graphql: pattern("mutation"),
            }));
        }
    }
    let config = Config {
        minimum_wark: "0.1.0".to_string(),
        deployment_dirs: "config/deploy-(*)".to_string(),
        lithos_configs: "lithos.(*).yaml".to_string(),
        default_copy: NameMap::new(),
        config_files_inner: "/config/deploy-*/lithos.*.yaml".to_string(),
        vagga_config: "vagga/deploy.yaml".to_string(),
        container_suffix: "-deploy".to_string(),
        version: VersionKind::GitDescribe,
        deployment_name: pattern("{{ patterns.deployment_dirs[1] }}"),
        process_name: pattern("{{ patterns.lithos_configs[1] }}"),
        script,
    };
    let mut metadata = NameMap::new();
    metadata.insert("container".to_string(), MetadataValue::Text("web".to_string()));
    let descriptor = Arc::new(ContainerDescriptor {
        kind: ContainerKind::Daemon,
        metadata,
        volumes: Vec::new(),
        executable: "/bin/web".to_string(),
        arguments: Vec::new(),
    });
    let items = vec![ScanItem::Found(Match {
        path: "config/deploy-prod/lithos.web.yaml".to_string(),
        deployment: Ok("prod".to_string()),
        process: Ok("web".to_string()),
        descriptor: Ok(descriptor),
    })];
    let spec = resolve(config, "v1.0.0".to_string(), items).0;
    let report = build(&vec![(
        "web-deploy".to_string(),
        BuildOutcome::Finished(b"1.0.1\n".to_vec()),
    )]);
    Context::new(spec, dry_run, "prod".to_string(), report).expect("context")
}

#[test]
fn stages_run_in_order_and_end_deployed() {
    let ctx = context(false, 3);
    let mut engine = Engine::new(&ctx);
    assert_eq!(engine.state(), RunState::Running { stage: 0 });
    assert!(matches!(engine.current(&ctx.spec().config.script), Some(Stage::Ciruela(_))));
    engine.report(true);
    assert_eq!(engine.state(), RunState::Running { stage: 1 });
    assert!(matches!(
        engine.current(&ctx.spec().config.script),
        Some(Stage::VerwalterKokkupanek(_))
    ));
    engine.report(true);
    assert_eq!(engine.state(), RunState::Running { stage: 2 });
    engine.report(true);
    assert_eq!(engine.state(), RunState::Deployed);
    assert!(engine.current(&ctx.spec().config.script).is_none());
    engine.report(false);
    assert_eq!(engine.state(), RunState::Deployed);
}

#[test]
fn a_dry_run_ends_ready() {
    let ctx = context(true, 2);
    let mut engine = Engine::new(&ctx);
    engine.report(true);
    engine.report(true);
    assert_eq!(engine.state(), RunState::Ready);
}

#[test]
fn the_first_failure_ends_the_run() {
    let ctx = context(false, 3);
    let mut engine = Engine::new(&ctx);
    engine.report(true);
    engine.report(false);
    assert_eq!(engine.state(), RunState::Failed { stage: 1 });
    assert!(engine.current(&ctx.spec().config.script).is_none());
    engine.report(true);
    engine.report(true);
    assert_eq!(engine.state(), RunState::Failed { stage: 1 });
}

#[test]
fn an_empty_script_is_done_at_once() {
    let ctx = context(false, 0);
    let engine = Engine::new(&ctx);
    assert_eq!(engine.state(), RunState::Deployed);
    let ctx = context(true, 0);
    let engine = Engine::new(&ctx);
    assert_eq!(engine.state(), RunState::Ready);
}

#[test]
fn the_exit_status_follows_the_outcome() {
    assert_eq!(RunState::Running { stage: 0 }.exit_status(), None);
    assert_eq!(RunState::Failed { stage: 2 }.exit_status(), Some(1));
    assert_eq!(RunState::Ready.exit_status(), Some(0));
    assert_eq!(RunState::Deployed.exit_status(), Some(0));
}
