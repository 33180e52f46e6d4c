use std::sync::Arc;

use trimmer::Parser;
use wark::deploy::config::{Config, VersionKind};
use wark::deploy::containers::{build, BuildOutcome, Context};
use wark::deploy::resolve::{resolve, Match, ScanItem};
use wark::deploy::tools::kokkupanek::{
    accept_head, prepare, status_request, submission_request, user_agent, Action, Event, Failure,
    Notifier, Phase, PrepareError, RetryExhausted, Settings, MAX_ATTEMPTS, PORT,
    RETRY_DELAY_SECONDS, STATUS_BODY_LIMIT, SUBMISSION_BODY_LIMIT,
};
use wark::descriptor::{ContainerDescriptor, ContainerKind, MetadataValue};
use wark::names::NameMap;
use wark::templates::Pattern;

fn pattern(text: &str) -> Pattern {
    Pattern::parse(&Parser::new(), text).expect("pattern parses")
}

fn found(process: &str, kind: ContainerKind, container: &str) -> ScanItem {
    let mut metadata = NameMap::new();
    metadata.insert("container".to_string(), MetadataValue::Text(container.to_string()));
    ScanItem::Found(Match {
        path: format!("config/deploy-prod/lithos.{}.yaml", process),
        deployment: Ok("prod".to_string()),
        process: Ok(process.to_string()),
        descriptor: Ok(Arc::new(ContainerDescriptor {
            kind,
            metadata,
            volumes: Vec::new(),
            executable: "/bin/run".to_string(),
            arguments: Vec::new(),
        })),
    })
}

fn context(built: &[(&str, &str)]) -> Context {
    let config = Config {
        minimum_wark: "0.1.0".to_string(),
        deployment_dirs: "config/deploy-(*)".to_string(),
        lithos_configs: "lithos.(*).yaml".to_string(),
        default_copy: NameMap::new(),
        config_files_inner: "/config/deploy-*/lithos.*.yaml".to_string(),
        vagga_config: "vagga/deploy.yaml".to_string(),
        container_suffix: "-deploy".to_string(),
        version: VersionKind::GitDescribe,
        deployment_name: pattern("{{ patterns.deployment_dirs[1] }}"),
        process_name: pattern("{{ patterns.lithos_configs[1] }}"),
        script: Vec::new(),
    };
    let items = vec![
        found("web", ContainerKind::Daemon, "web"),
        found("api", ContainerKind::Daemon, "api"),
        found("migrate", ContainerKind::Command, "web"),
        found("shell", ContainerKind::CommandOrDaemon, "tools"),
    ];
    let spec = resolve(config, "v1.2.3".to_string(), items).0;
    let answers = built
        .iter()
        .map(|(name, version)| {
            (name.to_string(), BuildOutcome::Finished(version.as_bytes().to_vec()))
        })
        .collect();
    Context::new(spec, false, "prod".to_string(), build(&answers)).expect("context")
}

fn all_built() -> Context {
    context(&[("web-deploy", "1.0.1\n"), ("api-deploy", "2.0\n"), ("tools-deploy", "t9\n")])
}

fn settings(hosts: &[&str], slug: &str, query: &str) -> Settings {
    Settings {
        hosts: hosts.iter().map(|h| pattern(h)).collect(),
        slug: pattern(slug),
        deployment_graphql: pattern(query),
    }
}

fn vars(pairs: &[(&str, &str)]) -> NameMap<String> {
    let mut vars = NameMap::new();
    for (k, v) in pairs {
        vars.insert(k.to_string(), v.to_string());
    }
    vars
}

fn hosts(names: &[&str]) -> Vec<String> {
    names.iter().map(|n| n.to_string()).collect()
}

fn attempt_fails_at_status(n: &mut Notifier, pick: usize, first: bool) {
    if !first {
        assert!(matches!(n.step(Event::Waited { pick }), Action::ResolveCandidate(_)));
    }
    assert!(matches!(n.step(Event::Resolved), Action::Connect));
    assert!(matches!(n.step(Event::Connected), Action::RequestStatus));
}

#[test]
fn prepare_renders_and_takes_the_snapshot() {
    let ctx = all_built();
    let set = settings(
        &["{{ vars.region }}.verwalter.example.org", "backup.example.org"],
        "{{ vars.project }}-prod",
        "mutation Deploy { create }",
    );
    let vars = vars(&[("region", "eu"), ("project", "shop")]);
    let submission = prepare(&ctx, &set, &vars).expect("prepared");
    assert_eq!(submission.hosts, vec!["eu.verwalter.example.org", "backup.example.org"]);
    assert_eq!(submission.slug, "shop-prod");
    assert_eq!(submission.query, "mutation Deploy { create }");
    assert_eq!(submission.config.version, "v1.2.3");
    let daemons: Vec<(&str, &str)> = submission
        .config
        .daemons
        .iter()
        .map(|d| (d.config.as_str(), d.image.as_str()))
        .collect();
    assert_eq!(
        daemons,
        vec![
            ("config/deploy-prod/lithos.api.yaml", "2.0"),
            ("config/deploy-prod/lithos.shell.yaml", "t9"),
            ("config/deploy-prod/lithos.web.yaml", "1.0.1"),
        ]
    );
    let commands: Vec<(&str, &str)> = submission
        .config
        .commands
        .iter()
        .map(|c| (c.config.as_str(), c.image.as_str()))
        .collect();
    assert_eq!(
        commands,
        vec![
            ("config/deploy-prod/lithos.migrate.yaml", "1.0.1"),
            ("config/deploy-prod/lithos.shell.yaml", "t9"),
        ]
    );
}

#[test]
fn prepare_fails_on_a_host_that_does_not_render() {
    let ctx = all_built();
    let set = settings(&["ok.example.org", "{{ missing }}.example.org"], "slug", "query");
    match prepare(&ctx, &set, &vars(&[])) {
        Err(PrepareError::HostPattern(e)) => assert_eq!(e.pattern, "{{ missing }}.example.org"),
        other => panic!("unexpected {:?}", other),
    }
}

#[test]
fn prepare_fails_on_slug_and_query_in_that_order() {
    let ctx = all_built();
    let set = settings(&["ok.example.org"], "{{ nothing.here }}", "{{ nor.here }}");
    assert!(matches!(
        prepare(&ctx, &set, &vars(&[])),
        Err(PrepareError::SlugPattern(e)) if e.pattern == "{{ nothing.here }}"
    ));
    let set = settings(&["ok.example.org"], "slug", "{{ nor.here }}");
    assert!(matches!(
        prepare(&ctx, &set, &vars(&[])),
        Err(PrepareError::QueryPattern(e)) if e.pattern == "{{ nor.here }}"
    ));
}

#[test]
fn prepare_needs_a_host() {
    let ctx = all_built();
    let set = settings(&[], "slug", "query");
    assert!(matches!(prepare(&ctx, &set, &vars(&[])), Err(PrepareError::NoHosts)));
}

#[test]
fn prepare_needs_every_container_built() {
    let ctx = context(&[("web-deploy", "1.0.1\n"), ("api-deploy", "2.0\n")]);
    let set = settings(&["ok.example.org"], "slug", "query");
    assert!(matches!(
        prepare(&ctx, &set, &vars(&[])),
        Err(PrepareError::ContainerNotFound(name)) if name == "tools"
    ));
    let ctx = context(&[("web-deploy", "1.0.1\n"), ("tools-deploy", "t9\n")]);
    assert!(matches!(
        prepare(&ctx, &set, &vars(&[])),
        Err(PrepareError::ContainerNotFound(name)) if name == "api"
    ));
}

#[test]
fn stage_constants() {
    assert_eq!(PORT, 8379);
    assert_eq!(MAX_ATTEMPTS, 21);
    assert_eq!(RETRY_DELAY_SECONDS, 1);
}

#[test]
fn no_stage_without_hosts_or_attempts() {
    assert!(Notifier::start(Vec::new(), 3, 0).is_none());
    assert!(Notifier::start(hosts(&["a"]), 0, 0).is_none());
    assert!(Notifier::start(hosts(&["a"]), 1, 0).is_some());
}

#[test]
fn the_pick_selects_the_candidate() {
    let names = hosts(&["a.example.org", "b.example.org", "c.example.org"]);
    for pick in 0..7usize {
        let (n, action) = Notifier::start(names.clone(), 5, pick).unwrap();
        assert_eq!(n.phase(), Phase::ResolveCandidate);
        assert_eq!(n.attempt(), 1);
        match action {
            Action::ResolveCandidate(host) => assert_eq!(host, names[pick % 3]),
            other => panic!("unexpected {:?}", other),
        }
    }
}

#[test]
fn drawing_names_one_of_the_hosts() {
    let names = hosts(&["a", "b", "c"]);
    assert_eq!(Notifier::draw_among(&Vec::new()), None);
    let (n, _) = Notifier::start(names.clone(), 5, 0).unwrap();
    let mut seen = [false; 3];
    for _ in 0..400 {
        let pick = n.draw();
        assert!(pick < 3);
        seen[pick] = true;
        let first = Notifier::draw_among(&names).unwrap();
        assert!(first < 3);
    }
    assert_eq!(seen, [true, true, true]);
}

#[test]
fn success_on_the_first_attempt() {
    let (mut n, action) = Notifier::start(hosts(&["candidate"]), MAX_ATTEMPTS, 0).unwrap();
    assert!(matches!(action, Action::ResolveCandidate(host) if host == "candidate"));
    assert!(matches!(n.step(Event::Resolved), Action::Connect));
    assert_eq!(n.phase(), Phase::ConnectCandidate);
    assert!(matches!(n.step(Event::Connected), Action::RequestStatus));
    assert_eq!(n.phase(), Phase::RequestStatus);
    let action = n.step(Event::Status { code: 200, leader: Some("node-7".to_string()) });
    assert!(matches!(action, Action::ResolveLeader(name) if name == "node-7"));
    assert_eq!(n.phase(), Phase::ResolveLeader);
    assert!(matches!(n.step(Event::Resolved), Action::Connect));
    assert_eq!(n.phase(), Phase::ConnectLeader);
    assert!(matches!(n.step(Event::Connected), Action::Submit));
    assert_eq!(n.phase(), Phase::SubmitDeploymentRequest);
    assert!(matches!(n.step(Event::Submitted { code: 200, readable: true }), Action::Done));
    assert_eq!(n.phase(), Phase::Done);
    assert_eq!(n.attempt(), 1);
    assert!(matches!(n.step(Event::Waited { pick: 0 }), Action::Done));
    assert!(matches!(n.step(Event::Failed), Action::Done));
    assert_eq!(n.attempt(), 1);
}

#[test]
fn leader_found_on_the_fourth_attempt() {
    let (mut n, _) = Notifier::start(hosts(&["a", "b"]), MAX_ATTEMPTS, 0).unwrap();
    let mut status_calls = 0;
    let mut submissions = 0;
    for attempt in 1..=3u32 {
        attempt_fails_at_status(&mut n, attempt as usize, attempt == 1);
        status_calls += 1;
        assert_eq!(n.attempt(), attempt);
        assert!(matches!(n.step(Event::Status { code: 503, leader: None }), Action::Wait));
        assert_eq!(n.phase(), Phase::Waiting);
    }
    attempt_fails_at_status(&mut n, 4, false);
    status_calls += 1;
    assert_eq!(n.attempt(), 4);
    let action = n.step(Event::Status { code: 200, leader: Some("node-7".to_string()) });
    assert!(matches!(action, Action::ResolveLeader(name) if name == "node-7"));
    assert!(matches!(n.step(Event::Resolved), Action::Connect));
    if let Action::Submit = n.step(Event::Connected) {
        submissions += 1;
    }
    assert!(matches!(n.step(Event::Submitted { code: 200, readable: true }), Action::Done));
    assert_eq!(status_calls, 4);
    assert_eq!(submissions, 1);
    assert_eq!(n.attempt(), 4);
    assert_eq!(n.phase(), Phase::Done);
}

#[test]
fn the_attempts_are_bounded() {
    let bound = 5u32;
    let (mut n, _) = Notifier::start(hosts(&["a", "b", "c"]), bound, 1).unwrap();
    let mut attempts = 1;
    loop {
        match n.step(Event::Failed) {
            Action::Wait => {
                assert_eq!(n.phase(), Phase::Waiting);
                match n.step(Event::Waited { pick: attempts as usize }) {
                    Action::ResolveCandidate(_) => attempts += 1,
                    other => panic!("unexpected {:?}", other),
                }
            }
            Action::GiveUp(e) => {
                assert_eq!(e, RetryExhausted { attempts: bound, cause: Failure::NetworkError });
                break;
            }
            other => panic!("unexpected {:?}", other),
        }
        assert!(attempts <= bound);
    }
    assert_eq!(attempts, bound);
    assert_eq!(n.phase(), Phase::Failed);
    assert!(matches!(n.step(Event::Waited { pick: 0 }), Action::GiveUp(_)));
    assert!(matches!(n.step(Event::Resolved), Action::GiveUp(_)));
    assert_eq!(n.attempt(), bound);
}

#[test]
fn a_single_attempt_that_fails_gives_up_at_once() {
    let (mut n, _) = Notifier::start(hosts(&["a"]), 1, 0).unwrap();
    assert!(matches!(n.step(Event::Resolved), Action::Connect));
    assert!(matches!(n.step(Event::Connected), Action::RequestStatus));
    match n.step(Event::Status { code: 404, leader: Some("node-1".to_string()) }) {
        Action::GiveUp(e) => {
            assert_eq!(e, RetryExhausted { attempts: 1, cause: Failure::ProtocolError })
        }
        other => panic!("unexpected {:?}", other),
    }
}

#[test]
fn every_step_of_an_attempt_can_fail() {
    let smooth = |k: usize| -> Event {
        match k {
            0 => Event::Resolved,
            1 => Event::Connected,
            2 => Event::Status { code: 200, leader: Some("leader".to_string()) },
            3 => Event::Resolved,
            4 => Event::Connected,
            _ => Event::Submitted { code: 200, readable: true },
        }
    };
    for failing in 0..6usize {
        let (mut n, _) = Notifier::start(hosts(&["a"]), 3, 0).unwrap();
        for k in 0..failing {
            assert!(!matches!(n.step(smooth(k)), Action::Wait | Action::GiveUp(_)));
        }
        assert!(matches!(n.step(Event::Failed), Action::Wait));
        assert_eq!(n.phase(), Phase::Waiting);
        assert!(matches!(n.step(Event::Resolved), Action::Wait));
        assert!(matches!(n.step(Event::Waited { pick: 0 }), Action::ResolveCandidate(_)));
        assert_eq!(n.attempt(), 2);
        assert_eq!(n.phase(), Phase::ResolveCandidate);
    }
}

#[test]
fn replies_that_are_not_accepted_end_the_attempt() {
    let (mut n, _) = Notifier::start(hosts(&["a"]), 9, 0).unwrap();
    n.step(Event::Resolved);
    n.step(Event::Connected);
    assert!(matches!(n.step(Event::Status { code: 200, leader: None }), Action::Wait));
    n.step(Event::Waited { pick: 0 });
    n.step(Event::Resolved);
    n.step(Event::Connected);
    n.step(Event::Status { code: 200, leader: Some("l".to_string()) });
    n.step(Event::Resolved);
    n.step(Event::Connected);
    assert!(matches!(n.step(Event::Submitted { code: 500, readable: true }), Action::Wait));
    n.step(Event::Waited { pick: 0 });
    n.step(Event::Resolved);
    n.step(Event::Connected);
    n.step(Event::Status { code: 200, leader: Some("l".to_string()) });
    n.step(Event::Resolved);
    n.step(Event::Connected);
    assert!(matches!(n.step(Event::Submitted { code: 200, readable: false }), Action::Wait));
    assert_eq!(n.attempt(), 3);
    n.step(Event::Waited { pick: 0 });
    assert!(matches!(n.step(Event::Connected), Action::Wait));
    assert_eq!(n.attempt(), 4);
}

#[test]
fn requests_as_they_are_written() {
    assert_eq!(user_agent("0.3.4"), "wark/0.3.4");
    let status = status_request("0.3.4");
    assert_eq!(status.method, "GET");
    assert_eq!(status.path, "/v1/status");
    assert_eq!(
        status.headers,
        vec![("Host", "verwalter".to_string()), ("User-Agent", "wark/0.3.4".to_string())]
    );
    assert_eq!(status.body, None);
    let submit = submission_request("1.0", b"{}".to_vec());
    assert_eq!(submit.method, "GET");
    assert_eq!(submit.path, "/v1/wait_action");
    assert_eq!(
        submit.headers,
        vec![
            ("Host", "verwalter".to_string()),
            ("Content-Type", "application/json".to_string()),
            ("User-Agent", "wark/1.0".to_string()),
        ]
    );
    assert_eq!(submit.body, Some(b"{}".to_vec()));
}

#[test]
fn only_status_200_is_read() {
    assert_eq!(accept_head(Phase::RequestStatus, Some(200)), Ok(STATUS_BODY_LIMIT));
    assert_eq!(accept_head(Phase::SubmitDeploymentRequest, Some(200)), Ok(SUBMISSION_BODY_LIMIT));
    assert_eq!(STATUS_BODY_LIMIT, 65536);
    assert_eq!(SUBMISSION_BODY_LIMIT, 1000);
    assert_eq!(accept_head(Phase::RequestStatus, Some(404)), Err(Failure::ProtocolError));
    assert_eq!(accept_head(Phase::RequestStatus, Some(201)), Err(Failure::ProtocolError));
    assert_eq!(accept_head(Phase::SubmitDeploymentRequest, None), Err(Failure::ProtocolError));
}
