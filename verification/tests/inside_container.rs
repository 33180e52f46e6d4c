use std::io::{Error, ErrorKind};
use std::sync::Arc;

use trimmer::Parser;
use wark::base::{available, scan_hint};
use wark::deploy::config::{Config, VersionKind};
use wark::deploy::resolve::{resolve, Match, ScanItem};
use wark::descriptor::{ContainerDescriptor, ContainerKind, MetadataValue};
use wark::exit::ExitCode;
use wark::inner::lithos::{
    check_configs, check_volume_dirs, dns_files, fatal_err, link_path, link_tmp_path,
    nice_cmdline, symlink_dns, symlink_file, Found, LinkAction, LinkProblem,
};
use wark::inner::Options;
use wark::names::NameMap;
use wark::templates::Pattern;

fn options(check: bool) -> Options {
    Options { lithos_configs: "/config/*.yaml".to_string(), dns_symlinks: None, check }
}

fn descriptor(executable: &str, arguments: &[&str]) -> ContainerDescriptor {
    ContainerDescriptor {
        kind: ContainerKind::Daemon,
        metadata: NameMap::new(),
        volumes: Vec::new(),
        executable: executable.to_string(),
        arguments: arguments.iter().map(|a| a.to_string()).collect(),
    }
}

fn reference_cmdline(executable: &str, arguments: &[&str]) -> String {
    let start = executable.rfind('/').map(|x| x + 1).unwrap_or(0);
    let mut res = String::from(&executable[start..]);
    for item in arguments {
        if res.len() > 60 {
            res.truncate(60);
            res.push_str("...");
            break;
        } else {
            res.push(' ');
            res.push_str(item);
        }
    }
    res.chars().flat_map(|c| c.escape_default()).collect()
}

#[test]
fn the_command_line_shows_the_file_name_and_the_arguments() {
    assert_eq!(nice_cmdline(&descriptor("/usr/bin/python3", &["-m", "http.server"])), "python3 -m http.server");
    assert_eq!(nice_cmdline(&descriptor("web", &[])), "web");
    assert_eq!(nice_cmdline(&descriptor("/bin/", &["x"])), " x");
    assert_eq!(nice_cmdline(&descriptor("", &[])), "");
}

#[test]
fn a_long_command_line_is_cut() {
    let long = "a".repeat(70);
    let shown = nice_cmdline(&descriptor("/bin/run", &[&long, "tail", "more"]));
    assert_eq!(shown, format!("run {}...", "a".repeat(56)));
    let exact = "b".repeat(56);
    let shown = nice_cmdline(&descriptor("/bin/run", &[&exact, "tail"]));
    assert_eq!(shown, format!("run {} tail", exact));
    let shown = nice_cmdline(&descriptor("/bin/run", &[&long]));
    assert_eq!(shown, format!("run {}", long));
}

#[test]
fn what_is_not_printable_is_escaped() {
    assert_eq!(
        nice_cmdline(&descriptor("/bin/sh", &["-c", "echo \"a\tb\"\n", "it's", "back\\slash"])),
        "sh -c echo \\\"a\\tb\\\"\\n it\\'s back\\\\slash"
    );
    assert_eq!(nice_cmdline(&descriptor("caf\u{e9}", &["\u{2764}", "\u{1}", "\r"])), "caf\\u{e9} \\u{2764} \\u{1} \\r");
    assert_eq!(nice_cmdline(&descriptor("x", &["\u{7f}", "~", " "])), "x \\u{7f} ~  ");
}

#[test]
fn the_command_line_agrees_with_the_plain_construction() {
    let long = "x".repeat(100);
    let cases: Vec<(&str, Vec<&str>)> = vec![
        ("/usr/bin/env", vec!["python", "-u", "main.py"]),
        ("relative/path/tool", vec!["--flag=1", "two words"]),
        ("/bin/run", vec![&long, "dropped"]),
        ("/bin/run", vec!["short", &long, "dropped", "too"]),
        ("tool", vec!["\u{e9}\u{e9}", "tab\there", "nul\u{0}"]),
        ("/a/b/c/", vec![]),
    ];
    for (executable, arguments) in cases {
        assert_eq!(
            nice_cmdline(&descriptor(executable, &arguments)),
            reference_cmdline(executable, &arguments)
        );
    }
}

#[test]
fn a_cut_never_splits_a_character() {
    let wide = "\u{e9}".repeat(40);
    let shown = nice_cmdline(&descriptor("r", &[&wide, "tail"]));
    assert_eq!(shown, format!("r {}...", "\\u{e9}".repeat(29)));
}

#[test]
fn errors_that_leave_nothing_in_the_way() {
    assert!(fatal_err::<()>(Ok(())).is_none());
    assert!(fatal_err::<u8>(Err(Error::new(ErrorKind::NotFound, "gone"))).is_none());
    assert!(fatal_err::<u8>(Err(Error::new(ErrorKind::InvalidInput, "no link"))).is_none());
    let e = fatal_err::<u8>(Err(Error::new(ErrorKind::PermissionDenied, "denied")));
    assert_eq!(e.expect("stands in the way").kind(), ErrorKind::PermissionDenied);
    let e = fatal_err::<u8>(Err(Error::new(ErrorKind::Other, "other")));
    assert_eq!(e.expect("stands in the way").kind(), ErrorKind::Other);
}

#[test]
fn a_right_symlink_is_kept() {
    let mut exit = ExitCode::new();
    for check in [true, false] {
        let action =
            symlink_file(Ok("/state/resolv.conf".to_string()), "/state/resolv.conf", &options(check), &mut exit);
        assert_eq!(action, LinkAction::Keep);
    }
    assert!(exit.is_ok());
}

#[test]
fn checking_reports_a_symlink_that_is_not_right() {
    let mut exit = ExitCode::new();
    let action = symlink_file(Ok("/elsewhere".to_string()), "/state/hosts", &options(true), &mut exit);
    assert_eq!(action, LinkAction::Report(LinkProblem::WrongTarget));
    assert!(!exit.is_ok());
    let mut exit = ExitCode::new();
    let action = symlink_file(
        Err(Error::new(ErrorKind::NotFound, "gone")),
        "/state/hosts",
        &options(true),
        &mut exit,
    );
    assert_eq!(action, LinkAction::Report(LinkProblem::Unreadable));
    assert!(!exit.is_ok());
}

#[test]
fn a_wrong_symlink_is_fixed() {
    let mut exit = ExitCode::new();
    let opt = options(false);
    assert_eq!(symlink_file(Ok("/elsewhere".to_string()), "/state/hosts", &opt, &mut exit), LinkAction::Fix);
    assert_eq!(
        symlink_file(Err(Error::new(ErrorKind::NotFound, "gone")), "/state/hosts", &opt, &mut exit),
        LinkAction::Fix
    );
    assert_eq!(
        symlink_file(Err(Error::new(ErrorKind::InvalidInput, "file")), "/state/hosts", &opt, &mut exit),
        LinkAction::Fix
    );
    assert!(exit.is_ok());
    assert_eq!(
        symlink_file(Err(Error::new(ErrorKind::PermissionDenied, "no")), "/state/hosts", &opt, &mut exit),
        LinkAction::Report(LinkProblem::Unreadable)
    );
    assert!(!exit.is_ok());
}

#[test]
fn both_name_resolution_files_are_looked_after() {
    assert_eq!(dns_files(), ("resolv.conf", "hosts"));
    assert_eq!(link_path("resolv.conf"), "/etc/resolv.conf");
    assert_eq!(link_tmp_path("hosts"), "/etc/hosts.tmp");
    let mut exit = ExitCode::new();
    let actions = symlink_dns(
        (Ok("/state/resolv.conf".to_string()), "/state/resolv.conf"),
        (Ok("/old/hosts".to_string()), "/state/hosts"),
        &options(false),
        &mut exit,
    );
    assert_eq!(actions, (LinkAction::Keep, LinkAction::Fix));
    assert!(exit.is_ok());
    let actions = symlink_dns(
        (Ok("/state/resolv.conf".to_string()), "/state/resolv.conf"),
        (Ok("/old/hosts".to_string()), "/state/hosts"),
        &options(true),
        &mut exit,
    );
    assert_eq!(actions, (LinkAction::Keep, LinkAction::Report(LinkProblem::WrongTarget)));
    assert!(!exit.is_ok());
}

#[test]
fn missing_volume_directories_are_created() {
    let mut exit = ExitCode::new();
    let create = check_volume_dirs(&vec![true, false, true, false, false], &options(false), &mut exit);
    assert_eq!(create, vec![1, 3, 4]);
    assert!(exit.is_ok());
    assert_eq!(check_volume_dirs(&Vec::new(), &options(false), &mut exit), Vec::<usize>::new());
}

#[test]
fn checking_reports_missing_volume_directories() {
    let mut exit = ExitCode::new();
    assert_eq!(check_volume_dirs(&vec![true, true], &options(true), &mut exit), Vec::<usize>::new());
    assert!(exit.is_ok());
    assert_eq!(check_volume_dirs(&vec![true, false], &options(true), &mut exit), Vec::<usize>::new());
    assert!(!exit.is_ok());
}

#[test]
fn descriptor_files_are_gone_through() {
    let mut exit = ExitCode::new();
    assert_eq!(check_configs(Some(&vec![Found::Parsed, Found::Parsed]), &mut exit), 2);
    assert!(exit.is_ok());
    assert_eq!(check_configs(Some(&Vec::new()), &mut exit), 0);
    assert!(exit.is_ok());
    assert_eq!(check_configs(Some(&vec![Found::Parsed, Found::Unparsable, Found::Parsed]), &mut exit), 3);
    assert!(!exit.is_ok());
}

#[test]
fn a_listing_error_ends_the_scan() {
    let mut exit = ExitCode::new();
    let found = vec![Found::Parsed, Found::ListError, Found::Unparsable, Found::Parsed];
    assert_eq!(check_configs(Some(&found), &mut exit), 2);
    assert!(!exit.is_ok());
    let mut exit = ExitCode::new();
    assert_eq!(check_configs(None, &mut exit), 0);
    assert!(!exit.is_ok());
}

#[test]
fn the_deployments_are_listed_with_their_sizes() {
    let parser = Parser::new();
    let config = Config {
        minimum_wark: "0.1.0".to_string(),
        deployment_dirs: "config/deploy-(*)".to_string(),
        lithos_configs: "lithos.(*).yaml".to_string(),
        default_copy: NameMap::new(),
        config_files_inner: "/config/deploy-*/lithos.*.yaml".to_string(),
        vagga_config: "vagga/deploy.yaml".to_string(),
        container_suffix: "-deploy".to_string(),
        version: VersionKind::GitDescribe,
        deployment_name: Pattern::parse(&parser, "d").unwrap(),
        process_name: Pattern::parse(&parser, "p").unwrap(),
        script: Vec::new(),
    };
    let item = |deployment: &str, process: &str, kind: ContainerKind| {
        let mut metadata = NameMap::new();
        metadata.insert("container".to_string(), MetadataValue::Text("c".to_string()));
        ScanItem::Found(Match {
            path: "p".to_string(),
            deployment: Ok(deployment.to_string()),
            process: Ok(process.to_string()),
            descriptor: Ok(Arc::new(ContainerDescriptor {
                kind,
                metadata,
                volumes: Vec::new(),
                executable: "x".to_string(),
                arguments: Vec::new(),
            })),
        })
    };
    let items = vec![
        item("prod", "web", ContainerKind::Daemon),
        item("prod", "api", ContainerKind::Daemon),
        item("prod", "shell", ContainerKind::CommandOrDaemon),
        item("dev", "job", ContainerKind::Command),
    ];
    let spec = resolve(config, "v1".to_string(), items).0;
    let list: Vec<(String, usize, usize)> =
        available(&spec).into_iter().map(|s| (s.name, s.daemons, s.commands)).collect();
    assert_eq!(list, vec![("dev".to_string(), 0, 1), ("prod".to_string(), 3, 1)]);
}

#[test]
fn the_hint_shows_the_globs_without_brackets() {
    assert_eq!(
        scan_hint("config/deploy-(*)", "lithos.(*).yaml"),
        "config/deploy-*/lithos.*.yaml"
    );
    assert_eq!(scan_hint("", ""), "/");
    assert_eq!(scan_hint("((a))", ")b("), "a/b");
}
