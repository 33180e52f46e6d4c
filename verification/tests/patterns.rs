use capturing_glob::Pattern as Glob;
use trimmer::Parser;
use wark::names::NameMap;
use wark::templates::pattern::render_all;
use wark::templates::pattern::is_plain;
use wark::templates::{ContainerVar, GlobVar, Pattern, PatternError};

fn vars(pairs: &[(&str, &str)]) -> NameMap<String> {
    let mut vars = NameMap::new();
    for (k, v) in pairs {
        vars.insert(k.to_string(), v.to_string());
    }
    vars
}

#[test]
fn a_pattern_keeps_its_text() {
    let parser = Parser::new();
    let pattern = Pattern::parse(&parser, "{{ vars.name }}-x").expect("parses");
    assert_eq!(pattern.text(), "{{ vars.name }}-x");
}

#[test]
fn a_broken_pattern_is_refused() {
    let parser = Parser::new();
    for text in ["{{ vars.name", "## if x\nno end", "{{ }}", "{{ a b }}", "{{ a..b }}", "{{ a[] }}"] {
        match Pattern::parse(&parser, text) {
            Err(PatternError::NotPlain(t)) => assert_eq!(t, text),
            other => panic!("unexpected {:?} for {:?}", other, text),
        }
    }
}

#[test]
fn a_plain_pattern_can_still_be_refused_by_the_parser() {
    let parser = Parser::new();
    for text in ["{{ not }}", "{{ if }}", "{{ x.and }}"] {
        assert!(is_plain(text));
        match Pattern::parse(&parser, text) {
            Err(e @ PatternError::Syntax { .. }) => assert_eq!(e.text(), text),
            other => panic!("unexpected {:?} for {:?}", other, text),
        }
    }
}

#[test]
fn what_the_engine_aborts_on_is_refused_unparsed() {
    let parser = Parser::new();
    for text in [
        "{{ # }}",
        "{{ 0 % 0 }}",
        "{{ 0 / 0 }}",
        "{{ x[0x1] }}",
        "{{ x[1_0] }}",
        "{# comment #}",
        "a # b",
        "{{- x }}",
        "{{ x | f }}",
        "{{ x[\"k\"] }}",
        "{{ x.1 }}",
        "{{ \u{e9} }}",
        "{{{ x }}",
        "{{ x }",
    ] {
        assert!(!is_plain(text), "{:?}", text);
        assert!(matches!(Pattern::parse(&parser, text), Err(PatternError::NotPlain(_))));
    }
}

#[test]
fn plain_patterns() {
    for text in [
        "",
        "plain text",
        "{{ x }}",
        "{{x}}",
        "{{   x   }}",
        "{{ vars.region }}.example.org",
        "{{ patterns.deployment_dirs[1] }}",
        "{{ a.b[0][12].c_d.E9 }}",
        "/images/{{ container_name }}/{{ container_version }}",
        "mutation { deploy(slug: \"x\") { ok } }",
        "line one\nline two {{ _x }}\n",
        "a{b}c}}d{",
        "{ {x} }",
    ] {
        assert!(is_plain(text), "{:?}", text);
        assert!(Pattern::parse(&Parser::new(), text).is_ok(), "{:?}", text);
    }
}

#[test]
fn rendering_substitutes_the_variables() {
    let parser = Parser::new();
    let pattern = Pattern::parse(&parser, "{{ vars.env }}.{{ vars.zone }}.example.org").unwrap();
    let rendered = pattern.render(&vars(&[("env", "prod"), ("zone", "eu")]), None).unwrap();
    assert_eq!(rendered, "prod.eu.example.org");
    let rendered = pattern.render(&vars(&[("zone", "us"), ("env", "dev")]), None).unwrap();
    assert_eq!(rendered, "dev.us.example.org");
}

#[test]
fn rendering_binds_the_container() {
    let parser = Parser::new();
    let pattern =
        Pattern::parse(&parser, "/{{ vars.root }}/{{ container_name }}@{{ container_version }}")
            .unwrap();
    let container = ContainerVar { name: "web-deploy".to_string(), version: "1.0.1".to_string() };
    let rendered = pattern.render(&vars(&[("root", "images")]), Some(&container)).unwrap();
    assert_eq!(rendered, "/images/web-deploy@1.0.1");
    assert!(pattern.render(&vars(&[("root", "images")]), None).is_err());
}

#[test]
fn rendering_twice_gives_the_same() {
    let parser = Parser::new();
    let pattern = Pattern::parse(&parser, "{{ vars.a }}-{{ vars.b }}").unwrap();
    let bindings = vars(&[("a", "1"), ("b", "2")]);
    let first = pattern.render(&bindings, None).unwrap();
    let second = pattern.render(&bindings, None).unwrap();
    assert_eq!(first, "1-2");
    assert_eq!(first, second);
    let other = Pattern::parse(&parser, "{{ vars.a }}-{{ vars.b }}").unwrap();
    assert_eq!(other.render(&bindings, None).unwrap(), first);
}

#[test]
fn a_failed_rendering_names_the_pattern() {
    let parser = Parser::new();
    let pattern = Pattern::parse(&parser, "{{ nowhere }}").unwrap();
    let e = pattern.render_or_explain(&vars(&[]), None).expect_err("fails");
    assert_eq!(e.pattern, "{{ nowhere }}");
    let plain = Pattern::parse(&parser, "plain text").unwrap();
    assert_eq!(plain.render_or_explain(&vars(&[]), None).unwrap(), "plain text");
}

#[test]
fn a_list_of_patterns_renders_in_order() {
    let parser = Parser::new();
    let patterns = vec![
        Pattern::parse(&parser, "a-{{ vars.x }}").unwrap(),
        Pattern::parse(&parser, "b-{{ vars.x }}").unwrap(),
    ];
    assert_eq!(render_all(&patterns, &vars(&[("x", "1")]), None).unwrap(), vec!["a-1", "b-1"]);
    assert_eq!(render_all(&Vec::new(), &vars(&[]), None).unwrap(), Vec::<String>::new());
    let patterns = vec![
        Pattern::parse(&parser, "fine").unwrap(),
        Pattern::parse(&parser, "{{ first_missing }}").unwrap(),
        Pattern::parse(&parser, "{{ second_missing }}").unwrap(),
    ];
    let e = render_all(&patterns, &vars(&[]), None).expect_err("fails");
    assert_eq!(e.pattern, "{{ first_missing }}");
}

#[test]
fn a_glob_match_becomes_a_variable() {
    let glob = Glob::new("config/deploy-(*)/lithos.(*).yaml").unwrap();
    let entry = glob.captures("config/deploy-prod/lithos.web.yaml").expect("matches");
    let var = GlobVar::from_entry(&entry).expect("utf-8");
    assert_eq!(var.path(), "config/deploy-prod/lithos.web.yaml");
    assert_eq!(var.capture(0).unwrap(), "config/deploy-prod/lithos.web.yaml");
    assert_eq!(var.capture(1).unwrap(), "prod");
    assert_eq!(var.capture(2).unwrap(), "web");
    assert!(var.capture(3).is_none());
    assert!(var.capture(10).is_none());
}

#[test]
fn a_glob_variable_keeps_ten_groups_at_most() {
    let glob = Glob::new("(?)(?)(?)(?)(?)(?)(?)(?)(?)(?)(?)(?)").unwrap();
    let entry = glob.captures("abcdefghijkl").expect("matches");
    let var = GlobVar::from_entry(&entry).expect("utf-8");
    assert_eq!(var.capture(0).unwrap(), "abcdefghijkl");
    assert_eq!(var.capture(1).unwrap(), "a");
    assert_eq!(var.capture(9).unwrap(), "i");
    assert!(var.capture(10).is_none());
}

#[test]
fn a_glob_variable_without_groups() {
    let glob = Glob::new("*.yaml").unwrap();
    let entry = glob.captures("deploy.yaml").expect("matches");
    let var = GlobVar::from_entry(&entry).expect("utf-8");
    assert_eq!(var.path(), "deploy.yaml");
    assert_eq!(var.capture(0).unwrap(), "deploy.yaml");
    assert!(var.capture(1).is_none());
    let made = GlobVar::new("p".to_string(), vec!["p".to_string(), "q".to_string()]);
    assert_eq!(made.path(), "p");
    assert_eq!(made.capture(1).unwrap(), "q");
}
