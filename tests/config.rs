use lunara::config::{
    default_intent_path, default_version, discover_path, parse_str, Config, ConfigFile, Error, Gate,
    Intent, Language, Pipeline, Policies, Timeouts,
};

#[test]
fn parse_minimal_ok() {
    let y = r#"
version: "1"
pipeline:
  languages: [rust]
  gates: [build, lint, test]
policies:
  docs_required: false
  protected_branches: ["main"]
intent:
  path: ".lunara/intent.json"
"#;
    let cfg = parse_str(y).expect("parse ok");
    assert_eq!(cfg.version, "1");
    assert_eq!(cfg.pipeline.languages, vec![Language::Rust]);
    assert_eq!(cfg.pipeline.gates, vec![Gate::Build, Gate::Lint, Gate::Test]);
    assert_eq!(cfg.intent.path, ".lunara/intent.json");
}

#[test]
fn invalid_empty_languages() {
    let y = r#"
version: "1"
pipeline:
  languages: []
  gates: [build]
"#;
    let err = parse_str(y).unwrap_err();
    match err { Error::Invalid(msg) => assert!(msg.contains("languages")), _ => panic!("wrong err") }
}

#[test]
fn invalid_unknown_enum() {
    let y = r#"
version: "1"
pipeline:
  languages: [python]
  gates: [build]
"#;
    let err = parse_str(y).unwrap_err();
    match err { Error::Parse(_) => {}, _ => panic!("expected parse error") }
}

#[test]
fn invalid_empty_gates() {
    let y = "pipeline:\n  languages: [js]\n  gates: []\n";
    match parse_str(y).unwrap_err() {
        Error::Invalid(msg) => assert_eq!(msg, "pipeline.gates must not be empty"),
        _ => panic!("wrong err"),
    }
}

#[test]
fn empty_languages_reported_before_gates() {
    let y = "pipeline:\n  languages: []\n  gates: []\n";
    match parse_str(y).unwrap_err() {
        Error::Invalid(msg) => assert_eq!(msg, "pipeline.languages must not be empty"),
        _ => panic!("wrong err"),
    }
}

#[test]
fn unknown_gate_and_wrong_case_are_parse_errors() {
    for y in [
        "pipeline:\n  languages: [rust]\n  gates: [deploy]\n",
        "pipeline:\n  languages: [Rust]\n  gates: [build]\n",
        "pipeline:\n  languages: [python]\n  gates: []\n",
    ] {
        assert!(matches!(parse_str(y), Err(Error::Parse(_))));
    }
}

#[test]
fn schema_violations_are_parse_errors() {
    for y in [
        "version: \"1\"\n",
        "pipeline: [rust]\n",
        "pipeline:\n  languages: rust\n  gates: [build]\n",
        "pipeline:\n  gates: [build]\n",
        "pipeline:\n  languages: [rust]\n  gates: [build]\n  timeouts:\n    per_step_secs: -1\n",
        "pipeline:\n  languages: [rust]\n  gates: [build]\npolicies:\n  docs_required: 3\n",
        "pipeline: [unclosed\n",
        "",
    ] {
        assert!(matches!(parse_str(y), Err(Error::Parse(_))), "{}", y);
    }
}

#[test]
fn omitted_fields_take_defaults() {
    let cfg = parse_str("pipeline:\n  languages: [js, rust]\n  gates: [test]\n").unwrap();
    assert_eq!(cfg.version, "1");
    assert_eq!(cfg.intent.path, ".lunara/intent.json");
    assert_eq!(cfg.policies, None);
    assert_eq!(cfg.pipeline.timeouts, None);
    assert_eq!(cfg.pipeline.languages, vec![Language::Js, Language::Rust]);
    let cfg = parse_str("pipeline:\n  languages: [rust]\n  gates: [lint]\npolicies: {}\nintent: {}\n").unwrap();
    assert_eq!(cfg.policies, Some(Policies { docs_required: false, protected_branches: vec![] }));
    assert_eq!(cfg.intent.path, ".lunara/intent.json");
    assert_eq!(default_version(), "1");
    assert_eq!(default_intent_path(), ".lunara/intent.json");
}

#[test]
fn timeouts_are_read() {
    let y = "pipeline:\n  languages: [rust]\n  gates: [build]\n  timeouts:\n    per_step_secs: 30\n";
    let cfg = parse_str(y).unwrap();
    assert_eq!(cfg.pipeline.timeouts, Some(Timeouts { per_step_secs: Some(30), overall_secs: None }));
}

fn sample() -> Config {
    Config {
        version: "2".to_string(),
        pipeline: Pipeline {
            languages: vec![Language::Rust, Language::Js],
            gates: vec![Gate::Test, Gate::Build],
            timeouts: Some(Timeouts { per_step_secs: Some(5), overall_secs: Some(600) }),
        },
        policies: Some(Policies {
            docs_required: true,
            protected_branches: vec!["main".to_string(), "release".to_string()],
        }),
        intent: Intent { path: "plan.json".to_string() },
    }
}

#[test]
fn document_round_trip() {
    let c = sample();
    assert_eq!(Config::from_document(&c.to_document()).unwrap(), c);
    let mut d = sample();
    d.policies = None;
    d.pipeline.timeouts = None;
    assert_eq!(Config::from_document(&d.to_document()).unwrap(), d);
}

#[test]
fn validate_accepts_sample() {
    assert!(sample().validate().is_ok());
    let mut c = sample();
    c.pipeline.gates.clear();
    assert!(matches!(c.validate(), Err(Error::Invalid(_))));
}

#[test]
fn discovery_prefers_yml() {
    assert_eq!(discover_path(true, true), Some(ConfigFile::Yml));
    assert_eq!(discover_path(false, true), Some(ConfigFile::Yaml));
    assert_eq!(discover_path(true, false), Some(ConfigFile::Yml));
    assert_eq!(discover_path(false, false), None);
    assert_eq!(ConfigFile::Yml.file_name(), "lunara.yml");
    assert_eq!(ConfigFile::Yaml.file_name(), "lunara.yaml");
}
