use lunara::cli::{parse_and_run, parse_command, Command, EXIT_CHECK_FAILED, EXIT_ERROR, EXIT_OK, EXIT_USAGE};
use lunara::{banner, VERSION};

fn call(args: &[&str]) -> i32 {
    let v: Vec<String> = args.iter().map(|s| s.to_string()).collect();
    parse_and_run(&v, false)
}

#[test]
fn usage_on_no_args() {
    assert_eq!(call(&["lunara"]), EXIT_OK);
}

#[test]
fn version_ok() {
    assert_eq!(call(&["lunara", "version"]), EXIT_OK);
}

#[test]
fn unknown_is_usage() {
    assert_eq!(call(&["lunara", "wat"]), EXIT_USAGE);
}

#[test]
fn commands_map_to_exit_codes() {
    assert_eq!(call(&["lunara", "help"]), EXIT_OK);
    assert_eq!(call(&["lunara", "init"]), EXIT_ERROR);
    assert_eq!(call(&["lunara", "check"]), EXIT_CHECK_FAILED);
    assert_eq!(call(&["lunara", "run"]), EXIT_ERROR);
    assert_eq!(call(&["lunara", "status"]), EXIT_ERROR);
    let v: Vec<String> = vec!["lunara".to_string(), "status".to_string()];
    assert_eq!(parse_and_run(&v, true), EXIT_OK);
}

#[test]
fn command_words_are_exact() {
    let v: Vec<String> = vec!["lunara".to_string(), "Version".to_string()];
    assert_eq!(parse_command(&v), Command::Unknown);
    let v: Vec<String> = vec!["lunara".to_string(), "version".to_string(), "x".to_string()];
    assert_eq!(parse_command(&v), Command::Version);
    let v: Vec<String> = Vec::new();
    assert_eq!(parse_command(&v), Command::Help);
}

#[test]
fn banner_names_version() {
    assert_eq!(banner(), format!("Lunara core ready (v{})", VERSION));
}
