//! Options of the command line.

use clustat::cli::args::{help_text, parse_args, CliOptions, Seconds};
use std::time::Duration;

fn seconds(raw: &str) -> Seconds {
    match raw.parse::<f64>() {
        Err(_) => Seconds::NotANumber,
        Ok(secs) if secs <= 0.0 || !secs.is_finite() => Seconds::NotPositive,
        Ok(secs) => Seconds::Nanos(Duration::from_secs_f64(secs).as_nanos()),
    }
}

fn parse(items: &[&str]) -> Result<CliOptions, String> {
    let args: Vec<String> = items.iter().map(|s| s.to_string()).collect();
    let numbers: Vec<Seconds> = items.iter().map(|s| seconds(s)).collect();
    parse_args(args, numbers)
}

#[test]
fn parses_node_and_user_filters() {
    let opts = parse(&["-n", "node[01-02]", "-user", "alice"]).unwrap();
    assert_eq!(opts.node_filter.as_deref(), Some("node[01-02]"));
    assert_eq!(opts.user_filter.as_deref(), Some("alice"));
    assert!(!opts.watch);
}

#[test]
fn parses_watch_default_interval() {
    let opts = parse(&["--watch"]).unwrap();
    assert!(opts.watch);
    assert_eq!(opts.refresh_interval_ns, 2_000_000_000);
}

#[test]
fn parses_watch_with_inline_interval() {
    let opts = parse(&["-w", "5"]).unwrap();
    assert!(opts.watch);
    assert_eq!(opts.refresh_interval_ns, 5_000_000_000);
}

#[test]
fn parses_explicit_refresh_interval() {
    let opts = parse(&["--interval", "3"]).unwrap();
    assert!(opts.watch);
    assert_eq!(opts.refresh_interval_ns, 3_000_000_000);
}

#[test]
fn parses_interval_flag_without_value_as_watch() {
    let opts = parse(&["-i"]).unwrap();
    assert!(opts.watch);
    assert_eq!(opts.refresh_interval_ns, 2_000_000_000);
}

#[test]
fn parses_fractional_refresh_interval() {
    let opts = parse(&["-i", "0.05"]).unwrap();
    assert!(opts.watch);
    assert_eq!(opts.refresh_interval_ns, 50_000_000);
}

#[test]
fn clamps_refresh_interval_to_50ms() {
    let opts = parse(&["-i", "0.001"]).unwrap();
    assert!(opts.watch);
    assert_eq!(opts.refresh_interval_ns, 50_000_000);
}

#[test]
fn parses_latency_display_flag() {
    let opts = parse(&["--latency-display", "false"]).unwrap();
    assert_eq!(opts.latency_display, Some(false));
    let opts = parse(&["--no-latency"]).unwrap();
    assert_eq!(opts.latency_display, Some(false));
}

#[test]
fn parses_json_output_flag() {
    let opts = parse(&["--json", "-n", "node-a"]).unwrap();
    assert!(opts.json);
    assert_eq!(opts.node_filter.as_deref(), Some("node-a"));
}

#[test]
fn parses_backend_socket() {
    let opts = parse(&["--backend-socket", "/tmp/clustat.sock"]).unwrap();
    assert_eq!(opts.backend_socket.as_deref(), Some("/tmp/clustat.sock"));
}

#[test]
fn intervals_that_are_none_are_refused() {
    assert_eq!(
        parse(&["-i", "soon"]),
        Err("refresh interval must be seconds, got 'soon'".to_string())
    );
    assert_eq!(
        parse(&["-i", "0"]),
        Err("refresh interval must be greater than 0".to_string())
    );
}

#[test]
fn options_without_their_value_are_refused() {
    assert_eq!(parse(&["-n"]), Err("-n requires a value".to_string()));
    assert_eq!(
        parse(&["--backend-uds"]),
        Err("--backend-uds requires a value".to_string())
    );
    assert_eq!(parse(&["--what"]), Err("unsupported arg: --what".to_string()));
    assert_eq!(
        parse(&["--gpuname-width", "wide"]),
        Err("--gpuname-width must be a non-negative integer, got 'wide'".to_string())
    );
    assert_eq!(
        parse(&["--latency-display", "maybe"]),
        Err("boolean value expected, got 'maybe'".to_string())
    );
}

#[test]
fn options_that_exclude_each_other_are_refused() {
    assert_eq!(
        parse(&["--color", "--no-color"]),
        Err("--color and --no-color can't be used at the same time".to_string())
    );
    assert_eq!(
        parse(&["--json", "-w"]),
        Err("--json and --interval/-i can't be used together".to_string())
    );
}

#[test]
fn show_all_shows_user_command_and_number() {
    let opts = parse(&["-a", "--gpuname-width", "0", "--no-header"]).unwrap();
    assert!(opts.show_cmd && opts.show_user && opts.show_pid);
    assert_eq!(opts.gresname_width, Some(0));
    assert!(!opts.show_header);
    let help = parse(&["-h"]).unwrap_err();
    assert_eq!(help, help_text());
    assert!(help.starts_with("Usage: clustat [OPTIONS]"));
}
