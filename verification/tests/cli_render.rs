//! Answers as text.

use clustat::cli::args::CliOptions;
use clustat::cli::backend::{
    backend_socket_from_options, build_query_command, decode_response,
    latency_display_from_options, GresView, NodeView, ProcessView, QueryMeta, QueryResponse,
    DEFAULT_BACKEND_SOCKET,
};
use clustat::cli::refresh::{after_write, round_text, run_refresh_loop, LoopStep};
use clustat::cli::render::{
    display_username, format_delay, render_json, render_table, shorten_left, IncrementalRenderer,
    Lookups, NodeTexts, RenderOptions,
};
use std::cell::{Cell, RefCell};
use std::collections::HashMap;

fn lookups(resp: &QueryResponse) -> Lookups {
    let mut names = HashMap::new();
    names.insert(1000, "alice".to_string());
    Lookups {
        names,
        nodes: resp
            .nodes
            .iter()
            .map(|node| NodeTexts {
                time: Some(format!("at {}", node.timestamp_ms)),
                millis: format!("{:.2}", node.delay_us.unwrap_or(0) as f64 / 1_000.0),
            })
            .collect(),
    }
}

fn render(resp: &QueryResponse, user_filter: Option<&str>, opts: &RenderOptions) -> String {
    render_table(resp, user_filter, opts, &lookups(resp))
}

#[test]
fn user_filter_is_noop_when_process_field_missing() {
    let resp = QueryResponse {
        meta: Default::default(),
        nodes: vec![NodeView {
            hostname: "node-a".to_string(),
            connection_id: String::new(),
            addr: String::new(),
            timestamp_ms: 0,
            driver_version: None,
            num: 0,
            stale: false,
            error: None,
            delay_us: None,
            gres: vec![GresView {
                index: 0,
                name: "NVIDIA A100".to_string(),
                temperature_c: Some(32),
                util: 42,
                mem_used_mb: 1,
                mem_total_mb: 2,
                processes: None,
            }],
        }],
    };

    let rendered = render(&resp, Some("alice"), &RenderOptions::default());
    assert!(rendered.contains("node-a"));
}

#[test]
fn test_rows_render_gres_data_not_only_header() {
    let resp = QueryResponse {
        meta: Default::default(),
        nodes: vec![NodeView {
            hostname: "node-a".to_string(),
            connection_id: String::new(),
            addr: String::new(),
            timestamp_ms: 0,
            driver_version: None,
            num: 0,
            stale: false,
            error: None,
            delay_us: None,
            gres: vec![
                GresView {
                    index: 0,
                    name: "NVIDIA A100".to_string(),
                    temperature_c: Some(32),
                    util: 42,
                    mem_used_mb: 1024,
                    mem_total_mb: 8192,
                    processes: None,
                },
                GresView {
                    index: 1,
                    name: "NVIDIA A100".to_string(),
                    temperature_c: Some(32),
                    util: 77,
                    mem_used_mb: 4096,
                    mem_total_mb: 8192,
                    processes: None,
                },
            ],
        }],
    };

    let rendered = render(&resp, None, &RenderOptions::default());
    assert!(rendered.contains("node-a"));
    assert!(rendered.contains("[0] NVIDIA A100"));
    assert!(rendered.contains("42 %"));
    assert!(rendered.contains("77 %"));
    assert!(rendered.lines().count() > 1);
}

#[test]
fn hostname_renders_query_delay_when_available() {
    let resp = QueryResponse {
        meta: Default::default(),
        nodes: vec![NodeView {
            hostname: "node-a".to_string(),
            connection_id: String::new(),
            addr: String::new(),
            timestamp_ms: 0,
            driver_version: None,
            num: 0,
            stale: false,
            error: None,
            delay_us: Some(280),
            gres: vec![GresView {
                index: 0,
                name: "NVIDIA A100".to_string(),
                temperature_c: Some(32),
                util: 42,
                mem_used_mb: 1024,
                mem_total_mb: 8192,
                processes: None,
            }],
        }],
    };

    let rendered = render(&resp, None, &RenderOptions::default());
    assert!(rendered.lines().next().unwrap().contains("delay=280us"));
}

#[test]
fn empty_table_renders_stable_header_only() {
    let resp = QueryResponse {
        meta: Default::default(),
        nodes: Vec::new(),
    };

    let rendered = render(&resp, None, &RenderOptions::default());
    assert!(rendered.is_empty());
}

#[test]
fn process_summary_renders_inline_with_gres_row() {
    let resp = QueryResponse {
        meta: Default::default(),
        nodes: vec![NodeView {
            hostname: "node-a".to_string(),
            connection_id: String::new(),
            addr: String::new(),
            timestamp_ms: 0,
            driver_version: None,
            num: 0,
            stale: false,
            error: None,
            delay_us: None,
            gres: vec![GresView {
                index: 0,
                name: "NVIDIA A100".to_string(),
                temperature_c: Some(32),
                util: 42,
                mem_used_mb: 1024,
                mem_total_mb: 8192,
                processes: Some(vec![ProcessView {
                    uid: 1000,
                    username: "alice".to_string(),
                    pid: 7,
                    command: Some("python".to_string()),
                    used_memory_mb: 512,
                }]),
            }],
        }],
    };

    let rendered = render(&resp, None, &RenderOptions::default());
    assert!(rendered.contains("node-a"));
    assert!(rendered.contains("alice(512M)"));
    assert!(!rendered.contains("pid=7"));
}

#[test]
fn user_filter_hides_gres_with_non_matching_processes() {
    let resp = QueryResponse {
        meta: Default::default(),
        nodes: vec![NodeView {
            hostname: "node-a".to_string(),
            connection_id: String::new(),
            addr: String::new(),
            timestamp_ms: 0,
            driver_version: None,
            num: 0,
            stale: false,
            error: None,
            delay_us: None,
            gres: vec![GresView {
                index: 0,
                name: "NVIDIA A100".to_string(),
                temperature_c: Some(32),
                util: 42,
                mem_used_mb: 1,
                mem_total_mb: 2,
                processes: Some(vec![ProcessView {
                    uid: 1001,
                    username: "bob".to_string(),
                    pid: 7,
                    command: None,
                    used_memory_mb: 0,
                }]),
            }],
        }],
    };

    let rendered = render(&resp, Some("alice"), &RenderOptions::default());
    assert!(!rendered.contains("node-a"));
}

#[test]
fn user_filter_keeps_and_trims_matching_processes() {
    let resp = QueryResponse {
        meta: Default::default(),
        nodes: vec![NodeView {
            connection_id: String::new(),
            hostname: "sample-node".to_string(),
            addr: String::new(),
            timestamp_ms: 0,
            driver_version: None,
            num: 0,
            stale: false,
            error: None,
            delay_us: None,
            gres: vec![GresView {
                index: 0,
                name: "NVIDIA A100".to_string(),
                temperature_c: Some(32),
                util: 66,
                mem_used_mb: 1024,
                mem_total_mb: 81920,
                processes: Some(vec![
                    ProcessView {
                        uid: 1000,
                        username: "alice".to_string(),
                        pid: 7,
                        command: Some("python".to_string()),
                        used_memory_mb: 512,
                    },
                    ProcessView {
                        uid: 1001,
                        username: "bob".to_string(),
                        pid: 8,
                        command: Some("train".to_string()),
                        used_memory_mb: 256,
                    },
                ]),
            }],
        }],
    };

    let rendered = render(&resp, Some("alice"), &RenderOptions::default());
    assert!(rendered.contains("sample-node"));
    assert!(rendered.contains("66 %"));
    assert!(rendered.contains("alice(512M)"));
    assert!(!rendered.contains("bob(256M)"));
}

fn one_node() -> QueryResponse {
    QueryResponse {
        meta: Default::default(),
        nodes: vec![NodeView {
            hostname: "node-a".to_string(),
            connection_id: String::new(),
            addr: String::new(),
            timestamp_ms: 5,
            driver_version: Some("550.1".to_string()),
            num: 1,
            stale: true,
            error: Some("late".to_string()),
            delay_us: Some(1_500),
            gres: vec![GresView {
                index: 0,
                name: "NVIDIA A100".to_string(),
                temperature_c: Some(50),
                util: 30,
                mem_used_mb: 1024,
                mem_total_mb: 8192,
                processes: Some(vec![ProcessView {
                    uid: 0,
                    username: "?".to_string(),
                    pid: 7,
                    command: Some(" python ".to_string()),
                    used_memory_mb: 512,
                }]),
            }],
        }],
    }
}

#[test]
fn plain_table_is_laid_out_in_columns() {
    let rendered = render(&one_node(), None, &RenderOptions::default());
    assert_eq!(
        rendered,
        "node-a               at 5  550.1  delay=1.50ms stale  late\n\
         [0] NVIDIA A100      | 50°C,  30 % |  1024 /  8192 MB | root(512M)\n"
    );
}

#[test]
fn colored_row_is_painted_by_its_values() {
    let opts = RenderOptions {
        color: true,
        show_header: false,
        show_cmd: true,
        show_user: true,
        show_pid: true,
        gresname_width: Some(4),
        ..RenderOptions::default()
    };
    let rendered = render(&one_node(), None, &opts);
    assert_eq!(
        rendered,
        "\x1b[36m[0]\x1b[0;10m \x1b[34m…100\x1b[0;10m |\x1b[1;31m 50°C\x1b[0;10m, \
         \x1b[1;32m 30 %\x1b[0;10m | \x1b[1;33m 1024\x1b[0;10m / \x1b[33m 8192\x1b[0;10m MB | \
         \x1b[1;30mroot\x1b[0;10m:\x1b[36mpython\x1b[0;10m/7(\x1b[33m512M\x1b[0;10m)\n"
    );
}

#[test]
fn columns_can_be_left_out() {
    let mut resp = one_node();
    resp.nodes[0].gres[0].temperature_c = None;
    let opts = RenderOptions {
        no_processes: true,
        gresname_width: Some(0),
        latency_display: false,
        ..RenderOptions::default()
    };
    let rendered = render(&resp, None, &opts);
    assert!(!rendered.contains("delay="));
    assert!(rendered.ends_with("[0]  ??°C,  30 % |  1024 /  8192 MB\n"));
}

#[test]
fn stale_node_without_rows_keeps_its_header() {
    let mut resp = one_node();
    let rendered = render(&resp, Some("bob"), &RenderOptions::default());
    assert_eq!(rendered.lines().count(), 1);
    resp.nodes[0].stale = false;
    assert_eq!(render(&resp, Some("bob"), &RenderOptions::default()), "");
}

#[test]
fn names_fit_their_column() {
    assert_eq!(shorten_left("abcdef", 0), "");
    assert_eq!(shorten_left("abcdef", 1), "…");
    assert_eq!(shorten_left("abcdef", 3), "…ef");
    assert_eq!(shorten_left("abcdef", 6), "abcdef");
}

#[test]
fn delays_are_given_in_their_unit() {
    assert_eq!(format_delay(None, ""), None);
    assert_eq!(format_delay(Some(999), "1.00"), Some("999us".to_string()));
    assert_eq!(format_delay(Some(1_000), "1.00"), Some("1.00ms".to_string()));
}

#[test]
fn owners_are_named() {
    let names = lookups(&one_node()).names;
    let process = |uid: u32, username: &str| ProcessView {
        uid,
        username: username.to_string(),
        pid: 1,
        command: None,
        used_memory_mb: 0,
    };
    assert_eq!(display_username(&process(5, " bob "), &names), "bob");
    assert_eq!(display_username(&process(0, ""), &names), "root");
    assert_eq!(display_username(&process(1000, "?"), &names), "alice");
    assert_eq!(display_username(&process(7, ""), &names), "7");
    assert_eq!(display_username(&process(u32::MAX, ""), &names), "?");
}

#[test]
fn options_decide_on_colors_and_delays() {
    let opts = CliOptions::default();
    assert!(RenderOptions::from_cli(&opts, true, None).color);
    assert!(!RenderOptions::from_cli(&opts, false, None).color);
    assert!(RenderOptions::from_cli(&opts, false, None).latency_display);
    assert!(!RenderOptions::from_cli(&opts, false, Some(false)).latency_display);
    let opts = CliOptions { no_color: true, ..CliOptions::default() };
    assert!(!RenderOptions::from_cli(&opts, true, None).color);
    let opts = CliOptions { force_color: true, ..CliOptions::default() };
    assert!(RenderOptions::from_cli(&opts, false, None).color);
    let mut renderer = IncrementalRenderer::default();
    let resp = one_node();
    assert_eq!(
        renderer.render_full(&resp, None, &RenderOptions::default(), &lookups(&resp)),
        render(&resp, None, &RenderOptions::default())
    );
}

#[test]
fn latency_display_reads_config_default() {
    let opts = CliOptions::default();
    assert!(latency_display_from_options(&opts, None));
}

#[test]
fn backend_socket_defaults_to_run_path() {
    assert_eq!(
        backend_socket_from_options(&CliOptions::default(), None, None),
        DEFAULT_BACKEND_SOCKET
    );
}

#[test]
fn backend_socket_is_chosen_in_order() {
    let opts = CliOptions {
        backend_socket: Some(" /a ".to_string()),
        ..CliOptions::default()
    };
    let env = Some("/b".to_string());
    let configured = Some("/c".to_string());
    assert_eq!(backend_socket_from_options(&opts, env.clone(), configured.clone()), "/a");
    let opts = CliOptions::default();
    assert_eq!(backend_socket_from_options(&opts, env, configured.clone()), "/b");
    assert_eq!(backend_socket_from_options(&opts, Some(" ".to_string()), configured), "/c");
}

#[test]
fn query_command_includes_filters() {
    let opts = CliOptions {
        node_filter: Some("node-a".to_string()),
        user_filter: Some("alice".to_string()),
        ..CliOptions::default()
    };
    let cmd = build_query_command(&opts);
    assert!(cmd.starts_with("QUERY "));
    assert!(cmd.contains("\"filter\":\"node-a\""));
    assert!(cmd.contains("\"user\":\"alice\""));
}

#[test]
fn query_command_escapes_and_leaves_out() {
    let opts = CliOptions {
        node_filter: Some("a\"b".to_string()),
        ..CliOptions::default()
    };
    assert_eq!(build_query_command(&opts), "QUERY {\"filter\":\"a\\\"b\",\"user\":null}\n");
    let opts = CliOptions {
        node_filter: Some("\u{8}\t\n\u{c}\r\u{0}\u{1f}\\/\u{7f}é".to_string()),
        ..CliOptions::default()
    };
    assert_eq!(
        build_query_command(&opts),
        "QUERY {\"filter\":\"\\b\\t\\n\\f\\r\\u0000\\u001f\\\\/\u{7f}é\",\"user\":null}\n"
    );
}

#[test]
fn responses_that_are_no_json_are_refused() {
    let parse = |_: &str| -> Result<QueryResponse, String> { Err("eof".to_string()) };
    assert_eq!(
        decode_response("", &parse),
        Err("invalid backend response: eof".to_string())
    );
    assert_eq!(QueryMeta::default().status, "unknown");
}

fn json_of(resp: &QueryResponse) -> Result<String, String> {
    Ok(format!("{{\"nodes\":{}}}", resp.nodes.len()))
}

#[test]
fn json_output_ends_its_line() {
    assert_eq!(render_json(&one_node(), &json_of), Ok("{\"nodes\":1}\n".to_string()));
    let fails = |_: &QueryResponse| -> Result<String, String> { Err("deep".to_string()) };
    assert_eq!(
        render_json(&one_node(), &fails),
        Err("encode JSON output failed: deep".to_string())
    );
}

fn watched_node() -> QueryResponse {
    QueryResponse {
        meta: Default::default(),
        nodes: vec![NodeView {
            hostname: "node-a".to_string(),
            connection_id: String::new(),
            addr: String::new(),
            timestamp_ms: 0,
            driver_version: None,
            num: 0,
            stale: false,
            error: None,
            delay_us: None,
            gres: vec![GresView {
                index: 0,
                name: "NVIDIA A100".to_string(),
                temperature_c: Some(32),
                util: 42,
                mem_used_mb: 1024,
                mem_total_mb: 8192,
                processes: None,
            }],
        }],
    }
}

#[test]
fn watch_loop_can_exit_after_two_refresh_rounds() {
    let opts = CliOptions {
        watch: true,
        refresh_interval_ns: 1_000_000_000,
        ..CliOptions::default()
    };
    let fetch_count = Cell::new(0);
    let sleep_count = Cell::new(0);
    let write_count = Cell::new(0);
    let written = RefCell::new(String::new());

    let rounds = run_refresh_loop(
        &opts,
        &RenderOptions::from_cli(&opts, false, None),
        &|round| {
            assert_eq!(round, fetch_count.get());
            fetch_count.set(fetch_count.get() + 1);
            Ok(watched_node())
        },
        Some(2),
        &|round, ns| {
            assert_eq!((round, ns), (sleep_count.get(), 1_000_000_000));
            sleep_count.set(sleep_count.get() + 1)
        },
        &|round, text: &str| {
            assert_eq!(round, write_count.get());
            write_count.set(write_count.get() + 1);
            written.borrow_mut().push_str(text);
            Ok(true)
        },
        &lookups,
        &json_of,
    )
    .expect("watch loop");

    assert_eq!(rounds, 2);
    assert_eq!(fetch_count.get(), 2);
    assert_eq!(sleep_count.get(), 1);
    assert_eq!(written.borrow().matches("\x1b[2J\x1b[H").count(), 2);
}

#[test]
fn json_mode_refresh_loop_can_render_once() {
    let opts = CliOptions {
        json: true,
        ..CliOptions::default()
    };

    let rounds = run_refresh_loop(
        &opts,
        &RenderOptions::from_cli(&opts, false, None),
        &|_| Ok(watched_node()),
        None,
        &|_, _| {},
        &|_, _: &str| Ok(true),
        &lookups,
        &json_of,
    )
    .expect("json loop");

    assert_eq!(rounds, 1);
}

#[test]
fn loop_ends_when_nobody_reads_or_something_fails() {
    let opts = CliOptions { watch: true, ..CliOptions::default() };
    let render_opts = RenderOptions::default();
    let fetch = |_: usize| -> Result<QueryResponse, String> { Ok(watched_node()) };
    let broken = |_: usize, _: &str| -> Result<bool, String> { Ok(false) };
    let rounds =
        run_refresh_loop(&opts, &render_opts, &fetch, None, &|_, _| {}, &broken, &lookups, &json_of);
    assert_eq!(rounds, Ok(0));
    let full = |_: usize, _: &str| -> Result<bool, String> { Err("full".to_string()) };
    let rounds =
        run_refresh_loop(&opts, &render_opts, &fetch, None, &|_, _| {}, &full, &lookups, &json_of);
    assert_eq!(rounds, Err("full".to_string()));
    let down = |_: usize| -> Result<QueryResponse, String> { Err("down".to_string()) };
    let rounds =
        run_refresh_loop(&opts, &render_opts, &down, None, &|_, _| {}, &full, &lookups, &json_of);
    assert_eq!(rounds, Err("down".to_string()));
}

#[test]
fn step_after_a_round_follows_its_outcome() {
    let watch = CliOptions { watch: true, refresh_interval_ns: 7, ..CliOptions::default() };
    let once = CliOptions::default();
    let full = || -> Result<bool, String> { Err("full".to_string()) };
    assert_eq!(after_write(&watch, Some(2), 0, Ok(true)), (1, LoopStep::Sleep(7)));
    assert_eq!(after_write(&watch, Some(2), 1, Ok(true)), (2, LoopStep::Done(2)));
    assert_eq!(after_write(&watch, Some(0), 0, Ok(true)), (1, LoopStep::Done(1)));
    assert_eq!(after_write(&watch, None, 41, Ok(true)), (42, LoopStep::Sleep(7)));
    assert_eq!(after_write(&watch, None, 41, Ok(false)), (41, LoopStep::Done(41)));
    assert_eq!(after_write(&once, None, 0, Ok(true)), (1, LoopStep::Done(1)));
    assert_eq!(
        after_write(&watch, None, 3, full()),
        (3, LoopStep::Failed("full".to_string()))
    );
}

#[test]
fn text_of_a_round_is_what_is_rendered() {
    let opts = CliOptions { watch: true, ..CliOptions::default() };
    let render_opts = RenderOptions::default();
    let resp = watched_node();
    let mut renderer = IncrementalRenderer::default();
    let text = round_text(&opts, &render_opts, &mut renderer, &resp, &lookups, &json_of);
    let table = render_table(&resp, None, &render_opts, &lookups(&resp));
    assert_eq!(text, Ok(format!("\x1b[2J\x1b[H{table}")));

    let json = CliOptions { json: true, ..CliOptions::default() };
    let text = round_text(&json, &render_opts, &mut renderer, &resp, &lookups, &json_of);
    assert_eq!(text, render_json(&resp, &json_of));
    let broken = |_: &QueryResponse| -> Result<String, String> { Err("no".to_string()) };
    let text = round_text(&json, &render_opts, &mut renderer, &resp, &lookups, &broken);
    assert_eq!(text, render_json(&resp, &broken));
    assert!(text.is_err());
}

#[test]
fn every_round_shows_its_own_answer() {
    let opts = CliOptions { watch: true, refresh_interval_ns: 5, ..CliOptions::default() };
    let calls = RefCell::new(Vec::new());
    let rounds = run_refresh_loop(
        &opts,
        &RenderOptions::from_cli(&opts, false, None),
        &|round| {
            calls.borrow_mut().push(format!("fetch {round}"));
            let mut resp = watched_node();
            resp.nodes[0].hostname = format!("node-{round}");
            Ok(resp)
        },
        Some(3),
        &|round, ns| calls.borrow_mut().push(format!("sleep {round} {ns}")),
        &|round, text: &str| {
            assert!(text.contains(&format!("node-{round}")));
            calls.borrow_mut().push(format!("write {round}"));
            Ok(true)
        },
        &lookups,
        &json_of,
    );
    assert_eq!(rounds, Ok(3));
    let expected = [
        "fetch 0", "write 0", "sleep 0 5", "fetch 1", "write 1", "sleep 1 5", "fetch 2", "write 2",
    ];
    assert_eq!(*calls.borrow(), expected);
}
