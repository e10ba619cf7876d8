//! The backend as the command line sees it: where it is, what it is asked and
//! what it answers.

use vstd::prelude::*;
use crate::cli::args::CliOptions;
use crate::client::local_api::{given_path, path_given};
use crate::common::message::{json_string, json_string_of};
use crate::common::snapshot::opt_text;

verus! {

pub const BACKEND_SOCKET_ENV: &'static str = "GPUSTAT4CLUSTER_BACKEND_SOCKET";

pub const CONFIG_PATH_ENV: &'static str = "GPUSTAT4CLUSTER_CONFIG";

pub const DEFAULT_CONFIG_PATH: &'static str = "/etc/gpustat4cluster/client.toml";

pub const DEFAULT_BACKEND_SOCKET: &'static str = "/run/gpustat4cluster/client.sock";

/// The answer of the backend.
#[derive(Debug, PartialEq, Eq)]
pub struct QueryResponse {
    pub meta: QueryMeta,
    pub nodes: Vec<NodeView>,
}

/// What an answer says of itself.
#[derive(Debug, PartialEq, Eq)]
pub struct QueryMeta {
    pub status: String,
    pub timestamp_ms: i64,
    pub node_count: usize,
    pub errors: Vec<String>,
}

impl Default for QueryMeta {
    fn default() -> (r: QueryMeta)
        ensures
            r.status@ == "unknown"@,
            r.timestamp_ms == 0,
            r.node_count == 0,
            r.errors@.len() == 0,
    {
        QueryMeta {
            status: "unknown".to_owned(),
            timestamp_ms: 0,
            node_count: 0,
            errors: Vec::new(),
        }
    }
}

/// A node in an answer.
#[derive(Debug, PartialEq, Eq)]
pub struct NodeView {
    pub connection_id: String,
    pub hostname: String,
    pub addr: String,
    pub timestamp_ms: i64,
    pub driver_version: Option<String>,
    pub num: u8,
    pub stale: bool,
    pub error: Option<String>,
    pub delay_us: Option<u64>,
    pub gres: Vec<GresView>,
}

/// A resource in an answer.
#[derive(Debug, PartialEq, Eq)]
pub struct GresView {
    pub index: u8,
    pub name: String,
    pub temperature_c: Option<u32>,
    pub util: u8,
    pub mem_used_mb: u32,
    pub mem_total_mb: u32,
    /// The processes, where the backend gives any.
    pub processes: Option<Vec<ProcessView>>,
}

/// A process in an answer.
#[derive(Debug, PartialEq, Eq)]
pub struct ProcessView {
    pub uid: u32,
    pub username: String,
    pub pid: u32,
    pub command: Option<String>,
    pub used_memory_mb: u32,
}

/// Where the backend listens: the option, else the environment, else the
/// configuration, else the default. Blank paths do not count.
pub open spec fn backend_socket(
    option: Option<Seq<char>>,
    env: Option<Seq<char>>,
    configured: Option<Seq<char>>,
) -> Seq<char> {
    match given_path(option) {
        Some(path) => path,
        None => match given_path(env) {
            Some(path) => path,
            None => match given_path(configured) {
                Some(path) => path,
                None => DEFAULT_BACKEND_SOCKET@,
            },
        },
    }
}

/// Where the backend listens.
pub fn backend_socket_from_options(
    opts: &CliOptions,
    env: Option<String>,
    configured: Option<String>,
) -> (r: String)
    ensures
        r@ == backend_socket(
            opt_text(opts.backend_socket),
            opt_text(env),
            opt_text(configured),
        ),
{
    let option = match &opts.backend_socket {
        Some(s) => path_given(Some(s.as_str())),
        None => None,
    };
    if let Some(path) = option {
        return path;
    }
    let env = match &env {
        Some(s) => path_given(Some(s.as_str())),
        None => None,
    };
    if let Some(path) = env {
        return path;
    }
    let configured = match &configured {
        Some(s) => path_given(Some(s.as_str())),
        None => None,
    };
    match configured {
        Some(path) => path,
        None => DEFAULT_BACKEND_SOCKET.to_owned(),
    }
}

/// Whether delays are shown: as the option says, else as configured, else yes.
pub fn latency_display_from_options(opts: &CliOptions, configured: Option<bool>) -> (r: bool)
    ensures
        r == (match opts.latency_display {
            Some(shown) => shown,
            None => match configured {
                Some(shown) => shown,
                None => true,
            },
        }),
{
    match opts.latency_display {
        Some(shown) => shown,
        None => match configured {
            Some(shown) => shown,
            None => true,
        },
    }
}

/// A text as JSON, `null` for none.
pub open spec fn json_opt_text(s: Option<Seq<char>>) -> Seq<char> {
    match s {
        Some(text) => json_string(text),
        None => "null"@,
    }
}

fn push_opt_text(out: &mut String, s: &Option<String>)
    ensures
        final(out)@ == old(out)@ + json_opt_text(opt_text(*s)),
{
    match s {
        Some(text) => out.append(json_string_of(text.as_str()).as_str()),
        None => out.append("null"),
    }
}

/// The command that asks for the nodes and the processes that the options name.
pub fn build_query_command(opts: &CliOptions) -> (r: String)
    ensures
        r@ == "QUERY {\"filter\":"@ + json_opt_text(opt_text(opts.node_filter)) + ",\"user\":"@
            + json_opt_text(opt_text(opts.user_filter)) + "}\n"@,
{
    let mut out = "QUERY {\"filter\":".to_owned();
    push_opt_text(&mut out, &opts.node_filter);
    out.append(",\"user\":");
    push_opt_text(&mut out, &opts.user_filter);
    out.append("}\n");
    out
}

/// The answer in a line of the backend. `parse` reads it as JSON.
pub fn decode_response<P: Fn(&str) -> Result<QueryResponse, String>>(raw: &str, parse: &P) -> (r:
    Result<QueryResponse, String>)
    requires
        call_requires(*parse, (raw,)),
    ensures
        exists|p: Result<QueryResponse, String>| #[trigger]
            call_ensures(*parse, (raw,), p) && match p {
                Ok(response) => r == Ok::<QueryResponse, String>(response),
                Err(e) => r matches Err(text) && text@ == "invalid backend response: "@ + e@,
            },
{
    match parse(raw) {
        Ok(response) => Ok(response),
        Err(e) => {
            let mut out = "invalid backend response: ".to_owned();
            out.append(e.as_str());
            Err(out)
        },
    }
}

} // verus!
