//! Command line options.

use vstd::prelude::*;
use crate::text::{
    begins, lowered, parse_unsigned, same, starts_with, to_lower, trim, trimmed, unsigned_value,
};

verus! {

/// What a text is as a number of seconds.
#[derive(Debug, Clone, Copy, PartialEq, Eq, Structural)]
pub enum Seconds {
    NotANumber,
    /// Zero, a negative number, an infinity, or no number at all.
    NotPositive,
    /// A positive number of seconds, in nanoseconds.
    Nanos(u128),
}

/// The options of the command line.
#[derive(Debug, Clone, PartialEq, Eq)]
pub struct CliOptions {
    pub node_filter: Option<String>,
    pub user_filter: Option<String>,
    pub watch: bool,
    pub refresh_interval_ns: u128,
    pub json: bool,
    pub force_color: bool,
    pub no_color: bool,
    pub show_header: bool,
    pub no_processes: bool,
    pub show_cmd: bool,
    pub show_user: bool,
    pub show_pid: bool,
    pub gresname_width: Option<usize>,
    pub latency_display: Option<bool>,
    pub backend_socket: Option<String>,
}

/// The refresh interval without an option: two seconds.
pub const DEFAULT_INTERVAL_NS: u128 = 2_000_000_000;

/// The shortest refresh interval: 50 milliseconds.
pub const MIN_INTERVAL_NS: u128 = 50_000_000;

/// The options that stand where none is given.
pub open spec fn default_options() -> CliOptions {
    CliOptions {
        node_filter: None,
        user_filter: None,
        watch: false,
        refresh_interval_ns: DEFAULT_INTERVAL_NS,
        json: false,
        force_color: false,
        no_color: false,
        show_header: true,
        no_processes: false,
        show_cmd: false,
        show_user: false,
        show_pid: false,
        gresname_width: None,
        latency_display: None,
        backend_socket: None,
    }
}

impl Default for CliOptions {
    fn default() -> (r: CliOptions)
        ensures
            r == default_options(),
    {
        CliOptions {
            node_filter: None,
            user_filter: None,
            watch: false,
            refresh_interval_ns: DEFAULT_INTERVAL_NS,
            json: false,
            force_color: false,
            no_color: false,
            show_header: true,
            no_processes: false,
            show_cmd: false,
            show_user: false,
            show_pid: false,
            gresname_width: None,
            latency_display: None,
            backend_socket: None,
        }
    }
}

/// What an argument asks for.
pub enum Flag {
    Help,
    Version,
    Node,
    User,
    Watch,
    Json,
    ForceColor,
    NoColor,
    NoHeader,
    NoProcesses,
    ShowCmd,
    ShowUser,
    ShowPid,
    ShowAll,
    LatencyDisplay,
    NoLatency,
    NameWidth,
    BackendSocket,
    Unknown,
}

/// The meaning of an argument.
pub open spec fn flag_of(s: Seq<char>) -> Flag {
    if s == "-h"@ || s == "--help"@ {
        Flag::Help
    } else if s == "-v"@ || s == "--version"@ {
        Flag::Version
    } else if s == "-n"@ {
        Flag::Node
    } else if s == "-user"@ {
        Flag::User
    } else if s == "--watch"@ || s == "-w"@ {
        Flag::Watch
    } else if s == "--interval"@ || s == "--refresh"@ || s == "--refresh-interval"@ || s == "-i"@ {
        Flag::Watch
    } else if s == "--json"@ {
        Flag::Json
    } else if s == "--force-color"@ || s == "--color"@ {
        Flag::ForceColor
    } else if s == "--no-color"@ {
        Flag::NoColor
    } else if s == "--no-header"@ {
        Flag::NoHeader
    } else if s == "--no-processes"@ {
        Flag::NoProcesses
    } else if s == "-c"@ || s == "--show-cmd"@ {
        Flag::ShowCmd
    } else if s == "-u"@ || s == "--show-user"@ {
        Flag::ShowUser
    } else if s == "-p"@ || s == "--show-pid"@ {
        Flag::ShowPid
    } else if s == "-a"@ || s == "--show-all"@ {
        Flag::ShowAll
    } else if s == "--latency-display"@ {
        Flag::LatencyDisplay
    } else if s == "--no-latency"@ || s == "--hide-latency"@ {
        Flag::NoLatency
    } else if s == "--gpuname-width"@ {
        Flag::NameWidth
    } else if s == "--backend-socket"@ || s == "--backend-uds"@ {
        Flag::BackendSocket
    } else {
        Flag::Unknown
    }
}

fn read_flag(s: &str) -> (r: Flag)
    ensures
        r == flag_of(s@),
{
    if same(s, "-h") || same(s, "--help") {
        Flag::Help
    } else if same(s, "-v") || same(s, "--version") {
        Flag::Version
    } else if same(s, "-n") {
        Flag::Node
    } else if same(s, "-user") {
        Flag::User
    } else if same(s, "--watch") || same(s, "-w") {
        Flag::Watch
    } else if same(s, "--interval") || same(s, "--refresh") || same(s, "--refresh-interval")
        || same(s, "-i") {
        Flag::Watch
    } else if same(s, "--json") {
        Flag::Json
    } else if same(s, "--force-color") || same(s, "--color") {
        Flag::ForceColor
    } else if same(s, "--no-color") {
        Flag::NoColor
    } else if same(s, "--no-header") {
        Flag::NoHeader
    } else if same(s, "--no-processes") {
        Flag::NoProcesses
    } else if same(s, "-c") || same(s, "--show-cmd") {
        Flag::ShowCmd
    } else if same(s, "-u") || same(s, "--show-user") {
        Flag::ShowUser
    } else if same(s, "-p") || same(s, "--show-pid") {
        Flag::ShowPid
    } else if same(s, "-a") || same(s, "--show-all") {
        Flag::ShowAll
    } else if same(s, "--latency-display") {
        Flag::LatencyDisplay
    } else if same(s, "--no-latency") || same(s, "--hide-latency") {
        Flag::NoLatency
    } else if same(s, "--gpuname-width") {
        Flag::NameWidth
    } else if same(s, "--backend-socket") || same(s, "--backend-uds") {
        Flag::BackendSocket
    } else {
        Flag::Unknown
    }
}

/// A refresh interval: at least the shortest one, or why there is none.
pub open spec fn interval_of(raw: Seq<char>, seconds: Seconds) -> Result<u128, Seq<char>> {
    match seconds {
        Seconds::NotANumber => Err("refresh interval must be seconds, got '"@ + raw + "'"@),
        Seconds::NotPositive => Err("refresh interval must be greater than 0"@),
        Seconds::Nanos(n) => Ok(
            if n < MIN_INTERVAL_NS {
                MIN_INTERVAL_NS
            } else {
                n
            },
        ),
    }
}

fn parse_interval(raw: &str, seconds: Seconds) -> (r: Result<u128, String>)
    ensures
        match r {
            Ok(n) => interval_of(raw@, seconds) == Ok::<u128, Seq<char>>(n),
            Err(e) => interval_of(raw@, seconds) == Err::<u128, Seq<char>>(e@),
        },
{
    match seconds {
        Seconds::NotANumber => {
            let mut out = "refresh interval must be seconds, got '".to_owned();
            out.append(raw);
            out.append("'");
            Err(out)
        },
        Seconds::NotPositive => Err("refresh interval must be greater than 0".to_owned()),
        Seconds::Nanos(n) => Ok(
            if n < MIN_INTERVAL_NS {
                MIN_INTERVAL_NS
            } else {
                n
            },
        ),
    }
}

/// The truth value that a text writes.
pub open spec fn bool_of(raw: Seq<char>) -> Result<bool, Seq<char>> {
    let s = lowered(trimmed(raw));
    if s == "1"@ || s == "true"@ || s == "yes"@ || s == "on"@ {
        Ok(true)
    } else if s == "0"@ || s == "false"@ || s == "no"@ || s == "off"@ {
        Ok(false)
    } else {
        Err("boolean value expected, got '"@ + raw + "'"@)
    }
}

fn parse_bool(raw: &str) -> (r: Result<bool, String>)
    ensures
        match r {
            Ok(b) => bool_of(raw@) == Ok::<bool, Seq<char>>(b),
            Err(e) => bool_of(raw@) == Err::<bool, Seq<char>>(e@),
        },
{
    let lower = to_lower(trim(raw).as_str());
    let s = lower.as_str();
    if same(s, "1") || same(s, "true") || same(s, "yes") || same(s, "on") {
        Ok(true)
    } else if same(s, "0") || same(s, "false") || same(s, "no") || same(s, "off") {
        Ok(false)
    } else {
        let mut out = "boolean value expected, got '".to_owned();
        out.append(raw);
        out.append("'");
        Err(out)
    }
}

/// The width that a text writes.
pub open spec fn width_of(raw: Seq<char>) -> Result<usize, Seq<char>> {
    match unsigned_value(raw, usize::MAX as nat) {
        Some(n) => Ok(n as usize),
        None => Err("--gpuname-width must be a non-negative integer, got '"@ + raw + "'"@),
    }
}

fn parse_width(raw: &str) -> (r: Result<usize, String>)
    ensures
        match r {
            Ok(n) => width_of(raw@) == Ok::<usize, Seq<char>>(n),
            Err(e) => width_of(raw@) == Err::<usize, Seq<char>>(e@),
        },
{
    match parse_unsigned(raw, usize::MAX as u64) {
        Some(n) => Ok(n as usize),
        None => {
            let mut out = "--gpuname-width must be a non-negative integer, got '".to_owned();
            out.append(raw);
            out.append("'");
            Err(out)
        },
    }
}

/// The message for an option that lacks its value.
pub open spec fn missing_value(flag: Seq<char>) -> Seq<char> {
    flag + " requires a value"@
}

fn missing(flag: &str) -> (r: String)
    ensures
        r@ == missing_value(flag@),
{
    let mut out = flag.to_owned();
    out.append(" requires a value");
    out
}

/// The options after the argument at `i`, and where the next one stands; or
/// the message that ends the program.
pub open spec fn after_argument(
    args: Seq<String>,
    seconds: Seq<Seconds>,
    i: int,
    opts: CliOptions,
) -> Result<(CliOptions, int), Seq<char>> {
    let value = i + 1 < args.len();
    match flag_of(args[i]@) {
        Flag::Help => Err(usage()),
        Flag::Version => Err("clustat 1.0.0"@),
        Flag::Node => if value {
            Ok((CliOptions { node_filter: Some(args[i + 1]), ..opts }, i + 2))
        } else {
            Err(missing_value("-n"@))
        },
        Flag::User => if value {
            Ok((CliOptions { user_filter: Some(args[i + 1]), ..opts }, i + 2))
        } else {
            Err(missing_value("-user"@))
        },
        Flag::Watch => if value && !begins(args[i + 1]@, "-"@) {
            match interval_of(args[i + 1]@, seconds[i + 1]) {
                Ok(n) => Ok((CliOptions { watch: true, refresh_interval_ns: n, ..opts }, i + 2)),
                Err(e) => Err(e),
            }
        } else {
            Ok((CliOptions { watch: true, ..opts }, i + 1))
        },
        Flag::Json => Ok((CliOptions { json: true, ..opts }, i + 1)),
        Flag::ForceColor => Ok((CliOptions { force_color: true, ..opts }, i + 1)),
        Flag::NoColor => Ok((CliOptions { no_color: true, ..opts }, i + 1)),
        Flag::NoHeader => Ok((CliOptions { show_header: false, ..opts }, i + 1)),
        Flag::NoProcesses => Ok((CliOptions { no_processes: true, ..opts }, i + 1)),
        Flag::ShowCmd => Ok((CliOptions { show_cmd: true, ..opts }, i + 1)),
        Flag::ShowUser => Ok((CliOptions { show_user: true, ..opts }, i + 1)),
        Flag::ShowPid => Ok((CliOptions { show_pid: true, ..opts }, i + 1)),
        Flag::ShowAll => Ok(
            (CliOptions { show_cmd: true, show_user: true, show_pid: true, ..opts }, i + 1),
        ),
        Flag::LatencyDisplay => if value {
            match bool_of(args[i + 1]@) {
                Ok(b) => Ok((CliOptions { latency_display: Some(b), ..opts }, i + 2)),
                Err(e) => Err(e),
            }
        } else {
            Err(missing_value("--latency-display"@))
        },
        Flag::NoLatency => Ok((CliOptions { latency_display: Some(false), ..opts }, i + 1)),
        Flag::NameWidth => if value {
            match width_of(args[i + 1]@) {
                Ok(n) => Ok((CliOptions { gresname_width: Some(n), ..opts }, i + 2)),
                Err(e) => Err(e),
            }
        } else {
            Err(missing_value("--gpuname-width"@))
        },
        Flag::BackendSocket => if value {
            Ok((CliOptions { backend_socket: Some(args[i + 1]), ..opts }, i + 2))
        } else {
            Err(missing_value(args[i]@))
        },
        Flag::Unknown => Err("unsupported arg: "@ + args[i]@),
    }
}

/// The options after the arguments from `i` on.
pub open spec fn after_arguments(
    args: Seq<String>,
    seconds: Seq<Seconds>,
    i: int,
    opts: CliOptions,
) -> Result<CliOptions, Seq<char>>
    decreases args.len() - i,
{
    if i >= args.len() {
        Ok(opts)
    } else {
        match after_argument(args, seconds, i, opts) {
            Err(e) => Err(e),
            Ok((next, j)) => if j > i {
                after_arguments(args, seconds, j, next)
            } else {
                Ok(next)
            },
        }
    }
}

/// The options of a command line, or the message that ends the program.
pub open spec fn spec_parse_args(args: Seq<String>, seconds: Seq<Seconds>) -> Result<
    CliOptions,
    Seq<char>,
> {
    match after_arguments(args, seconds, 0, default_options()) {
        Err(e) => Err(e),
        Ok(opts) => if opts.force_color && opts.no_color {
            Err("--color and --no-color can't be used at the same time"@)
        } else if opts.watch && opts.json {
            Err("--json and --interval/-i can't be used together"@)
        } else {
            Ok(opts)
        },
    }
}

/// Reads the command line. `seconds` says of each argument what it is as a
/// number of seconds. An error is the text to show, the help and the version
/// among them.
#[verifier::rlimit(60)]
pub fn parse_args(args: Vec<String>, seconds: Vec<Seconds>) -> (r: Result<CliOptions, String>)
    requires
        args@.len() == seconds@.len(),
    ensures
        match r {
            Ok(opts) => spec_parse_args(args@, seconds@) == Ok::<CliOptions, Seq<char>>(opts),
            Err(e) => spec_parse_args(args@, seconds@) == Err::<CliOptions, Seq<char>>(e@),
        },
{
    let mut opts = CliOptions::default();
    let n: usize = args.len();
    let mut i: usize = 0;
    while i < n
        invariant
            i <= n == args@.len() == seconds@.len(),
            after_arguments(args@, seconds@, 0, default_options()) == after_arguments(
                args@,
                seconds@,
                i as int,
                opts,
            ),
        decreases n - i,
    {
        let value: bool = n - i > 1;
        let ghost before = opts;
        let mut step: usize = 1;
        match read_flag(args[i].as_str()) {
            Flag::Help => {
                return Err(help_text().to_owned());
            },
            Flag::Version => {
                return Err("clustat 1.0.0".to_owned());
            },
            Flag::Node => {
                if !value {
                    return Err(missing("-n"));
                }
                opts.node_filter = Some(args[i + 1].clone());
                step = 2;
            },
            Flag::User => {
                if !value {
                    return Err(missing("-user"));
                }
                opts.user_filter = Some(args[i + 1].clone());
                step = 2;
            },
            Flag::Watch => {
                opts.watch = true;
                if value && !starts_with(args[i + 1].as_str(), "-") {
                    match parse_interval(args[i + 1].as_str(), seconds[i + 1]) {
                        Ok(ns) => {
                            opts.refresh_interval_ns = ns;
                        },
                        Err(e) => {
                            return Err(e);
                        },
                    }
                    step = 2;
                }
            },
            Flag::Json => {
                opts.json = true;
            },
            Flag::ForceColor => {
                opts.force_color = true;
            },
            Flag::NoColor => {
                opts.no_color = true;
            },
            Flag::NoHeader => {
                opts.show_header = false;
            },
            Flag::NoProcesses => {
                opts.no_processes = true;
            },
            Flag::ShowCmd => {
                opts.show_cmd = true;
            },
            Flag::ShowUser => {
                opts.show_user = true;
            },
            Flag::ShowPid => {
                opts.show_pid = true;
            },
            Flag::ShowAll => {
                opts.show_cmd = true;
                opts.show_user = true;
                opts.show_pid = true;
            },
            Flag::LatencyDisplay => {
                if !value {
                    return Err(missing("--latency-display"));
                }
                match parse_bool(args[i + 1].as_str()) {
                    Ok(b) => {
                        opts.latency_display = Some(b);
                    },
                    Err(e) => {
                        return Err(e);
                    },
                }
                step = 2;
            },
            Flag::NoLatency => {
                opts.latency_display = Some(false);
            },
            Flag::NameWidth => {
                if !value {
                    return Err(missing("--gpuname-width"));
                }
                match parse_width(args[i + 1].as_str()) {
                    Ok(w) => {
                        opts.gresname_width = Some(w);
                    },
                    Err(e) => {
                        return Err(e);
                    },
                }
                step = 2;
            },
            Flag::BackendSocket => {
                if !value {
                    return Err(missing(args[i].as_str()));
                }
                opts.backend_socket = Some(args[i + 1].clone());
                step = 2;
            },
            Flag::Unknown => {
                let mut out = "unsupported arg: ".to_owned();
                out.append(args[i].as_str());
                return Err(out);
            },
        }
        assert(after_argument(args@, seconds@, i as int, before) == Ok::<
            (CliOptions, int),
            Seq<char>,
        >((opts, i + step)));
        i = i + step;
    }
    if opts.force_color && opts.no_color {
        return Err("--color and --no-color can't be used at the same time".to_owned());
    }
    if opts.watch && opts.json {
        return Err("--json and --interval/-i can't be used together".to_owned());
    }
    Ok(opts)
}

/// The help.
pub open spec fn usage() -> Seq<char> {
    "Usage: clustat [OPTIONS]\n\nOptions:\n  -n <FILTER>                 Filter cluster nodes by hostname/ip/connection id\n  -user <USER>                Filter rendered processes/GPU rows by user\n  --backend-socket <PATH>     Connect to client-backend UDS path\n  --json                      Print cluster data as JSON\n  -i, --interval [SEC]        Watch mode; optional refresh interval in seconds\n  -w, --watch [SEC]           Alias for --interval\n  --color, --force-color      Force ANSI colored output\n  --no-color                  Suppress ANSI colored output\n  --no-header                 Suppress node header lines\n  --gpuname-width <N>         GPU name display width; 0 hides GPU names\n  --no-processes              Hide process summaries\n  -c, --show-cmd              Display process command instead of user\n  -u, --show-user             Display process user with command\n  -p, --show-pid              Display process PID\n  -a, --show-all              Show user, command and PID\n  -h, --help                  Show this help\n  -v, --version               Show version"@
}

/// The help.
pub fn help_text() -> (r: &'static str)
    ensures
        r@ == usage(),
{
    "Usage: clustat [OPTIONS]\n\nOptions:\n  -n <FILTER>                 Filter cluster nodes by hostname/ip/connection id\n  -user <USER>                Filter rendered processes/GPU rows by user\n  --backend-socket <PATH>     Connect to client-backend UDS path\n  --json                      Print cluster data as JSON\n  -i, --interval [SEC]        Watch mode; optional refresh interval in seconds\n  -w, --watch [SEC]           Alias for --interval\n  --color, --force-color      Force ANSI colored output\n  --no-color                  Suppress ANSI colored output\n  --no-header                 Suppress node header lines\n  --gpuname-width <N>         GPU name display width; 0 hides GPU names\n  --no-processes              Hide process summaries\n  -c, --show-cmd              Display process command instead of user\n  -u, --show-user             Display process user with command\n  -p, --show-pid              Display process PID\n  -a, --show-all              Show user, command and PID\n  -h, --help                  Show this help\n  -v, --version               Show version"
}

} // verus!
