//! Answers of the backend as text for a terminal.

use vstd::prelude::*;
use std::collections::HashMap;
use crate::cli::args::CliOptions;
use crate::cli::backend::{
    latency_display_from_options, GresView, NodeView, ProcessView, QueryResponse,
};
use crate::client::adapter::{user_name, username_for_uid};
use crate::common::snapshot::opt_text;
use crate::text::{
    chars_of, decimal, decimal_of, opt_str, padded_left, padded_right, push_decimal, push_left,
    push_right, same, slice_of, trim, trimmed,
};
use crate::textmap::TextMap;

verus! {

broadcast use vstd::std_specs::hash::group_hash_axioms;

/// The least width of the column of names.
pub const DEFAULT_GRESNAME_WIDTH: usize = 16;

/// How an answer is rendered.
#[derive(Debug, Clone, Copy, PartialEq, Eq)]
pub struct RenderOptions {
    pub color: bool,
    pub show_header: bool,
    pub no_processes: bool,
    pub show_cmd: bool,
    pub show_user: bool,
    pub show_pid: bool,
    pub gresname_width: Option<usize>,
    pub latency_display: bool,
}

impl RenderOptions {
    /// As the options of the command line say. Colors are used on a terminal,
    /// unless they are forced or forbidden.
    pub fn from_cli(opts: &CliOptions, terminal: bool, latency_configured: Option<bool>) -> (r:
        RenderOptions)
        ensures
            r == (RenderOptions {
                color: opts.force_color || (!opts.no_color && terminal),
                show_header: opts.show_header,
                no_processes: opts.no_processes,
                show_cmd: opts.show_cmd,
                show_user: opts.show_user,
                show_pid: opts.show_pid,
                gresname_width: opts.gresname_width,
                latency_display: match opts.latency_display {
                    Some(shown) => shown,
                    None => match latency_configured {
                        Some(shown) => shown,
                        None => true,
                    },
                },
            }),
    {
        RenderOptions {
            color: opts.force_color || (!opts.no_color && terminal),
            show_header: opts.show_header,
            no_processes: opts.no_processes,
            show_cmd: opts.show_cmd,
            show_user: opts.show_user,
            show_pid: opts.show_pid,
            gresname_width: opts.gresname_width,
            latency_display: latency_display_from_options(opts, latency_configured),
        }
    }
}

impl Default for RenderOptions {
    fn default() -> (r: RenderOptions)
        ensures
            r == (RenderOptions {
                color: false,
                show_header: true,
                no_processes: false,
                show_cmd: false,
                show_user: false,
                show_pid: false,
                gresname_width: None,
                latency_display: true,
            }),
    {
        RenderOptions {
            color: false,
            show_header: true,
            no_processes: false,
            show_cmd: false,
            show_user: false,
            show_pid: false,
            gresname_width: None,
            latency_display: true,
        }
    }
}

/// What only the machine can say of a node: its time in the local time zone, if
/// there is such a time, and its delay in milliseconds, with two decimals.
#[derive(Debug)]
pub struct NodeTexts {
    pub time: Option<String>,
    pub millis: String,
}

/// What only the machine can say of an answer: the names of users, and the
/// texts of the nodes, in their order.
#[derive(Debug)]
pub struct Lookups {
    pub names: HashMap<u32, String>,
    pub nodes: Vec<NodeTexts>,
}

// ---------------------------------------------------------------------------
// Colors

/// A text in the color with the given code.
pub open spec fn painted(on: bool, code: Seq<char>, text: Seq<char>) -> Seq<char> {
    if on {
        "\x1b["@ + code + "m"@ + text + "\x1b[0;10m"@
    } else {
        text
    }
}

fn paint(on: bool, code: &str, text: &str) -> (r: String)
    ensures
        r@ == painted(on, code@, text@),
{
    if on {
        let mut out = "\x1b[".to_owned();
        out.append(code);
        out.append("m");
        out.append(text);
        out.append("\x1b[0;10m");
        out
    } else {
        text.to_owned()
    }
}

fn no_text() -> (r: String)
    ensures
        r@ == Seq::<char>::empty(),
{
    let out = String::new();
    assert(out@ =~= Seq::<char>::empty());
    out
}

// ---------------------------------------------------------------------------
// Users

/// The name under which the owner of a process is shown.
pub open spec fn owner_name(p: ProcessView, names: Map<u32, String>) -> Seq<char> {
    let given = trimmed(p.username@);
    if given.len() > 0 && given != "?"@ {
        given
    } else if p.uid == 0 {
        "root"@
    } else {
        user_name(p.uid, names)
    }
}

/// The name under which the owner of a process is shown.
pub fn display_username(process: &ProcessView, names: &HashMap<u32, String>) -> (r: String)
    ensures
        r@ == owner_name(*process, names@),
{
    let given = trim(process.username.as_str());
    if !given.as_str().is_empty() && !same(given.as_str(), "?") {
        return given;
    }
    if process.uid == 0 {
        return "root".to_owned();
    }
    username_for_uid(process.uid, names)
}

/// The user that is asked for, if any.
pub open spec fn wanted_user(filter: Option<Seq<char>>) -> Option<Seq<char>> {
    match filter {
        Some(s) => if trimmed(s).len() == 0 {
            None
        } else {
            Some(trimmed(s))
        },
        None => None,
    }
}

/// The user that is asked for, if any.
pub fn normalized_user_filter(user_filter: Option<&str>) -> (r: Option<String>)
    ensures
        opt_text(r) == wanted_user(opt_str(user_filter)),
{
    match user_filter {
        Some(s) => {
            let t = trim(s);
            if t.as_str().is_empty() {
                None
            } else {
                Some(t)
            }
        },
        None => None,
    }
}

/// Whether a process is shown to who asks for a user.
pub open spec fn process_wanted(
    p: ProcessView,
    user: Option<Seq<char>>,
    names: Map<u32, String>,
) -> bool {
    user matches Some(u) ==> owner_name(p, names) == u
}

fn wants_process(process: &ProcessView, user: &Option<String>, names: &HashMap<u32, String>) -> (r:
    bool)
    ensures
        r == process_wanted(*process, opt_text(*user), names@),
{
    match user {
        Some(u) => same(display_username(process, names).as_str(), u.as_str()),
        None => true,
    }
}

/// Whether a resource is shown to who asks for a user: some process is theirs,
/// or nothing is known of its processes.
pub open spec fn gres_wanted(
    g: GresView,
    user: Option<Seq<char>>,
    names: Map<u32, String>,
) -> bool {
    user is None || (g.processes matches Some(v) ==> exists|i: int|
        0 <= i < v@.len() && process_wanted(#[trigger] v@[i], user, names))
}

/// Whether a resource is shown.
pub fn should_render_gres(gres: &GresView, user: &Option<String>, names: &HashMap<u32, String>) -> (r:
    bool)
    ensures
        r == gres_wanted(*gres, opt_text(*user), names@),
{
    if user.is_none() {
        return true;
    }
    let processes = match &gres.processes {
        Some(v) => v,
        None => {
            return true;
        },
    };
    let mut i: usize = 0;
    while i < processes.len()
        invariant
            i <= processes@.len(),
            gres.processes == Some(*processes),
            forall|j: int|
                0 <= j < i ==> !process_wanted(#[trigger] processes@[j], opt_text(*user), names@),
        decreases processes@.len() - i,
    {
        if wants_process(&processes[i], user, names) {
            assert(process_wanted(gres.processes->0@[i as int], opt_text(*user), names@));
            return true;
        }
        i = i + 1;
    }
    false
}

// ---------------------------------------------------------------------------
// Processes

/// The command of a process, or two dashes.
pub open spec fn command_shown(command: Option<Seq<char>>) -> Seq<char> {
    match command {
        Some(c) => if trimmed(c).len() == 0 {
            "--"@
        } else {
            trimmed(c)
        },
        None => "--"@,
    }
}

/// The owner of a process in a row, where owners are shown.
pub open spec fn process_user(
    p: ProcessView,
    opts: RenderOptions,
    names: Map<u32, String>,
) -> Seq<char> {
    if !opts.show_cmd || opts.show_user {
        painted(opts.color, "1;30"@, owner_name(p, names))
    } else {
        Seq::empty()
    }
}

/// A process in a row: owner, command and number as asked for, and its memory.
pub open spec fn process_text(
    p: ProcessView,
    opts: RenderOptions,
    names: Map<u32, String>,
) -> Seq<char> {
    let user = process_user(p, opts, names);
    let command = if opts.show_cmd {
        painted(opts.color, "36"@, command_shown(opt_text(p.command)))
    } else {
        Seq::empty()
    };
    user + (if opts.show_cmd && user.len() > 0 {
        ":"@
    } else {
        Seq::empty()
    }) + command + (if opts.show_pid {
        "/"@ + decimal(p.pid as nat)
    } else {
        Seq::empty()
    }) + "("@ + painted(opts.color, "33"@, decimal(p.used_memory_mb as nat) + "M"@) + ")"@
}

fn show_command(process: &ProcessView) -> (r: String)
    ensures
        r@ == command_shown(opt_text(process.command)),
{
    match &process.command {
        Some(c) => {
            let t = trim(c.as_str());
            if t.as_str().is_empty() {
                "--".to_owned()
            } else {
                t
            }
        },
        None => "--".to_owned(),
    }
}

/// A process in a row.
pub fn format_process(
    process: &ProcessView,
    opts: &RenderOptions,
    names: &HashMap<u32, String>,
) -> (r: String)
    ensures
        r@ == process_text(*process, *opts, names@),
{
    let mut out = if !opts.show_cmd || opts.show_user {
        paint(opts.color, "1;30", display_username(process, names).as_str())
    } else {
        no_text()
    };
    let colon = if opts.show_cmd && !out.as_str().is_empty() {
        ":".to_owned()
    } else {
        no_text()
    };
    out.append(colon.as_str());
    let command = if opts.show_cmd {
        paint(opts.color, "36", show_command(process).as_str())
    } else {
        no_text()
    };
    out.append(command.as_str());
    let mut pid = no_text();
    if opts.show_pid {
        pid = "/".to_owned();
        push_decimal(&mut pid, process.pid as u64);
    }
    out.append(pid.as_str());
    out.append("(");
    let mut memory = decimal_of(process.used_memory_mb as u64);
    memory.append("M");
    out.append(paint(opts.color, "33", memory.as_str()).as_str());
    out.append(")");
    out
}

/// The first `n` processes that are shown, each after a blank.
pub open spec fn processes_text(
    v: Seq<ProcessView>,
    user: Option<Seq<char>>,
    opts: RenderOptions,
    names: Map<u32, String>,
    n: int,
) -> Seq<char>
    decreases n,
{
    if n <= 0 {
        Seq::empty()
    } else {
        let before = processes_text(v, user, opts, names, n - 1);
        if process_wanted(v[n - 1], user, names) {
            before + " "@ + process_text(v[n - 1], opts, names)
        } else {
            before
        }
    }
}

fn push_processes(
    out: &mut String,
    processes: &Vec<ProcessView>,
    user: &Option<String>,
    opts: &RenderOptions,
    names: &HashMap<u32, String>,
)
    ensures
        final(out)@ == old(out)@ + processes_text(
            processes@,
            opt_text(*user),
            *opts,
            names@,
            processes@.len() as int,
        ),
{
    let ghost start = out@;
    let mut i: usize = 0;
    assert(out@ =~= start + processes_text(processes@, opt_text(*user), *opts, names@, 0));
    while i < processes.len()
        invariant
            i <= processes@.len(),
            out@ == start + processes_text(
                processes@,
                opt_text(*user),
                *opts,
                names@,
                i as int,
            ),
        decreases processes@.len() - i,
    {
        if wants_process(&processes[i], user, names) {
            let ghost before = processes_text(
                processes@,
                opt_text(*user),
                *opts,
                names@,
                i as int,
            );
            let text = format_process(&processes[i], opts, names);
            out.append(" ");
            out.append(text.as_str());
            assert(out@ =~= start + (before + " "@ + text@));
        }
        i = i + 1;
    }
}

// ---------------------------------------------------------------------------
// Rows

/// A text cut to a width from the left, with an ellipsis for what is gone.
pub open spec fn shortened(value: Seq<char>, width: nat) -> Seq<char> {
    if width == 0 {
        Seq::empty()
    } else if value.len() <= width {
        value
    } else {
        "…"@ + value.skip(value.len() - (width - 1))
    }
}

/// A text cut to a width from the left.
pub fn shorten_left(value: &str, width: usize) -> (r: String)
    ensures
        r@ == shortened(value@, width as nat),
{
    if width == 0 {
        let none = String::new();
        assert(none@ =~= Seq::empty());
        return none;
    }
    let len: usize = value.unicode_len();
    if len <= width {
        return value.to_owned();
    }
    let chars = chars_of(value);
    let mut out = "…".to_owned();
    let tail = slice_of(chars.as_slice(), len - (width - 1), len);
    out.append(tail.as_str());
    assert(tail@ =~= value@.skip(value@.len() - (width - 1)));
    out
}

/// The name of a resource as it is shown.
pub open spec fn gres_name(name: Seq<char>) -> Seq<char> {
    if trimmed(name).len() == 0 {
        "GPU"@
    } else {
        name
    }
}

/// A temperature, or question marks.
pub open spec fn temperature_text(t: Option<u32>) -> Seq<char> {
    match t {
        Some(value) => padded_right(decimal(value as nat), 3),
        None => " ??"@,
    }
}

/// The column of the name, unless it is left out.
pub open spec fn name_text(name: Seq<char>, name_width: nat, opts: RenderOptions) -> Seq<char> {
    if opts.gresname_width == Some(0usize) {
        Seq::empty()
    } else {
        painted(
            opts.color,
            "34"@,
            padded_left(shortened(gres_name(name), name_width), name_width),
        ) + " |"@
    }
}

/// The column of the temperature, brighter from 50 degrees on.
pub open spec fn temperature_column(t: Option<u32>, color: bool) -> Seq<char> {
    painted(
        color,
        if t matches Some(value) && value >= 50 {
            "1;31"@
        } else {
            "31"@
        },
        temperature_text(t) + "°C"@,
    )
}

/// The column of the utilization, brighter from 30 percent on.
pub open spec fn util_column(util: u8, color: bool) -> Seq<char> {
    painted(
        color,
        if util >= 30 {
            "1;32"@
        } else {
            "32"@
        },
        padded_right(decimal(util as nat), 3) + " %"@,
    )
}

/// The column of the processes, unless it is left out.
pub open spec fn processes_column(
    processes: Option<Seq<ProcessView>>,
    user: Option<Seq<char>>,
    opts: RenderOptions,
    names: Map<u32, String>,
) -> Seq<char> {
    if opts.no_processes {
        Seq::empty()
    } else {
        " |"@ + (match processes {
            Some(v) => processes_text(v, user, opts, names, v.len() as int),
            None => Seq::empty(),
        })
    }
}

/// The processes of a resource, where any are given.
pub open spec fn opt_processes(o: Option<Vec<ProcessView>>) -> Option<Seq<ProcessView>> {
    match o {
        Some(v) => Some(v@),
        None => None,
    }
}

/// The row of a resource.
pub open spec fn row_text(
    g: GresView,
    user: Option<Seq<char>>,
    name_width: nat,
    opts: RenderOptions,
    names: Map<u32, String>,
) -> Seq<char> {
    painted(opts.color, "36"@, "["@ + decimal(g.index as nat) + "]"@) + " "@ + name_text(
        g.name@,
        name_width,
        opts,
    ) + temperature_column(g.temperature_c, opts.color) + ", "@ + util_column(g.util, opts.color)
        + " | "@ + painted(opts.color, "1;33"@, padded_right(decimal(g.mem_used_mb as nat), 5))
        + " / "@ + painted(opts.color, "33"@, padded_right(decimal(g.mem_total_mb as nat), 5))
        + " MB"@ + processes_column(opt_processes(g.processes), user, opts, names) + "\n"@
}

fn number_in(n: u64, width: usize) -> (r: String)
    ensures
        r@ == padded_right(decimal(n as nat), width as nat),
{
    let mut out = no_text();
    push_right(&mut out, decimal_of(n).as_str(), width);
    assert(out@ =~= padded_right(decimal(n as nat), width as nat));
    out
}

fn render_name(name: &str, name_width: usize, opts: &RenderOptions) -> (r: String)
    ensures
        r@ == name_text(name@, name_width as nat, *opts),
{
    if let Some(w) = opts.gresname_width {
        if w == 0 {
            return no_text();
        }
    }
    let name = if trim(name).as_str().is_empty() {
        "GPU".to_owned()
    } else {
        name.to_owned()
    };
    let short = shorten_left(name.as_str(), name_width);
    let mut column = no_text();
    push_left(&mut column, short.as_str(), name_width);
    assert(column@ =~= padded_left(short@, name_width as nat));
    let mut out = paint(opts.color, "34", column.as_str());
    out.append(" |");
    out
}

fn render_temperature(t: Option<u32>, color: bool) -> (r: String)
    ensures
        r@ == temperature_column(t, color),
{
    match t {
        Some(value) => {
            let mut text = number_in(value as u64, 3);
            text.append("°C");
            if value >= 50 {
                paint(color, "1;31", text.as_str())
            } else {
                paint(color, "31", text.as_str())
            }
        },
        None => {
            let mut text = " ??".to_owned();
            text.append("°C");
            paint(color, "31", text.as_str())
        },
    }
}

fn render_util(util: u8, color: bool) -> (r: String)
    ensures
        r@ == util_column(util, color),
{
    let mut text = number_in(util as u64, 3);
    text.append(" %");
    if util >= 30 {
        paint(color, "1;32", text.as_str())
    } else {
        paint(color, "32", text.as_str())
    }
}

fn render_processes(
    processes: &Option<Vec<ProcessView>>,
    user: &Option<String>,
    opts: &RenderOptions,
    names: &HashMap<u32, String>,
) -> (r: String)
    ensures
        r@ == processes_column(opt_processes(*processes), opt_text(*user), *opts, names@),
{
    if opts.no_processes {
        return no_text();
    }
    let mut out = " |".to_owned();
    match processes {
        Some(v) => push_processes(&mut out, v, user, opts, names),
        None => out.append(no_text().as_str()),
    }
    out
}

/// The row of a resource.
pub fn render_gres_row(
    gres: &GresView,
    user: &Option<String>,
    name_width: usize,
    opts: &RenderOptions,
    names: &HashMap<u32, String>,
) -> (r: String)
    ensures
        r@ == row_text(*gres, opt_text(*user), name_width as nat, *opts, names@),
{
    let mut index = "[".to_owned();
    push_decimal(&mut index, gres.index as u64);
    index.append("]");
    let mut out = paint(opts.color, "36", index.as_str());
    out.append(" ");
    out.append(render_name(gres.name.as_str(), name_width, opts).as_str());
    out.append(render_temperature(gres.temperature_c, opts.color).as_str());
    out.append(", ");
    out.append(render_util(gres.util, opts.color).as_str());
    out.append(" | ");
    let used = number_in(gres.mem_used_mb as u64, 5);
    out.append(paint(opts.color, "1;33", used.as_str()).as_str());
    out.append(" / ");
    let total = number_in(gres.mem_total_mb as u64, 5);
    out.append(paint(opts.color, "33", total.as_str()).as_str());
    out.append(" MB");
    out.append(render_processes(&gres.processes, user, opts, names).as_str());
    out.append("\n");
    out
}

/// The rows of the first `n` resources that are shown.
pub open spec fn rows_text(
    v: Seq<GresView>,
    user: Option<Seq<char>>,
    name_width: nat,
    opts: RenderOptions,
    names: Map<u32, String>,
    n: int,
) -> Seq<char>
    decreases n,
{
    if n <= 0 {
        Seq::empty()
    } else {
        let before = rows_text(v, user, name_width, opts, names, n - 1);
        if gres_wanted(v[n - 1], user, names) {
            before + row_text(v[n - 1], user, name_width, opts, names)
        } else {
            before
        }
    }
}

fn push_rows(
    out: &mut String,
    gres: &Vec<GresView>,
    user: &Option<String>,
    name_width: usize,
    opts: &RenderOptions,
    names: &HashMap<u32, String>,
)
    ensures
        final(out)@ == old(out)@ + rows_text(
            gres@,
            opt_text(*user),
            name_width as nat,
            *opts,
            names@,
            gres@.len() as int,
        ),
{
    let ghost start = out@;
    let ghost w = name_width as nat;
    let mut i: usize = 0;
    assert(out@ =~= start + rows_text(gres@, opt_text(*user), w, *opts, names@, 0));
    while i < gres.len()
        invariant
            i <= gres@.len(),
            w == name_width,
            out@ == start + rows_text(gres@, opt_text(*user), w, *opts, names@, i as int),
        decreases gres@.len() - i,
    {
        if should_render_gres(&gres[i], user, names) {
            let ghost before = rows_text(gres@, opt_text(*user), w, *opts, names@, i as int);
            let row = render_gres_row(&gres[i], user, name_width, opts, names);
            out.append(row.as_str());
            assert(out@ =~= start + (before + row_text(
                gres@[i as int],
                opt_text(*user),
                w,
                *opts,
                names@,
            )));
        }
        i = i + 1;
    }
}

/// How many of the first `n` resources are shown.
pub open spec fn shown_count(
    v: Seq<GresView>,
    user: Option<Seq<char>>,
    names: Map<u32, String>,
    n: int,
) -> nat
    decreases n,
{
    if n <= 0 {
        0
    } else {
        shown_count(v, user, names, n - 1) + (if gres_wanted(v[n - 1], user, names) {
            1nat
        } else {
            0
        })
    }
}

fn count_shown(gres: &Vec<GresView>, user: &Option<String>, names: &HashMap<u32, String>) -> (r:
    usize)
    ensures
        r == shown_count(gres@, opt_text(*user), names@, gres@.len() as int),
{
    let mut count: usize = 0;
    let mut i: usize = 0;
    while i < gres.len()
        invariant
            i <= gres@.len(),
            count <= i,
            count == shown_count(gres@, opt_text(*user), names@, i as int),
        decreases gres@.len() - i,
    {
        if should_render_gres(&gres[i], user, names) {
            count = count + 1;
        }
        i = i + 1;
    }
    count
}

// ---------------------------------------------------------------------------
// Headers

/// A delay: in microseconds below a millisecond, else in milliseconds.
pub open spec fn delay_text(delay_us: u64, millis: Seq<char>) -> Seq<char> {
    if delay_us < 1_000 {
        decimal(delay_us as nat) + "us"@
    } else {
        millis + "ms"@
    }
}

/// A delay. `millis` is the number of milliseconds with two decimals.
pub fn format_delay(delay_us: Option<u64>, millis: &str) -> (r: Option<String>)
    ensures
        opt_text(r) == (match delay_us {
            Some(d) => Some(delay_text(d, millis@)),
            None => None,
        }),
{
    match delay_us {
        Some(d) => {
            let mut out = String::new();
            if d < 1_000 {
                push_decimal(&mut out, d);
                out.append("us");
            } else {
                out.append(millis);
                out.append("ms");
            }
            assert(out@ =~= delay_text(d, millis@));
            Some(out)
        },
        None => None,
    }
}

/// The time of a node, or question marks.
pub open spec fn time_text(time: Option<Seq<char>>) -> Seq<char> {
    match time {
        Some(t) => t,
        None => "??? ?? ?? ??:??:?? ????"@,
    }
}

/// The width of the column of host names.
pub open spec fn header_width(name_width: nat) -> nat {
    let w = if name_width + 3 > usize::MAX {
        usize::MAX as nat
    } else {
        name_width + 3
    };
    if w < DEFAULT_GRESNAME_WIDTH + 3 {
        (DEFAULT_GRESNAME_WIDTH + 3) as nat
    } else {
        w
    }
}

/// The driver in a header, unless it is blank.
pub open spec fn driver_text(driver: Option<Seq<char>>, color: bool) -> Seq<char> {
    match driver {
        Some(d) => if trimmed(d).len() == 0 {
            Seq::empty()
        } else {
            "  "@ + painted(color, "1;30"@, d)
        },
        None => Seq::empty(),
    }
}

/// The delay in a header, where delays are shown.
pub open spec fn delay_column(
    delay_us: Option<u64>,
    millis: Seq<char>,
    opts: RenderOptions,
) -> Seq<char> {
    match delay_us {
        Some(d) => if opts.latency_display {
            "  "@ + painted(opts.color, "36"@, "delay="@ + delay_text(d, millis))
        } else {
            Seq::empty()
        },
        None => Seq::empty(),
    }
}

/// The header of a node.
pub open spec fn header_text(
    node: NodeView,
    texts: NodeTexts,
    name_width: nat,
    opts: RenderOptions,
) -> Seq<char> {
    painted(opts.color, "1;37"@, padded_left(node.hostname@, header_width(name_width))) + "  "@
        + time_text(opt_text(texts.time)) + driver_text(
        opt_text(node.driver_version),
        opts.color,
    ) + delay_column(node.delay_us, texts.millis@, opts) + (if node.stale {
        " "@ + painted(opts.color, "1;31"@, "stale"@)
    } else {
        Seq::empty()
    }) + (match node.error {
        Some(e) => "  "@ + e@,
        None => Seq::empty(),
    }) + "\n"@
}

fn render_driver(driver: &Option<String>, color: bool) -> (r: String)
    ensures
        r@ == driver_text(opt_text(*driver), color),
{
    match driver {
        Some(d) => {
            if trim(d.as_str()).as_str().is_empty() {
                return no_text();
            }
            let mut out = "  ".to_owned();
            out.append(paint(color, "1;30", d.as_str()).as_str());
            out
        },
        None => no_text(),
    }
}

fn render_delay(delay_us: Option<u64>, millis: &str, opts: &RenderOptions) -> (r: String)
    ensures
        r@ == delay_column(delay_us, millis@, *opts),
{
    if !opts.latency_display {
        return no_text();
    }
    match format_delay(delay_us, millis) {
        Some(delay) => {
            let mut text = "delay=".to_owned();
            text.append(delay.as_str());
            let mut out = "  ".to_owned();
            out.append(paint(opts.color, "36", text.as_str()).as_str());
            out
        },
        None => no_text(),
    }
}

/// The header of a node.
pub fn render_node_header(
    node: &NodeView,
    texts: &NodeTexts,
    name_width: usize,
    opts: &RenderOptions,
) -> (r: String)
    ensures
        r@ == header_text(*node, *texts, name_width as nat, *opts),
{
    let widened: usize = name_width.saturating_add(3);
    let width: usize = if widened < DEFAULT_GRESNAME_WIDTH + 3 {
        DEFAULT_GRESNAME_WIDTH + 3
    } else {
        widened
    };
    assert(width == header_width(name_width as nat));
    let mut host = no_text();
    push_left(&mut host, node.hostname.as_str(), width);
    assert(host@ =~= padded_left(node.hostname@, width as nat));
    let mut out = paint(opts.color, "1;37", host.as_str());
    out.append("  ");
    match &texts.time {
        Some(t) => out.append(t.as_str()),
        None => out.append("??? ?? ?? ??:??:?? ????"),
    }
    out.append(render_driver(&node.driver_version, opts.color).as_str());
    out.append(render_delay(node.delay_us, texts.millis.as_str(), opts).as_str());
    let mut stale = no_text();
    if node.stale {
        stale = " ".to_owned();
        stale.append(paint(opts.color, "1;31", "stale").as_str());
    }
    out.append(stale.as_str());
    let mut error = no_text();
    if let Some(e) = &node.error {
        error = "  ".to_owned();
        error.append(e.as_str());
    }
    out.append(error.as_str());
    out.append("\n");
    out
}

// ---------------------------------------------------------------------------
// The table

/// The width that a name takes up.
pub open spec fn name_len(name: Seq<char>) -> nat {
    if trimmed(name).len() == 0 {
        3
    } else {
        name.len()
    }
}

/// The widest name of the first `n` resources that are shown, or `least`.
pub open spec fn widest(
    v: Seq<GresView>,
    user: Option<Seq<char>>,
    names: Map<u32, String>,
    least: nat,
    n: int,
) -> nat
    decreases n,
{
    if n <= 0 {
        least
    } else {
        let before = widest(v, user, names, least, n - 1);
        if gres_wanted(v[n - 1], user, names) && name_len(v[n - 1].name@) > before {
            name_len(v[n - 1].name@)
        } else {
            before
        }
    }
}

/// The widest name on the first `n` nodes, and no less than the default.
pub open spec fn widest_on(
    nodes: Seq<NodeView>,
    user: Option<Seq<char>>,
    names: Map<u32, String>,
    n: int,
) -> nat
    decreases n,
{
    if n <= 0 {
        DEFAULT_GRESNAME_WIDTH as nat
    } else {
        widest(
            nodes[n - 1].gres@,
            user,
            names,
            widest_on(nodes, user, names, n - 1),
            nodes[n - 1].gres@.len() as int,
        )
    }
}

/// The width of the column of names: as configured, else that of the widest.
pub open spec fn name_column(
    nodes: Seq<NodeView>,
    user: Option<Seq<char>>,
    names: Map<u32, String>,
    configured: Option<usize>,
) -> nat {
    match configured {
        Some(w) => w as nat,
        None => widest_on(nodes, user, names, nodes.len() as int),
    }
}

fn name_width(name: &str) -> (r: usize)
    ensures
        r == name_len(name@),
{
    if trim(name).as_str().is_empty() {
        3
    } else {
        name.unicode_len()
    }
}

fn widest_name(
    gres: &Vec<GresView>,
    user: &Option<String>,
    names: &HashMap<u32, String>,
    least: usize,
) -> (r: usize)
    ensures
        r == widest(gres@, opt_text(*user), names@, least as nat, gres@.len() as int),
{
    let mut width: usize = least;
    let mut i: usize = 0;
    while i < gres.len()
        invariant
            i <= gres@.len(),
            width == widest(gres@, opt_text(*user), names@, least as nat, i as int),
        decreases gres@.len() - i,
    {
        if should_render_gres(&gres[i], user, names) {
            let w: usize = name_width(gres[i].name.as_str());
            if w > width {
                width = w;
            }
        }
        i = i + 1;
    }
    width
}

/// The width of the column of names.
pub fn gresname_width(
    resp: &QueryResponse,
    user: &Option<String>,
    names: &HashMap<u32, String>,
    configured: Option<usize>,
) -> (r: usize)
    ensures
        r == name_column(resp.nodes@, opt_text(*user), names@, configured),
{
    if let Some(w) = configured {
        return w;
    }
    let mut width: usize = DEFAULT_GRESNAME_WIDTH;
    let mut i: usize = 0;
    while i < resp.nodes.len()
        invariant
            i <= resp.nodes@.len(),
            width == widest_on(resp.nodes@, opt_text(*user), names@, i as int),
        decreases resp.nodes@.len() - i,
    {
        width = widest_name(&resp.nodes[i].gres, user, names, width);
        i = i + 1;
    }
    width
}

/// The part of the table for a node: nothing where no resource is shown, unless
/// the node is stale.
pub open spec fn node_text(
    node: NodeView,
    texts: NodeTexts,
    user: Option<Seq<char>>,
    name_width: nat,
    opts: RenderOptions,
    names: Map<u32, String>,
) -> Seq<char> {
    let all = node.gres@.len() as int;
    if shown_count(node.gres@, user, names, all) == 0 && !node.stale {
        Seq::empty()
    } else {
        (if opts.show_header {
            header_text(node, texts, name_width, opts)
        } else {
            Seq::empty()
        }) + rows_text(node.gres@, user, name_width, opts, names, all)
    }
}

/// The parts of the first `n` nodes.
pub open spec fn nodes_text(
    nodes: Seq<NodeView>,
    texts: Seq<NodeTexts>,
    user: Option<Seq<char>>,
    name_width: nat,
    opts: RenderOptions,
    names: Map<u32, String>,
    n: int,
) -> Seq<char>
    decreases n,
{
    if n <= 0 {
        Seq::empty()
    } else {
        nodes_text(nodes, texts, user, name_width, opts, names, n - 1) + node_text(
            nodes[n - 1],
            texts[n - 1],
            user,
            name_width,
            opts,
            names,
        )
    }
}

/// The table for an answer.
pub open spec fn table_text(
    resp: QueryResponse,
    user_filter: Option<Seq<char>>,
    opts: RenderOptions,
    lookups: Lookups,
) -> Seq<char> {
    let user = wanted_user(user_filter);
    nodes_text(
        resp.nodes@,
        lookups.nodes@,
        user,
        name_column(resp.nodes@, user, lookups.names@, opts.gresname_width),
        opts,
        lookups.names@,
        resp.nodes@.len() as int,
    )
}

/// The table for an answer.
pub fn render_table(
    resp: &QueryResponse,
    user_filter: Option<&str>,
    opts: &RenderOptions,
    lookups: &Lookups,
) -> (r: String)
    requires
        lookups.nodes@.len() == resp.nodes@.len(),
    ensures
        r@ == table_text(*resp, opt_str(user_filter), *opts, *lookups),
{
    let user = normalized_user_filter(user_filter);
    let names = &lookups.names;
    let width: usize = gresname_width(resp, &user, names, opts.gresname_width);
    let ghost u = opt_text(user);
    let ghost w = width as nat;
    let mut out = String::new();
    let mut i: usize = 0;
    assert(out@ =~= nodes_text(resp.nodes@, lookups.nodes@, u, w, *opts, names@, 0));
    while i < resp.nodes.len()
        invariant
            i <= resp.nodes@.len(),
            lookups.nodes@.len() == resp.nodes@.len(),
            u == opt_text(user),
            w == width,
            names@ == lookups.names@,
            out@ == nodes_text(resp.nodes@, lookups.nodes@, u, w, *opts, names@, i as int),
        decreases resp.nodes@.len() - i,
    {
        let node = &resp.nodes[i];
        let ghost before = out@;
        if count_shown(&node.gres, &user, names) > 0 || node.stale {
            if opts.show_header {
                let header = render_node_header(node, &lookups.nodes[i], width, opts);
                out.append(header.as_str());
            }
            push_rows(&mut out, &node.gres, &user, width, opts, names);
        }
        assert(out@ =~= before + node_text(
            resp.nodes@[i as int],
            lookups.nodes@[i as int],
            u,
            w,
            *opts,
            names@,
        ));
        i = i + 1;
    }
    out
}

/// A text of JSON as it is put out. `encode` writes an answer as JSON.
pub fn render_json<E: Fn(&QueryResponse) -> Result<String, String>>(
    resp: &QueryResponse,
    encode: &E,
) -> (r: Result<String, String>)
    requires
        call_requires(*encode, (resp,)),
    ensures
        json_outcome(*resp, *encode, r),
{
    let encoded = encode(resp);
    assert(call_ensures(*encode, (resp,), encoded));
    match encoded {
        Ok(mut json) => {
            json.append("\n");
            Ok(json)
        },
        Err(e) => {
            let mut out = "encode JSON output failed: ".to_owned();
            out.append(e.as_str());
            Err(out)
        },
    }
}

/// Whether `r` is what is put out for an answer as JSON.
pub open spec fn json_outcome<E: Fn(&QueryResponse) -> Result<String, String>>(
    resp: QueryResponse,
    encode: E,
    r: Result<String, String>,
) -> bool {
    exists|encoded: Result<String, String>| #[trigger]
        call_ensures(encode, (&resp,), encoded) && match encoded {
            Ok(json) => r matches Ok(text) && text@ == json@ + "\n"@,
            Err(e) => r matches Err(text) && text@ == "encode JSON output failed: "@ + e@,
        }
}

// ---------------------------------------------------------------------------
// The renderer

/// A renderer that remembers how many rows each node took up.
#[derive(Debug)]
pub struct IncrementalRenderer {
    last_node_rows: TextMap<usize>,
}

impl View for IncrementalRenderer {
    type V = Map<Seq<char>, usize>;

    closed spec fn view(&self) -> Map<Seq<char>, usize> {
        self.last_node_rows@
    }
}

/// The number of rows of the first `n` nodes, by host name. Of nodes with the
/// same name the last counts.
pub open spec fn layout(
    nodes: Seq<NodeView>,
    user: Option<Seq<char>>,
    names: Map<u32, String>,
    n: int,
) -> Map<Seq<char>, usize>
    decreases n,
{
    if n <= 0 {
        Map::empty()
    } else {
        layout(nodes, user, names, n - 1).insert(
            nodes[n - 1].hostname@,
            shown_count(
                nodes[n - 1].gres@,
                user,
                names,
                nodes[n - 1].gres@.len() as int,
            ) as usize,
        )
    }
}

impl Default for IncrementalRenderer {
    fn default() -> (r: IncrementalRenderer)
        ensures
            r@ == Map::<Seq<char>, usize>::empty(),
    {
        IncrementalRenderer { last_node_rows: TextMap::new() }
    }
}

impl IncrementalRenderer {
    /// The table for an answer, whose layout is remembered.
    pub fn render_full(
        &mut self,
        resp: &QueryResponse,
        user_filter: Option<&str>,
        opts: &RenderOptions,
        lookups: &Lookups,
    ) -> (r: String)
        requires
            lookups.nodes@.len() == resp.nodes@.len(),
        ensures
            r@ == table_text(*resp, opt_str(user_filter), *opts, *lookups),
            final(self)@ == layout(
                resp.nodes@,
                wanted_user(opt_str(user_filter)),
                lookups.names@,
                resp.nodes@.len() as int,
            ),
    {
        let output = render_table(resp, user_filter, opts, lookups);
        self.remember_layout(resp, user_filter, &lookups.names);
        output
    }

    fn remember_layout(
        &mut self,
        resp: &QueryResponse,
        user_filter: Option<&str>,
        names: &HashMap<u32, String>,
    )
        ensures
            final(self)@ == layout(
                resp.nodes@,
                wanted_user(opt_str(user_filter)),
                names@,
                resp.nodes@.len() as int,
            ),
    {
        let user = normalized_user_filter(user_filter);
        let ghost u = opt_text(user);
        let mut rows: TextMap<usize> = TextMap::new();
        let mut i: usize = 0;
        while i < resp.nodes.len()
            invariant
                i <= resp.nodes@.len(),
                rows.wf(),
                u == opt_text(user),
                rows@ == layout(resp.nodes@, u, names@, i as int),
            decreases resp.nodes@.len() - i,
        {
            let node = &resp.nodes[i];
            let count: usize = count_shown(&node.gres, &user, names);
            rows.insert(node.hostname.as_str(), count);
            i = i + 1;
        }
        self.last_node_rows = rows;
    }
}

// ---------------------------------------------------------------------------
// Laws

/// A name is never wider than its column.
pub proof fn law_shortened_fits(value: Seq<char>, width: nat)
    ensures
        shortened(value, width).len() <= width,
        value.len() <= width ==> shortened(value, width) == value,
{
    reveal_strlit("…");
    if width == 0 && value.len() == 0 {
        assert(shortened(value, width) =~= value);
    }
}

/// A node on which nothing is shown takes up no line, unless it is stale.
pub proof fn law_filtered_node_is_hidden(
    node: NodeView,
    texts: NodeTexts,
    user: Option<Seq<char>>,
    name_width: nat,
    opts: RenderOptions,
    names: Map<u32, String>,
)
    requires
        !node.stale,
        forall|i: int|
            0 <= i < node.gres@.len() ==> !gres_wanted(#[trigger] node.gres@[i], user, names),
    ensures
        node_text(node, texts, user, name_width, opts, names) == Seq::<char>::empty(),
{
    lemma_none_shown(node.gres@, user, names, node.gres@.len() as int);
}

proof fn lemma_none_shown(
    v: Seq<GresView>,
    user: Option<Seq<char>>,
    names: Map<u32, String>,
    n: int,
)
    requires
        n <= v.len(),
        forall|i: int| 0 <= i < n ==> !gres_wanted(#[trigger] v[i], user, names),
    ensures
        shown_count(v, user, names, n) == 0,
    decreases n,
{
    if n > 0 {
        lemma_none_shown(v, user, names, n - 1);
        assert(!gres_wanted(v[n - 1], user, names));
    }
}

/// The processes of other users leave no trace in a row: only those that are
/// asked for count.
pub proof fn law_row_shows_their_processes(
    v: Seq<ProcessView>,
    user: Option<Seq<char>>,
    opts: RenderOptions,
    names: Map<u32, String>,
    n: int,
)
    requires
        0 <= n <= v.len(),
    ensures
        processes_text(v, user, opts, names, n) == processes_text(
            v.take(n).filter(|p: ProcessView| process_wanted(p, user, names)),
            None,
            opts,
            names,
            v.take(n).filter(|p: ProcessView| process_wanted(p, user, names)).len() as int,
        ),
    decreases n,
{
    reveal(Seq::filter);
    let wanted = |p: ProcessView| process_wanted(p, user, names);
    if n > 0 {
        law_row_shows_their_processes(v, user, opts, names, n - 1);
        assert(v.take(n).drop_last() =~= v.take(n - 1));
        assert(v.take(n).last() == v[n - 1]);
        let before = v.take(n - 1).filter(wanted);
        let after = v.take(n).filter(wanted);
        if process_wanted(v[n - 1], user, names) {
            assert(after =~= before.push(v[n - 1]));
            lemma_prefix_text(before, v[n - 1], opts, names, before.len() as int);
        } else {
            assert(after =~= before);
        }
    }
}

proof fn lemma_prefix_text(
    v: Seq<ProcessView>,
    p: ProcessView,
    opts: RenderOptions,
    names: Map<u32, String>,
    n: int,
)
    requires
        0 <= n <= v.len(),
    ensures
        processes_text(v, None, opts, names, n) == processes_text(v.push(p), None, opts, names, n),
    decreases n,
{
    if n > 0 {
        lemma_prefix_text(v, p, opts, names, n - 1);
    }
}

} // verus!
