//! Laws of the command line.

use vstd::prelude::*;
use crate::cli::args::{
    after_argument, after_arguments, bool_of, default_options, flag_of, spec_parse_args, usage,
    CliOptions, Flag, Seconds,
};
use crate::text::{begins, lowered, trimmed, unsigned_value};

verus! {

/// The options that arguments leave, one after the other from the options that
/// stand where none is given.
pub open spec fn read(args: Seq<String>, seconds: Seq<Seconds>) -> Result<CliOptions, Seq<char>> {
    after_arguments(args, seconds, 0, default_options())
}

/// Without arguments nothing is filtered, nothing is left out but commands, pids
/// and colours that were asked for, and the interval is two seconds.
pub proof fn law_no_arguments()
    ensures
        spec_parse_args(Seq::empty(), Seq::empty()) == Ok::<CliOptions, Seq<char>>(
            default_options(),
        ),
        ({
            let o = default_options();
            &&& o.node_filter is None && o.user_filter is None
            &&& !o.watch && o.refresh_interval_ns == 2_000_000_000
            &&& !o.json && !o.force_color && !o.no_color
            &&& o.show_header && !o.no_processes
            &&& !o.show_cmd && !o.show_user && !o.show_pid
            &&& o.gresname_width is None && o.latency_display is None && o.backend_socket is None
        }),
{
}

/// What was read is what is returned, unless colours are both forced and
/// suppressed, or JSON is asked for while watching.
pub proof fn law_options_that_exclude_each_other(args: Seq<String>, seconds: Seq<Seconds>)
    ensures
        read(args, seconds) matches Err(e) ==> spec_parse_args(args, seconds) == Err::<
            CliOptions,
            Seq<char>,
        >(e),
        read(args, seconds) matches Ok(o) ==> {
            let r = spec_parse_args(args, seconds);
            &&& o.force_color && o.no_color ==> r == Err::<CliOptions, Seq<char>>(
                "--color and --no-color can't be used at the same time"@,
            )
            &&& !(o.force_color && o.no_color) && o.watch && o.json ==> r == Err::<
                CliOptions,
                Seq<char>,
            >("--json and --interval/-i can't be used together"@)
            &&& !(o.force_color && o.no_color) && !(o.watch && o.json) ==> r == Ok::<
                CliOptions,
                Seq<char>,
            >(o)
        },
{
}

proof fn lemma_dash(s: Seq<char>)
    ensures
        begins(s, "-"@) <==> s.len() > 0 && s[0] == '-',
{
    reveal_strlit("-");
    if s.len() > 0 {
        assert(s.subrange(0, 1) =~= seq![s[0]]);
        if s[0] == '-' {
            assert("-"@ =~= seq![s[0]]);
        }
        if begins(s, "-"@) {
            assert(s.subrange(0, 1)[0] == "-"@[0]);
        }
    }
}

proof fn lemma_tail(
    args: Seq<String>,
    seconds: Seq<Seconds>,
    tail: Seq<String>,
    more: Seq<Seconds>,
    i: int,
    start: CliOptions,
)
    requires
        0 <= i <= args.len(),
        args.len() == seconds.len(),
        tail.len() == more.len(),
        tail.len() > 0,
        begins(tail[0]@, "-"@),
        after_arguments(args, seconds, i, start) is Ok,
    ensures
        after_arguments(args + tail, seconds + more, i, start) == after_arguments(
            args + tail,
            seconds + more,
            args.len() as int,
            after_arguments(args, seconds, i, start)->Ok_0,
        ),
    decreases args.len() - i,
{
    if i < args.len() {
        let all = args + tail;
        let secs = seconds + more;
        assert(all[i] == args[i]);
        if i + 1 < args.len() {
            assert(all[i + 1] == args[i + 1]);
            assert(secs[i + 1] == seconds[i + 1]);
        } else {
            assert(all[i + 1] == tail[0]);
        }
        assert(after_argument(all, secs, i, start) == after_argument(args, seconds, i, start));
        let (next, j) = after_argument(args, seconds, i, start)->Ok_0;
        assert(i < j <= args.len());
        lemma_tail(args, seconds, tail, more, j, next);
    }
}

proof fn lemma_then(
    args: Seq<String>,
    seconds: Seq<Seconds>,
    tail: Seq<String>,
    more: Seq<Seconds>,
    o: CliOptions,
)
    requires
        args.len() == seconds.len(),
        tail.len() == more.len(),
        tail.len() > 0,
        tail[0]@.len() > 0 && tail[0]@[0] == '-',
        read(args, seconds) == Ok::<CliOptions, Seq<char>>(o),
    ensures
        read(args + tail, seconds + more) == after_arguments(
            args + tail,
            seconds + more,
            args.len() as int,
            o,
        ),
        (args + tail)[args.len() as int] == tail[0],
        tail.len() > 1 ==> (args + tail)[args.len() as int + 1] == tail[1],
        tail.len() > 1 ==> (seconds + more)[args.len() as int + 1] == more[1],
{
    lemma_dash(tail[0]@);
    lemma_tail(args, seconds, tail, more, 0, default_options());
}

proof fn lemma_short_flags()
    ensures
        flag_of("-h"@) == Flag::Help,
        flag_of("-v"@) == Flag::Version,
        flag_of("-n"@) == Flag::Node,
        flag_of("-user"@) == Flag::User,
        flag_of("-w"@) == Flag::Watch,
        flag_of("-i"@) == Flag::Watch,
        flag_of("-c"@) == Flag::ShowCmd,
        flag_of("-u"@) == Flag::ShowUser,
        flag_of("-p"@) == Flag::ShowPid,
        flag_of("-a"@) == Flag::ShowAll,
{
    reveal_strlit("-h");
    reveal_strlit("-v");
    reveal_strlit("-n");
    reveal_strlit("-user");
    reveal_strlit("-w");
    reveal_strlit("-i");
    reveal_strlit("-c");
    reveal_strlit("-u");
    reveal_strlit("-p");
    reveal_strlit("-a");
    assert("-h"@[1] == 'h');
    assert("-v"@[1] == 'v');
    assert("-n"@[1] == 'n');
    assert("-w"@[1] == 'w');
    assert("-i"@[1] == 'i');
    assert("-c"@[1] == 'c');
    assert("-u"@[1] == 'u');
    assert("-p"@[1] == 'p');
    assert("-a"@[1] == 'a');
    lemma_short_lengths();
    lemma_long_lengths();
}

proof fn lemma_long_lengths()
    ensures
        "--help"@.len() == 6,
        "--version"@.len() == 9,
        "--watch"@.len() == 7,
        "--interval"@.len() == 10,
        "--refresh"@.len() == 9,
        "--refresh-interval"@.len() == 18,
        "--json"@.len() == 6,
        "--force-color"@.len() == 13,
        "--color"@.len() == 7,
        "--no-color"@.len() == 10,
        "--no-header"@.len() == 11,
        "--no-processes"@.len() == 14,
        "--show-cmd"@.len() == 10,
        "--show-user"@.len() == 11,
        "--show-pid"@.len() == 10,
        "--show-all"@.len() == 10,
        "--latency-display"@.len() == 17,
        "--no-latency"@.len() == 12,
        "--hide-latency"@.len() == 14,
        "--gpuname-width"@.len() == 15,
        "--backend-socket"@.len() == 16,
        "--backend-uds"@.len() == 13,
        "--help"@[2] == 'h',
        "--version"@[2] == 'v',
        "--watch"@[2] == 'w',
        "--interval"@[2] == 'i',
        "--refresh"@[2] == 'r',
        "--json"@[2] == 'j',
        "--force-color"@[2] == 'f',
        "--color"@[2] == 'c',
        "--no-color"@[2] == 'n',
        "--no-header"@[2] == 'n',
        "--no-processes"@[2] == 'n',
        "--show-cmd"@[2] == 's',
        "--show-user"@[2] == 's',
        "--show-pid"@[2] == 's',
        "--show-all"@[2] == 's',
        "--show-cmd"@[7] == 'c',
        "--show-pid"@[7] == 'p',
        "--show-all"@[7] == 'a',
        "--hide-latency"@[2] == 'h',
        "--backend-uds"@[2] == 'b',
{
    reveal_strlit("--help");
    reveal_strlit("--version");
    reveal_strlit("--watch");
    reveal_strlit("--interval");
    reveal_strlit("--refresh");
    reveal_strlit("--refresh-interval");
    reveal_strlit("--json");
    reveal_strlit("--force-color");
    reveal_strlit("--color");
    reveal_strlit("--no-color");
    reveal_strlit("--no-header");
    reveal_strlit("--no-processes");
    reveal_strlit("--show-cmd");
    reveal_strlit("--show-user");
    reveal_strlit("--show-pid");
    reveal_strlit("--show-all");
    reveal_strlit("--latency-display");
    reveal_strlit("--no-latency");
    reveal_strlit("--hide-latency");
    reveal_strlit("--gpuname-width");
    reveal_strlit("--backend-socket");
    reveal_strlit("--backend-uds");
}

proof fn lemma_short_lengths()
    ensures
        "-h"@.len() == 2,
        "-v"@.len() == 2,
        "-n"@.len() == 2,
        "-user"@.len() == 5,
        "-w"@.len() == 2,
        "-i"@.len() == 2,
        "-c"@.len() == 2,
        "-u"@.len() == 2,
        "-p"@.len() == 2,
        "-a"@.len() == 2,
{
    reveal_strlit("-h");
    reveal_strlit("-v");
    reveal_strlit("-n");
    reveal_strlit("-user");
    reveal_strlit("-w");
    reveal_strlit("-i");
    reveal_strlit("-c");
    reveal_strlit("-u");
    reveal_strlit("-p");
    reveal_strlit("-a");
}

proof fn lemma_long_flags()
    ensures
        flag_of("--help"@) == Flag::Help,
        flag_of("--version"@) == Flag::Version,
        flag_of("--watch"@) == Flag::Watch,
        flag_of("--interval"@) == Flag::Watch,
        flag_of("--refresh"@) == Flag::Watch,
        flag_of("--refresh-interval"@) == Flag::Watch,
        flag_of("--json"@) == Flag::Json,
        flag_of("--force-color"@) == Flag::ForceColor,
        flag_of("--color"@) == Flag::ForceColor,
        flag_of("--no-color"@) == Flag::NoColor,
        flag_of("--no-header"@) == Flag::NoHeader,
        flag_of("--no-processes"@) == Flag::NoProcesses,
        flag_of("--show-cmd"@) == Flag::ShowCmd,
        flag_of("--show-user"@) == Flag::ShowUser,
        flag_of("--show-pid"@) == Flag::ShowPid,
        flag_of("--show-all"@) == Flag::ShowAll,
        flag_of("--latency-display"@) == Flag::LatencyDisplay,
        flag_of("--no-latency"@) == Flag::NoLatency,
        flag_of("--hide-latency"@) == Flag::NoLatency,
        flag_of("--gpuname-width"@) == Flag::NameWidth,
        flag_of("--backend-socket"@) == Flag::BackendSocket,
        flag_of("--backend-uds"@) == Flag::BackendSocket,
{
    lemma_long_lengths();
    lemma_short_lengths();
}

/// The arguments that begin an option.
pub open spec fn is_option(s: Seq<char>) -> bool {
    !(flag_of(s) is Unknown)
}

proof fn lemma_options_begin_with_dash(s: Seq<char>)
    requires
        is_option(s),
    ensures
        s.len() > 0,
        s[0] == '-',
{
    reveal_strlit("-h");
    reveal_strlit("-v");
    reveal_strlit("-n");
    reveal_strlit("-user");
    reveal_strlit("-w");
    reveal_strlit("-i");
    reveal_strlit("-c");
    reveal_strlit("-u");
    reveal_strlit("-p");
    reveal_strlit("-a");
    lemma_long_dashes();
}

proof fn lemma_long_dashes()
    ensures
        "--help"@.len() > 0 && "--help"@[0] == '-',
        "--version"@.len() > 0 && "--version"@[0] == '-',
        "--watch"@.len() > 0 && "--watch"@[0] == '-',
        "--interval"@.len() > 0 && "--interval"@[0] == '-',
        "--refresh"@.len() > 0 && "--refresh"@[0] == '-',
        "--refresh-interval"@.len() > 0 && "--refresh-interval"@[0] == '-',
        "--json"@.len() > 0 && "--json"@[0] == '-',
        "--force-color"@.len() > 0 && "--force-color"@[0] == '-',
        "--color"@.len() > 0 && "--color"@[0] == '-',
        "--no-color"@.len() > 0 && "--no-color"@[0] == '-',
        "--no-header"@.len() > 0 && "--no-header"@[0] == '-',
        "--no-processes"@.len() > 0 && "--no-processes"@[0] == '-',
        "--show-cmd"@.len() > 0 && "--show-cmd"@[0] == '-',
        "--show-user"@.len() > 0 && "--show-user"@[0] == '-',
        "--show-pid"@.len() > 0 && "--show-pid"@[0] == '-',
        "--show-all"@.len() > 0 && "--show-all"@[0] == '-',
        "--latency-display"@.len() > 0 && "--latency-display"@[0] == '-',
        "--no-latency"@.len() > 0 && "--no-latency"@[0] == '-',
        "--hide-latency"@.len() > 0 && "--hide-latency"@[0] == '-',
        "--gpuname-width"@.len() > 0 && "--gpuname-width"@[0] == '-',
        "--backend-socket"@.len() > 0 && "--backend-socket"@[0] == '-',
        "--backend-uds"@.len() > 0 && "--backend-uds"@[0] == '-',
{
    reveal_strlit("--help");
    reveal_strlit("--version");
    reveal_strlit("--watch");
    reveal_strlit("--interval");
    reveal_strlit("--refresh");
    reveal_strlit("--refresh-interval");
    reveal_strlit("--json");
    reveal_strlit("--force-color");
    reveal_strlit("--color");
    reveal_strlit("--no-color");
    reveal_strlit("--no-header");
    reveal_strlit("--no-processes");
    reveal_strlit("--show-cmd");
    reveal_strlit("--show-user");
    reveal_strlit("--show-pid");
    reveal_strlit("--show-all");
    reveal_strlit("--latency-display");
    reveal_strlit("--no-latency");
    reveal_strlit("--hide-latency");
    reveal_strlit("--gpuname-width");
    reveal_strlit("--backend-socket");
    reveal_strlit("--backend-uds");
}

/// An option without a value sets its own field and no other, whatever arguments
/// stand before it.
pub proof fn law_each_option_sets_its_own_field(
    args: Seq<String>,
    seconds: Seq<Seconds>,
    o: CliOptions,
    arg: String,
    s: Seconds,
)
    requires
        args.len() == seconds.len(),
        read(args, seconds) == Ok::<CliOptions, Seq<char>>(o),
    ensures
        ({
            let r = read(args + seq![arg], seconds + seq![s]);
            &&& arg@ == "-c"@ || arg@ == "--show-cmd"@ ==> r == Ok::<CliOptions, Seq<char>>(
                CliOptions { show_cmd: true, ..o },
            )
            &&& arg@ == "-u"@ || arg@ == "--show-user"@ ==> r == Ok::<CliOptions, Seq<char>>(
                CliOptions { show_user: true, ..o },
            )
            &&& arg@ == "-p"@ || arg@ == "--show-pid"@ ==> r == Ok::<CliOptions, Seq<char>>(
                CliOptions { show_pid: true, ..o },
            )
            &&& arg@ == "-a"@ || arg@ == "--show-all"@ ==> r == Ok::<CliOptions, Seq<char>>(
                CliOptions { show_cmd: true, show_user: true, show_pid: true, ..o },
            )
            &&& arg@ == "--json"@ ==> r == Ok::<CliOptions, Seq<char>>(
                CliOptions { json: true, ..o },
            )
            &&& arg@ == "--color"@ || arg@ == "--force-color"@ ==> r == Ok::<
                CliOptions,
                Seq<char>,
            >(CliOptions { force_color: true, ..o })
            &&& arg@ == "--no-color"@ ==> r == Ok::<CliOptions, Seq<char>>(
                CliOptions { no_color: true, ..o },
            )
            &&& arg@ == "--no-header"@ ==> r == Ok::<CliOptions, Seq<char>>(
                CliOptions { show_header: false, ..o },
            )
            &&& arg@ == "--no-processes"@ ==> r == Ok::<CliOptions, Seq<char>>(
                CliOptions { no_processes: true, ..o },
            )
            &&& arg@ == "--no-latency"@ || arg@ == "--hide-latency"@ ==> r == Ok::<
                CliOptions,
                Seq<char>,
            >(CliOptions { latency_display: Some(false), ..o })
            &&& arg@ == "-i"@ || arg@ == "--interval"@ || arg@ == "-w"@ || arg@ == "--watch"@
                || arg@ == "--refresh"@ || arg@ == "--refresh-interval"@ ==> r == Ok::<
                CliOptions,
                Seq<char>,
            >(CliOptions { watch: true, ..o })
        }),
{
    lemma_short_flags();
    lemma_long_flags();
    if is_option(arg@) {
        lemma_options_begin_with_dash(arg@);
        lemma_then(args, seconds, seq![arg], seq![s], o);
        let all = args + seq![arg];
        let secs = seconds + seq![s];
        let n = args.len() as int;
        reveal_with_fuel(after_arguments, 2);
        assert(all.len() == n + 1);
    }
}

/// An option with a value puts that value into its own field and touches no
/// other, whatever arguments stand before it.
pub proof fn law_each_value_goes_into_its_own_field(
    args: Seq<String>,
    seconds: Seq<Seconds>,
    o: CliOptions,
    arg: String,
    value: String,
    s: Seconds,
    t: Seconds,
)
    requires
        args.len() == seconds.len(),
        read(args, seconds) == Ok::<CliOptions, Seq<char>>(o),
    ensures
        ({
            let r = read(args + seq![arg, value], seconds + seq![s, t]);
            &&& arg@ == "-n"@ ==> r == Ok::<CliOptions, Seq<char>>(
                CliOptions { node_filter: Some(value), ..o },
            )
            &&& arg@ == "-user"@ ==> r == Ok::<CliOptions, Seq<char>>(
                CliOptions { user_filter: Some(value), ..o },
            )
            &&& arg@ == "--backend-socket"@ || arg@ == "--backend-uds"@ ==> r == Ok::<
                CliOptions,
                Seq<char>,
            >(CliOptions { backend_socket: Some(value), ..o })
            &&& arg@ == "--gpuname-width"@ ==> (match unsigned_value(value@, usize::MAX as nat) {
                Some(n) => r == Ok::<CliOptions, Seq<char>>(
                    CliOptions { gresname_width: Some(n as usize), ..o },
                ),
                None => r == Err::<CliOptions, Seq<char>>(
                    "--gpuname-width must be a non-negative integer, got '"@ + value@ + "'"@,
                ),
            })
            &&& arg@ == "--latency-display"@ ==> (match bool_of(value@) {
                Ok(b) => r == Ok::<CliOptions, Seq<char>>(
                    CliOptions { latency_display: Some(b), ..o },
                ),
                Err(e) => r == Err::<CliOptions, Seq<char>>(e),
            })
            &&& (arg@ == "-i"@ || arg@ == "--interval"@ || arg@ == "-w"@ || arg@ == "--watch"@
                || arg@ == "--refresh"@ || arg@ == "--refresh-interval"@) && !(value@.len() > 0
                && value@[0] == '-') ==> (match t {
                Seconds::Nanos(n) => r == Ok::<CliOptions, Seq<char>>(
                    CliOptions {
                        watch: true,
                        refresh_interval_ns: if n < 50_000_000 {
                            50_000_000
                        } else {
                            n
                        },
                        ..o
                    },
                ),
                Seconds::NotPositive => r == Err::<CliOptions, Seq<char>>(
                    "refresh interval must be greater than 0"@,
                ),
                Seconds::NotANumber => r == Err::<CliOptions, Seq<char>>(
                    "refresh interval must be seconds, got '"@ + value@ + "'"@,
                ),
            })
        }),
{
    lemma_short_flags();
    lemma_long_flags();
    lemma_dash(value@);
    if is_option(arg@) {
        lemma_options_begin_with_dash(arg@);
        lemma_then(args, seconds, seq![arg, value], seq![s, t], o);
        let all = args + seq![arg, value];
        let secs = seconds + seq![s, t];
        let n = args.len() as int;
        reveal_with_fuel(after_arguments, 2);
        assert(all.len() == n + 2);
    }
}

/// An option that needs a value and stands last is refused, and so is an argument
/// that is no option. Help and the version are answered whatever follows.
pub proof fn law_refused_arguments(
    args: Seq<String>,
    seconds: Seq<Seconds>,
    o: CliOptions,
    tail: Seq<String>,
    more: Seq<Seconds>,
)
    requires
        args.len() == seconds.len(),
        tail.len() == more.len(),
        tail.len() > 0,
        tail[0]@.len() > 0 && tail[0]@[0] == '-',
        read(args, seconds) == Ok::<CliOptions, Seq<char>>(o),
    ensures
        ({
            let r = read(args + tail, seconds + more);
            let arg = tail[0]@;
            &&& arg == "-h"@ || arg == "--help"@ ==> r == Err::<CliOptions, Seq<char>>(usage())
            &&& arg == "-v"@ || arg == "--version"@ ==> r == Err::<CliOptions, Seq<char>>(
                "clustat 1.0.0"@,
            )
            &&& tail.len() == 1 && (arg == "-n"@ || arg == "-user"@ || arg == "--gpuname-width"@
                || arg == "--latency-display"@ || arg == "--backend-socket"@ || arg
                == "--backend-uds"@) ==> r == Err::<CliOptions, Seq<char>>(
                arg + " requires a value"@,
            )
            &&& !(arg == "-h"@ || arg == "--help"@ || arg == "-v"@ || arg == "--version"@ || arg
                == "-n"@ || arg == "-user"@ || arg == "--watch"@ || arg == "-w"@ || arg
                == "--interval"@ || arg == "--refresh"@ || arg == "--refresh-interval"@ || arg
                == "-i"@ || arg == "--json"@ || arg == "--force-color"@ || arg == "--color"@ || arg
                == "--no-color"@ || arg == "--no-header"@ || arg == "--no-processes"@ || arg
                == "-c"@ || arg == "--show-cmd"@ || arg == "-u"@ || arg == "--show-user"@ || arg
                == "-p"@ || arg == "--show-pid"@ || arg == "-a"@ || arg == "--show-all"@ || arg
                == "--latency-display"@ || arg == "--no-latency"@ || arg == "--hide-latency"@ || arg
                == "--gpuname-width"@ || arg == "--backend-socket"@ || arg == "--backend-uds"@)
                ==> r == Err::<CliOptions, Seq<char>>("unsupported arg: "@ + arg)
        }),
{
    lemma_short_flags();
    lemma_long_flags();
    lemma_then(args, seconds, tail, more, o);
    assert((args + tail).len() == args.len() + tail.len());
}

/// An argument in the place of an option that does not begin with a dash is no
/// option.
pub proof fn law_options_begin_with_a_dash(tail: Seq<String>, more: Seq<Seconds>)
    requires
        tail.len() > 0,
        !(tail[0]@.len() > 0 && tail[0]@[0] == '-'),
    ensures
        read(tail, more) == Err::<CliOptions, Seq<char>>("unsupported arg: "@ + tail[0]@),
{
    if is_option(tail[0]@) {
        lemma_options_begin_with_dash(tail[0]@);
    }
}

proof fn lemma_lowered_bool()
    ensures
        lowered("1"@) == "1"@,
        lowered("true"@) == "true"@,
        lowered("yes"@) == "yes"@,
        lowered("on"@) == "on"@,
        lowered("0"@) == "0"@,
        lowered("false"@) == "false"@,
        lowered("no"@) == "no"@,
        lowered("off"@) == "off"@,
{
    reveal_strlit("1");
    reveal_strlit("true");
    reveal_strlit("yes");
    reveal_strlit("on");
    reveal_strlit("0");
    reveal_strlit("false");
    reveal_strlit("no");
    reveal_strlit("off");
    assert(lowered("1"@) =~= "1"@);
    assert(lowered("true"@) =~= "true"@);
    assert(lowered("yes"@) =~= "yes"@);
    assert(lowered("on"@) =~= "on"@);
    assert(lowered("0"@) =~= "0"@);
    assert(lowered("false"@) =~= "false"@);
    assert(lowered("no"@) =~= "no"@);
    assert(lowered("off"@) =~= "off"@);
}

/// `1`, `true`, `yes` and `on` switch on, `0`, `false`, `no` and `off` switch off,
/// in any letters and with white space around them; nothing else is a switch.
pub proof fn law_switches(raw: Seq<char>)
    ensures
        ({
            let s = lowered(trimmed(raw));
            let on = s == lowered("1"@) || s == lowered("true"@) || s == lowered("yes"@) || s
                == lowered("on"@);
            let off = s == lowered("0"@) || s == lowered("false"@) || s == lowered("no"@) || s
                == lowered("off"@);
            &&& on ==> bool_of(raw) == Ok::<bool, Seq<char>>(true)
            &&& off ==> bool_of(raw) == Ok::<bool, Seq<char>>(false)
            &&& !on && !off ==> bool_of(raw) == Err::<bool, Seq<char>>(
                "boolean value expected, got '"@ + raw + "'"@,
            )
        }),
{
    lemma_lowered_bool();
    reveal_strlit("1");
    reveal_strlit("true");
    reveal_strlit("yes");
    reveal_strlit("on");
    reveal_strlit("0");
    reveal_strlit("false");
    reveal_strlit("no");
    reveal_strlit("off");
    assert("1"@[0] == '1' && "0"@[0] == '0');
    assert("on"@[0] == 'o' && "no"@[0] == 'n');
    assert("yes"@[0] == 'y' && "off"@[0] == 'o');
}

} // verus!
