//! Laws of watching a cluster.

use vstd::prelude::*;
use crate::cli::args::CliOptions;
use crate::cli::backend::QueryResponse;
use crate::cli::refresh::{
    all_go_on, run_outcome, screen_start, shows, step_after, step_at, LoopStep,
};
use crate::cli::render::{json_outcome, table_text, Lookups, RenderOptions};
use crate::common::snapshot::opt_text;

verus! {

/// Watching clears the screen before each round.
pub proof fn law_screen_start()
    ensures
        screen_start(false) == Seq::<char>::empty(),
        screen_start(true) == seq!['\x1b', '[', '2', 'J', '\x1b', '[', 'H'],
{
    reveal_strlit("\x1b[2J\x1b[H");
    assert("\x1b[2J\x1b[H"@ =~= seq!['\x1b', '[', '2', 'J', '\x1b', '[', 'H']);
}

/// A round shows the answer as JSON and a line feed if that is asked for, and else as the
/// table for the user that is asked for.
pub proof fn law_what_a_round_shows<
    T: Fn(&QueryResponse) -> Lookups,
    J: Fn(&QueryResponse) -> Result<String, String>,
>(
    opts: CliOptions,
    render_opts: RenderOptions,
    lookup: T,
    encode: J,
    resp: QueryResponse,
    text: Seq<char>,
)
    requires
        shows(opts, render_opts, lookup, encode, resp, text),
        !opts.watch,
    ensures
        opts.json ==> exists|json: String| #[trigger]
            call_ensures(encode, (&resp,), Ok::<String, String>(json)) && text == json@ + seq![
                '\n',
            ],
        !opts.json ==> exists|l: Lookups| #[trigger]
            call_ensures(lookup, (&resp,), l) && text == table_text(
                resp,
                opt_text(opts.user_filter),
                render_opts,
                l,
            ),
{
    reveal_strlit("\n");
    assert("\n"@ =~= seq!['\n']);
    law_screen_start();
    let none = Seq::<char>::empty();
    if opts.json {
        let shown = choose|json: String| #[trigger]
            json_outcome(resp, encode, Ok::<String, String>(json)) && text == screen_start(
                opts.watch,
            ) + json@;
        assert(none + shown@ =~= shown@);
        let encoded = choose|encoded: Result<String, String>| #[trigger]
            call_ensures(encode, (&resp,), encoded) && match encoded {
                Ok(json) => shown@ == json@ + "\n"@,
                Err(e) => false,
            };
        assert(call_ensures(encode, (&resp,), Ok::<String, String>(encoded->Ok_0)));
    } else {
        let l = choose|l: Lookups| #[trigger]
            call_ensures(lookup, (&resp,), l) && text == screen_start(opts.watch) + table_text(
                resp,
                opt_text(opts.user_filter),
                render_opts,
                l,
            );
        assert(none + text =~= text);
        assert(none + table_text(resp, opt_text(opts.user_filter), render_opts, l) =~= table_text(
            resp,
            opt_text(opts.user_filter),
            render_opts,
            l,
        ));
    }
}

/// What cannot be encoded is refused with the reason.
pub proof fn law_json_that_fails<E: Fn(&QueryResponse) -> Result<String, String>>(
    resp: QueryResponse,
    encode: E,
    e: String,
)
    requires
        json_outcome(resp, encode, Err::<String, String>(e)),
    ensures
        exists|reason: String| #[trigger]
            call_ensures(encode, (&resp,), Err::<String, String>(reason)) && e@
                == "encode JSON output failed: "@ + reason@,
{
    let encoded = choose|encoded: Result<String, String>| #[trigger]
        call_ensures(encode, (&resp,), encoded) && match encoded {
            Ok(json) => false,
            Err(x) => e@ == "encode JSON output failed: "@ + x@,
        };
    assert(call_ensures(encode, (&resp,), Err::<String, String>(encoded->Err_0)));
}

/// After a round that was shown: without watching that was all; with it the next comes after
/// the interval, until there were as many as allowed. A screen that is gone ends it, and a
/// failure is handed on.
pub proof fn law_after_a_round(opts: CliOptions, limit: Option<usize>, rounds: usize, e: String)
    requires
        rounds < usize::MAX - 1,
    ensures
        step_after(opts, limit, rounds, Err(e)) == (rounds, LoopStep::Failed(e)),
        step_after(opts, limit, rounds, Ok(false)) == (rounds, LoopStep::Done(rounds)),
        ({
            let (n, step) = step_after(opts, limit, rounds, Ok(true));
            let reached = limit is Some && rounds + 1 >= limit->0;
            &&& n == rounds + 1
            &&& !opts.watch || reached ==> step == LoopStep::Done((rounds + 1) as usize)
            &&& opts.watch && !reached ==> step == LoopStep::Sleep(opts.refresh_interval_ns)
        }),
{
}

/// A run that ends well has shown as many rounds as it says, one if nothing is watched, and
/// never more than allowed.
pub proof fn law_rounds_of_a_run<
    F: Fn(usize) -> Result<QueryResponse, String>,
    J: Fn(&QueryResponse) -> Result<String, String>,
>(
    opts: CliOptions,
    limit: Option<usize>,
    fetch: F,
    encode: J,
    written: Seq<Result<bool, String>>,
    n: usize,
)
    requires
        run_outcome(opts, limit, fetch, encode, written, Ok::<usize, String>(n)),
        written.len() < usize::MAX,
    ensures
        written.len() > 0,
        written.last() is Ok,
        written.last()->Ok_0 ==> n == written.len(),
        !written.last()->Ok_0 ==> n == written.len() - 1,
        !opts.watch ==> written.len() == 1,
        limit is Some && limit->0 > 0 ==> written.len() <= limit->0,
        forall|i: int|
            0 <= i < written.len() - 1 ==> #[trigger] written[i] == Ok::<bool, String>(true),
{
    let init = written.drop_last();
    let k = written.len() - 1;
    assert(all_go_on(opts, limit, init));
    assert forall|i: int| 0 <= i < k implies #[trigger] written[i] == Ok::<bool, String>(true) by {
        assert(init[i] == written[i]);
        assert(step_at(opts, limit, init, i) == LoopStep::Sleep(opts.refresh_interval_ns));
    }
    if k > 0 {
        assert(init[k - 1] == written[k - 1]);
        assert(step_at(opts, limit, init, k - 1) == LoopStep::Sleep(opts.refresh_interval_ns));
    }
}

} // verus!
