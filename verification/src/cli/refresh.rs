//! Asking the backend and showing its answer, once or again and again.

use vstd::prelude::*;
use crate::cli::args::CliOptions;
use crate::cli::backend::QueryResponse;
use crate::cli::render::{
    json_outcome, layout, render_json, table_text, wanted_user, IncrementalRenderer, Lookups,
    RenderOptions,
};
use crate::common::snapshot::opt_text;

verus! {

/// What stands before each answer that is watched: the screen is cleared.
pub open spec fn screen_start(watch: bool) -> Seq<char> {
    if watch {
        "\x1b[2J\x1b[H"@
    } else {
        Seq::empty()
    }
}

/// Whether `text` is what is put out for an answer.
pub open spec fn shows<
    T: Fn(&QueryResponse) -> Lookups,
    J: Fn(&QueryResponse) -> Result<String, String>,
>(
    opts: CliOptions,
    render_opts: RenderOptions,
    lookup: T,
    encode: J,
    resp: QueryResponse,
    text: Seq<char>,
) -> bool {
    if opts.json {
        exists|json: String| #[trigger]
            json_outcome(resp, encode, Ok::<String, String>(json)) && text == screen_start(
                opts.watch,
            ) + json@
    } else {
        exists|l: Lookups| #[trigger]
            call_ensures(lookup, (&resp,), l) && text == screen_start(opts.watch) + table_text(
                resp,
                opt_text(opts.user_filter),
                render_opts,
                l,
            )
    }
}

/// The text that is put out for an answer.
pub fn round_text<
    T: Fn(&QueryResponse) -> Lookups,
    J: Fn(&QueryResponse) -> Result<String, String>,
>(
    opts: &CliOptions,
    render_opts: &RenderOptions,
    renderer: &mut IncrementalRenderer,
    resp: &QueryResponse,
    lookup: &T,
    encode: &J,
) -> (r: Result<String, String>)
    requires
        call_requires(*lookup, (resp,)),
        call_requires(*encode, (resp,)),
        forall|l: Lookups| #[trigger]
            call_ensures(*lookup, (resp,), l) ==> l.nodes@.len() == resp.nodes@.len(),
    ensures
        match r {
            Ok(text) => shows(*opts, *render_opts, *lookup, *encode, *resp, text@),
            Err(e) => opts.json && json_outcome(*resp, *encode, Err::<String, String>(e)),
        },
        opts.json ==> final(renderer)@ == old(renderer)@,
        !opts.json ==> exists|l: Lookups| #[trigger]
            call_ensures(*lookup, (resp,), l) && final(renderer)@ == layout(
                resp.nodes@,
                wanted_user(opt_text(opts.user_filter)),
                l.names@,
                resp.nodes@.len() as int,
            ),
{
    let user_filter: Option<&str> = match &opts.user_filter {
        Some(s) => Some(s.as_str()),
        None => None,
    };
    let mut out = if opts.watch {
        "\x1b[2J\x1b[H".to_owned()
    } else {
        String::new()
    };
    assert(out@ =~= screen_start(opts.watch));
    if opts.json {
        let rendered = render_json(resp, encode);
        assert(json_outcome(*resp, *encode, rendered));
        match rendered {
            Ok(json) => out.append(json.as_str()),
            Err(e) => {
                return Err(e);
            },
        }
    } else {
        let l = lookup(resp);
        assert(call_ensures(*lookup, (resp,), l));
        let table = renderer.render_full(resp, user_filter, render_opts, &l);
        out.append(table.as_str());
    }
    Ok(out)
}

/// What comes after a round.
#[derive(Debug, PartialEq, Eq)]
pub enum LoopStep {
    /// Wait for that many nanoseconds, and ask again.
    Sleep(u128),
    /// That many rounds were shown, and no more come.
    Done(usize),
    Failed(String),
}

/// Whether the loop ends after `rounds` rounds.
pub open spec fn last_round(watch: bool, max_rounds: Option<usize>, rounds: usize) -> bool {
    !watch || rounds == usize::MAX || (max_rounds matches Some(max) && rounds >= max)
}

/// How many rounds were shown and what comes next, when `rounds` were shown
/// before and the text of another was written with the given outcome.
pub open spec fn step_after(
    opts: CliOptions,
    max_rounds: Option<usize>,
    rounds: usize,
    written: Result<bool, String>,
) -> (usize, LoopStep) {
    match written {
        Err(e) => (rounds, LoopStep::Failed(e)),
        Ok(goes_on) => if !goes_on {
            (rounds, LoopStep::Done(rounds))
        } else if last_round(opts.watch, max_rounds, (rounds + 1) as usize) {
            ((rounds + 1) as usize, LoopStep::Done((rounds + 1) as usize))
        } else {
            ((rounds + 1) as usize, LoopStep::Sleep(opts.refresh_interval_ns))
        },
    }
}

/// How many rounds were shown and what comes next. `written` says how the text
/// of the last round was written, and whether anyone reads on.
pub fn after_write(
    opts: &CliOptions,
    max_rounds: Option<usize>,
    rounds: usize,
    written: Result<bool, String>,
) -> (r: (usize, LoopStep))
    requires
        rounds < usize::MAX,
    ensures
        r == step_after(*opts, max_rounds, rounds, written),
{
    match written {
        Err(e) => (rounds, LoopStep::Failed(e)),
        Ok(goes_on) => {
            if !goes_on {
                return (rounds, LoopStep::Done(rounds));
            }
            let shown: usize = rounds + 1;
            let enough = match max_rounds {
                Some(max) => shown >= max,
                None => false,
            };
            if !opts.watch || enough || shown == usize::MAX {
                (shown, LoopStep::Done(shown))
            } else {
                (shown, LoopStep::Sleep(opts.refresh_interval_ns))
            }
        },
    }
}

/// What comes after the round of the given number, counted from zero, where all
/// rounds ahead of it were shown.
pub open spec fn step_at(
    opts: CliOptions,
    max_rounds: Option<usize>,
    written: Seq<Result<bool, String>>,
    i: int,
) -> LoopStep {
    step_after(opts, max_rounds, i as usize, written[i]).1
}

/// Whether the loop goes on after each of the rounds, given how they were
/// written.
pub open spec fn all_go_on(
    opts: CliOptions,
    max_rounds: Option<usize>,
    written: Seq<Result<bool, String>>,
) -> bool {
    &&& written.len() < usize::MAX
    &&& forall|i: int|
        0 <= i < written.len() ==> #[trigger] step_at(opts, max_rounds, written, i)
            == LoopStep::Sleep(opts.refresh_interval_ns)
}

/// Whether these are the rounds of a whole run: the loop sleeps after each but
/// the last, and ends after that.
pub open spec fn whole_run(
    opts: CliOptions,
    max_rounds: Option<usize>,
    written: Seq<Result<bool, String>>,
) -> bool {
    &&& written.len() > 0
    &&& all_go_on(opts, max_rounds, written.drop_last())
    &&& !(step_at(opts, max_rounds, written, written.len() - 1) is Sleep)
}

/// A watch that is never cut off goes on for as many rounds as it is limited
/// to, and sleeps for the interval between any two of them; without a watch
/// there is one round.
pub proof fn law_run_has_its_rounds(
    opts: CliOptions,
    max_rounds: Option<usize>,
    written: Seq<Result<bool, String>>,
)
    requires
        whole_run(opts, max_rounds, written),
        forall|i: int| 0 <= i < written.len() ==> #[trigger] written[i] == Ok::<bool, String>(true),
    ensures
        step_at(opts, max_rounds, written, written.len() - 1) == LoopStep::Done(
            written.len() as usize,
        ),
        forall|i: int|
            0 <= i < written.len() - 1 ==> #[trigger] step_at(opts, max_rounds, written, i)
                == LoopStep::Sleep(opts.refresh_interval_ns),
        !opts.watch ==> written.len() == 1,
        opts.watch ==> (max_rounds matches Some(max) ==> written.len() == (if max == 0 {
            1
        } else {
            max as nat
        })),
        opts.watch && max_rounds is None ==> written.len() == usize::MAX,
{
    let n = written.len();
    assert(written[n - 1] == Ok::<bool, String>(true));
    assert forall|i: int| 0 <= i < n - 1 implies #[trigger] step_at(opts, max_rounds, written, i)
        == LoopStep::Sleep(opts.refresh_interval_ns) by {
        assert(written.drop_last()[i] == written[i]);
        assert(step_at(opts, max_rounds, written.drop_last(), i) == LoopStep::Sleep(
            opts.refresh_interval_ns,
        ));
    }
    if n > 1 {
        assert(step_at(opts, max_rounds, written, n - 2) is Sleep);
        assert(written[n - 2] == Ok::<bool, String>(true));
        assert(!last_round(opts.watch, max_rounds, (n - 1) as usize));
    }
}

/// Whether the round of the given number can be one in which its own answer was
/// fetched and the text of that answer written, with the given outcome.
pub open spec fn round_shown<
    F: Fn(usize) -> Result<QueryResponse, String>,
    W: Fn(usize, &str) -> Result<bool, String>,
    T: Fn(&QueryResponse) -> Lookups,
    J: Fn(&QueryResponse) -> Result<String, String>,
>(
    opts: CliOptions,
    render_opts: RenderOptions,
    fetch: F,
    write: W,
    lookup: T,
    encode: J,
    round: usize,
    written: Result<bool, String>,
) -> bool {
    exists|resp: QueryResponse, text: &str| #[trigger]
        call_ensures(fetch, (round,), Ok::<QueryResponse, String>(resp)) && #[trigger] call_ensures(
            write,
            (round, text),
            written,
        ) && shows(opts, render_opts, lookup, encode, resp, text@)
}

/// Whether the round of the given number can be one in which nothing was
/// written: there is no answer, or it has no JSON form.
pub open spec fn nothing_to_show<
    F: Fn(usize) -> Result<QueryResponse, String>,
    J: Fn(&QueryResponse) -> Result<String, String>,
>(opts: CliOptions, fetch: F, encode: J, round: usize, e: String) -> bool {
    ||| call_ensures(fetch, (round,), Err::<QueryResponse, String>(e))
    ||| opts.json && exists|resp: QueryResponse| #[trigger]
        call_ensures(fetch, (round,), Ok::<QueryResponse, String>(resp)) && json_outcome(
            resp,
            encode,
            Err::<String, String>(e),
        )
}

/// Whether the sleep after the round of the given number can have been made.
pub open spec fn slept_after<S: Fn(usize, u128)>(sleep: S, ns: u128, round: int) -> bool {
    call_ensures(sleep, (round as usize, ns), ())
}

/// Whether `r` is the outcome of a run whose rounds were written as `written`:
/// the run is whole, or a round follows in which nothing was written.
pub open spec fn run_outcome<
    F: Fn(usize) -> Result<QueryResponse, String>,
    J: Fn(&QueryResponse) -> Result<String, String>,
>(
    opts: CliOptions,
    max_rounds: Option<usize>,
    fetch: F,
    encode: J,
    written: Seq<Result<bool, String>>,
    r: Result<usize, String>,
) -> bool {
    let last = step_at(opts, max_rounds, written, written.len() - 1);
    match r {
        Ok(n) => whole_run(opts, max_rounds, written) && last == LoopStep::Done(n),
        Err(e) => {
            ||| whole_run(opts, max_rounds, written) && last == LoopStep::Failed(e)
            ||| all_go_on(opts, max_rounds, written) && nothing_to_show(
                opts,
                fetch,
                encode,
                written.len() as usize,
                e,
            )
        },
    }
}

/// Asks the backend and shows its answer: once, or for as long as it is
/// watched, at most `max_rounds` times, and no more often than can be counted.
/// The outside is behind functions: `fetch` asks the backend, `sleep` waits for
/// the refresh interval, `write` puts a text out and says whether anyone reads
/// on, `lookup` gives what only the machine knows of an answer, and `encode`
/// writes one as JSON. The first three are told the number of the round, counted
/// from zero: every round has a fetch, a text and, unless it is the last, a
/// sleep of its own. The result is the number of rounds.
pub fn run_refresh_loop<
    F: Fn(usize) -> Result<QueryResponse, String>,
    S: Fn(usize, u128),
    W: Fn(usize, &str) -> Result<bool, String>,
    T: Fn(&QueryResponse) -> Lookups,
    J: Fn(&QueryResponse) -> Result<String, String>,
>(
    opts: &CliOptions,
    render_opts: &RenderOptions,
    fetch: &F,
    max_rounds: Option<usize>,
    sleep: &S,
    write: &W,
    lookup: &T,
    encode: &J,
) -> (r: Result<usize, String>)
    requires
        forall|n: usize| #[trigger] call_requires(*fetch, (n,)),
        forall|n: usize| #[trigger] call_requires(*sleep, (n, opts.refresh_interval_ns)),
        forall|n: usize, s: &str| #[trigger] call_requires(*write, (n, s)),
        forall|resp: &QueryResponse| #[trigger] call_requires(*lookup, (resp,)),
        forall|resp: &QueryResponse| #[trigger] call_requires(*encode, (resp,)),
        forall|resp: &QueryResponse, l: Lookups| #[trigger]
            call_ensures(*lookup, (resp,), l) ==> l.nodes@.len() == resp.nodes@.len(),
    ensures
        exists|written: Seq<Result<bool, String>>|
            {
                &&& #[trigger] run_outcome(*opts, max_rounds, *fetch, *encode, written, r)
                &&& forall|i: int|
                    0 <= i < written.len() ==> round_shown(
                        *opts,
                        *render_opts,
                        *fetch,
                        *write,
                        *lookup,
                        *encode,
                        i as usize,
                        #[trigger] written[i],
                    )
                &&& forall|i: int|
                    0 <= i < written.len() - 1 ==> #[trigger] slept_after(
                        *sleep,
                        opts.refresh_interval_ns,
                        i,
                    )
                &&& all_go_on(*opts, max_rounds, written) && written.len() > 0 ==> slept_after(
                    *sleep,
                    opts.refresh_interval_ns,
                    written.len() - 1,
                )
            },
{
    let mut renderer = IncrementalRenderer::default();
    let mut rounds: usize = 0;
    let ghost mut all: Seq<Result<bool, String>> = Seq::empty();
    loop
        invariant
            forall|n: usize| #[trigger] call_requires(*fetch, (n,)),
            forall|n: usize| #[trigger] call_requires(*sleep, (n, opts.refresh_interval_ns)),
            forall|n: usize, s: &str| #[trigger] call_requires(*write, (n, s)),
            forall|resp: &QueryResponse| #[trigger] call_requires(*lookup, (resp,)),
            forall|resp: &QueryResponse| #[trigger] call_requires(*encode, (resp,)),
            forall|resp: &QueryResponse, l: Lookups| #[trigger]
                call_ensures(*lookup, (resp,), l) ==> l.nodes@.len() == resp.nodes@.len(),
            rounds == all.len(),
            rounds < usize::MAX,
            all_go_on(*opts, max_rounds, all),
            forall|i: int|
                0 <= i < all.len() ==> round_shown(
                    *opts,
                    *render_opts,
                    *fetch,
                    *write,
                    *lookup,
                    *encode,
                    i as usize,
                    #[trigger] all[i],
                ),
            forall|i: int|
                0 <= i < all.len() ==> #[trigger] slept_after(
                    *sleep,
                    opts.refresh_interval_ns,
                    i,
                ),
        decreases usize::MAX - rounds,
    {
        let resp = match fetch(rounds) {
            Ok(resp) => resp,
            Err(e) => {
                assert(nothing_to_show(*opts, *fetch, *encode, rounds, e));
                assert(run_outcome(*opts, max_rounds, *fetch, *encode, all, Err(e)));
                return Err(e);
            },
        };
        assert(call_ensures(*fetch, (rounds,), Ok::<QueryResponse, String>(resp)));
        let out = match round_text(opts, render_opts, &mut renderer, &resp, lookup, encode) {
            Ok(out) => out,
            Err(e) => {
                assert(nothing_to_show(*opts, *fetch, *encode, rounds, e));
                assert(run_outcome(*opts, max_rounds, *fetch, *encode, all, Err(e)));
                return Err(e);
            },
        };
        let text: &str = out.as_str();
        let written = write(rounds, text);
        assert(call_ensures(*write, (rounds, text), written));
        let ghost before = all;
        proof {
            all = all.push(written);
            assert(all.drop_last() =~= before);
        }
        let (shown, step) = after_write(opts, max_rounds, rounds, written);
        assert(step == step_at(*opts, max_rounds, all, all.len() - 1));
        match step {
            LoopStep::Sleep(ns) => {
                proof {
                    assert forall|i: int| 0 <= i < all.len() implies #[trigger] step_at(
                        *opts,
                        max_rounds,
                        all,
                        i,
                    ) == LoopStep::Sleep(opts.refresh_interval_ns) by {
                        if i < before.len() {
                            assert(step_at(*opts, max_rounds, before, i) == LoopStep::Sleep(
                                opts.refresh_interval_ns,
                            ));
                        }
                    }
                }
                sleep(rounds, ns);
                assert(slept_after(*sleep, opts.refresh_interval_ns, rounds as int));
                rounds = shown;
            },
            LoopStep::Done(n) => {
                assert(run_outcome(*opts, max_rounds, *fetch, *encode, all, Ok(n)));
                return Ok(n);
            },
            LoopStep::Failed(e) => {
                assert(run_outcome(*opts, max_rounds, *fetch, *encode, all, Err(e)));
                return Err(e);
            },
        }
    }
}

} // verus!
