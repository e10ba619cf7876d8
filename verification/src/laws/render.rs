//! Laws of the table on the terminal.

use vstd::prelude::*;
use crate::cli::backend::{GresView, NodeView, ProcessView, QueryResponse};
use crate::cli::render::{
    command_shown, delay_column, delay_text, driver_text, gres_name, gres_wanted, header_text,
    header_width, layout, name_column, name_len, name_text, node_text, nodes_text, opt_processes,
    owner_name, painted, process_text, process_wanted, processes_column, processes_text, row_text,
    rows_text, shortened, shown_count, table_text, temperature_column, temperature_text, time_text,
    util_column, wanted_user, widest, widest_on, Lookups, NodeTexts, RenderOptions,
};
use crate::client::adapter::user_name;
use crate::common::snapshot::opt_text;
use crate::text::{begins, decimal, ends, occurs, occurs_at, padded_left, padded_right, trimmed};

verus! {

// ---------------------------------------------------------------------------
// Texts in texts

pub proof fn lemma_assoc(a: Seq<char>, b: Seq<char>, c: Seq<char>)
    ensures
        (a + b) + c == a + (b + c),
{
    assert((a + b) + c =~= a + (b + c));
}

pub proof fn lemma_occurs_self(s: Seq<char>)
    ensures
        occurs(s, s),
        begins(s, s),
        ends(s, s),
{
    assert(s.subrange(0, s.len() as int) =~= s);
    assert(occurs_at(s, s, 0));
}

/// What occurs in a text occurs in what the text is part of.
pub proof fn lemma_occurs_in(a: Seq<char>, s: Seq<char>, b: Seq<char>, pat: Seq<char>)
    requires
        occurs(s, pat),
    ensures
        occurs(a + s, pat),
        occurs(s + b, pat),
        occurs(a + s + b, pat),
{
    let i = choose|i: int| occurs_at(s, pat, i);
    let n = a.len() as int;
    let m = pat.len() as int;
    assert(s.subrange(i, i + m) == pat);
    assert((a + s).subrange(n + i, n + i + m) =~= s.subrange(i, i + m));
    assert(occurs_at(a + s, pat, n + i));
    assert((s + b).subrange(i, i + m) =~= s.subrange(i, i + m));
    assert(occurs_at(s + b, pat, i));
    assert((a + s + b).subrange(n + i, n + i + m) =~= s.subrange(i, i + m));
    assert(occurs_at(a + s + b, pat, n + i));
}

/// A text occurs where it was put.
pub proof fn lemma_occurs_put(a: Seq<char>, s: Seq<char>, b: Seq<char>)
    ensures
        occurs(a + s, s),
        occurs(s + b, s),
        occurs(a + s + b, s),
{
    lemma_occurs_self(s);
    lemma_occurs_in(a, s, b, s);
}

/// Colour puts marks around a text, and nothing without it.
pub proof fn law_painted(code: Seq<char>, text: Seq<char>)
    ensures
        painted(false, code, text) == text,
        painted(true, code, text) == seq!['\x1b', '['] + code + seq!['m'] + text + seq![
            '\x1b',
            '[',
            '0',
            ';',
            '1',
            '0',
            'm',
        ],
        forall|on: bool| occurs(#[trigger] painted(on, code, text), text),
{
    reveal_strlit("\x1b[");
    reveal_strlit("m");
    reveal_strlit("\x1b[0;10m");
    assert("\x1b["@ =~= seq!['\x1b', '[']);
    assert("m"@ =~= seq!['m']);
    assert("\x1b[0;10m"@ =~= seq!['\x1b', '[', '0', ';', '1', '0', 'm']);
    assert forall|on: bool| occurs(#[trigger] painted(on, code, text), text) by {
        lemma_occurs_put("\x1b["@ + code + "m"@, text, "\x1b[0;10m"@);
        lemma_occurs_self(text);
    }
}

// ---------------------------------------------------------------------------
// Users

/// The owner of a process is the name that came with it, without white space
/// around it; without one, user zero is `root`, and others are looked up.
pub proof fn law_owner(p: ProcessView, names: Map<u32, String>)
    ensures
        trimmed(p.username@).len() > 0 && trimmed(p.username@) != seq!['?'] ==> owner_name(p, names)
            == trimmed(p.username@),
        (trimmed(p.username@).len() == 0 || trimmed(p.username@) == seq!['?']) && p.uid == 0
            ==> owner_name(p, names) == seq!['r', 'o', 'o', 't'],
        (trimmed(p.username@).len() == 0 || trimmed(p.username@) == seq!['?']) && p.uid != 0
            ==> owner_name(p, names) == user_name(p.uid, names),
{
    reveal_strlit("?");
    reveal_strlit("root");
    assert("?"@ =~= seq!['?']);
    assert("root"@ =~= seq!['r', 'o', 'o', 't']);
}

/// A blank user filter asks for nobody; any other asks for the user of that name.
pub proof fn law_user_asked_for(s: Seq<char>)
    ensures
        wanted_user(None) is None,
        wanted_user(Some(s)) is None <==> trimmed(s).len() == 0,
        trimmed(s).len() > 0 ==> wanted_user(Some(s)) == Some(trimmed(s)),
{
}

/// Without a user every resource and process is shown. With one, a process is
/// shown if it is that user's, and a resource if one of its processes is, or if
/// its processes are not known.
pub proof fn law_what_is_shown(
    g: GresView,
    p: ProcessView,
    user: Seq<char>,
    names: Map<u32, String>,
)
    ensures
        process_wanted(p, None, names),
        process_wanted(p, Some(user), names) <==> owner_name(p, names) == user,
        gres_wanted(g, None, names),
        g.processes is None ==> gres_wanted(g, Some(user), names),
        g.processes matches Some(v) ==> (gres_wanted(g, Some(user), names) <==> exists|i: int|
            0 <= i < v@.len() && owner_name(#[trigger] v@[i], names) == user),
{
    if let Some(v) = g.processes {
        if gres_wanted(g, Some(user), names) {
            let i = choose|i: int|
                0 <= i < v@.len() && process_wanted(#[trigger] v@[i], Some(user), names);
            assert(owner_name(v@[i], names) == user);
        }
        if exists|i: int| 0 <= i < v@.len() && owner_name(#[trigger] v@[i], names) == user {
            let i = choose|i: int|
                0 <= i < v@.len() && owner_name(#[trigger] v@[i], names) == user;
            assert(process_wanted(v@[i], Some(user), names));
        }
    }
}

// ---------------------------------------------------------------------------
// Processes

proof fn lemma_processes_start(
    v: Seq<ProcessView>,
    w: Seq<ProcessView>,
    user: Option<Seq<char>>,
    opts: RenderOptions,
    names: Map<u32, String>,
    n: int,
)
    requires
        n <= v.len(),
        n <= w.len(),
        forall|i: int| 0 <= i < n ==> v[i] == w[i],
    ensures
        processes_text(v, user, opts, names, n) == processes_text(w, user, opts, names, n),
    decreases n,
{
    if n > 0 {
        lemma_processes_start(v, w, user, opts, names, n - 1);
    }
}

/// The processes of a resource are written one after the other, each wanted one
/// behind a blank: one more wanted process adds a blank and its text to what stands
/// there, and one that is not wanted adds nothing.
pub proof fn law_one_more_process_is_written(
    v: Seq<ProcessView>,
    p: ProcessView,
    user: Option<Seq<char>>,
    opts: RenderOptions,
    names: Map<u32, String>,
)
    ensures
        ({
            let before = processes_text(v, user, opts, names, v.len() as int);
            let after = processes_text(v.push(p), user, opts, names, v.len() as int + 1);
            &&& process_wanted(p, user, names) ==> after == before + seq![' '] + process_text(
                p,
                opts,
                names,
            )
            &&& !process_wanted(p, user, names) ==> after == before
        }),
        processes_text(Seq::empty(), user, opts, names, 0) == Seq::<char>::empty(),
{
    reveal_strlit(" ");
    assert(" "@ =~= seq![' ']);
    lemma_processes_start(v, v.push(p), user, opts, names, v.len() as int);
}

proof fn lemma_process_occurs(
    v: Seq<ProcessView>,
    user: Option<Seq<char>>,
    opts: RenderOptions,
    names: Map<u32, String>,
    n: int,
    i: int,
)
    requires
        0 <= i < n <= v.len(),
        process_wanted(v[i], user, names),
    ensures
        occurs(
            processes_text(v, user, opts, names, n),
            seq![' '] + process_text(v[i], opts, names),
        ),
    decreases n,
{
    reveal_strlit(" ");
    assert(" "@ =~= seq![' ']);
    let before = processes_text(v, user, opts, names, n - 1);
    let text = process_text(v[n - 1], opts, names);
    let pat = seq![' '] + process_text(v[i], opts, names);
    if i == n - 1 {
        lemma_assoc(before, seq![' '], text);
        lemma_occurs_put(before, seq![' '] + text, Seq::empty());
    } else {
        lemma_process_occurs(v, user, opts, names, n - 1, i);
        if process_wanted(v[n - 1], user, names) {
            lemma_assoc(before, seq![' '], text);
            lemma_occurs_in(Seq::empty(), before, seq![' '] + text, pat);
        }
    }
}

/// Every wanted process of a resource stands in its row, unless processes are left
/// out.
pub proof fn law_every_process_stands_in_the_row(
    g: GresView,
    user: Option<Seq<char>>,
    width: nat,
    opts: RenderOptions,
    names: Map<u32, String>,
    i: int,
)
    requires
        g.processes is Some,
        0 <= i < g.processes->0@.len(),
        process_wanted(g.processes->0@[i], user, names),
        !opts.no_processes,
    ensures
        occurs(
            row_text(g, user, width, opts, names),
            seq![' '] + process_text(g.processes->0@[i], opts, names),
        ),
{
    let v = g.processes->0@;
    let pat = seq![' '] + process_text(v[i], opts, names);
    let list = processes_text(v, user, opts, names, v.len() as int);
    lemma_process_occurs(v, user, opts, names, v.len() as int, i);
    lemma_occurs_in(" |"@, list, Seq::empty(), pat);
    let column = processes_column(opt_processes(g.processes), user, opts, names);
    assert(column == " |"@ + list);
    let front = painted(opts.color, "36"@, "["@ + decimal(g.index as nat) + "]"@) + " "@
        + name_text(g.name@, width, opts) + temperature_column(g.temperature_c, opts.color) + ", "@
        + util_column(g.util, opts.color) + " | "@ + painted(
        opts.color,
        "1;33"@,
        padded_right(decimal(g.mem_used_mb as nat), 5),
    ) + " / "@ + painted(opts.color, "33"@, padded_right(decimal(g.mem_total_mb as nat), 5))
        + " MB"@;
    assert(row_text(g, user, width, opts, names) == front + column + "\n"@);
    lemma_occurs_in(front, column, "\n"@, pat);
}

/// What is written of a process without colour: its owner, unless only its command
/// is asked for; its command behind a colon, if it is asked for; its pid behind a
/// slash, if it is asked for; and its memory in brackets.
pub proof fn law_process_in_plain_text(
    p: ProcessView,
    opts: RenderOptions,
    names: Map<u32, String>,
)
    requires
        !opts.color,
        owner_name(p, names).len() > 0,
    ensures
        ({
            let owner = owner_name(p, names);
            let command = command_shown(opt_text(p.command));
            let memory = seq!['('] + decimal(p.used_memory_mb as nat) + seq!['M', ')'];
            let pid = seq!['/'] + decimal(p.pid as nat);
            let text = process_text(p, opts, names);
            &&& !opts.show_cmd && !opts.show_pid ==> text == owner + memory
            &&& !opts.show_cmd && opts.show_pid ==> text == owner + pid + memory
            &&& opts.show_cmd && !opts.show_user && !opts.show_pid ==> text == command + memory
            &&& opts.show_cmd && !opts.show_user && opts.show_pid ==> text == command + pid + memory
            &&& opts.show_cmd && opts.show_user && !opts.show_pid ==> text == owner + seq![':']
                + command + memory
            &&& opts.show_cmd && opts.show_user && opts.show_pid ==> text == owner + seq![':']
                + command + pid + memory
        }),
{
    reveal_strlit("(");
    reveal_strlit(")");
    reveal_strlit("M");
    reveal_strlit("/");
    reveal_strlit(":");
    assert("("@ =~= seq!['(']);
    assert("/"@ =~= seq!['/']);
    assert(":"@ =~= seq![':']);
    let owner = owner_name(p, names);
    let command = command_shown(opt_text(p.command));
    let number = decimal(p.used_memory_mb as nat);
    let memory = seq!['('] + number + seq!['M', ')'];
    let pid = seq!['/'] + decimal(p.pid as nat);
    let text = process_text(p, opts, names);
    let none = Seq::<char>::empty();
    let front = (if opts.show_cmd {
        if opts.show_user {
            owner + seq![':'] + command
        } else {
            command
        }
    } else {
        owner
    }) + (if opts.show_pid {
        pid
    } else {
        none
    });
    assert("M"@ + ")"@ =~= seq!['M', ')']);
    assert(memory =~= "("@ + (number + "M"@) + ")"@);
    let user = if !opts.show_cmd || opts.show_user {
        owner
    } else {
        none
    };
    let colon = if opts.show_cmd && user.len() > 0 {
        ":"@
    } else {
        none
    };
    let shown = if opts.show_cmd {
        command
    } else {
        none
    };
    let tail = if opts.show_pid {
        pid
    } else {
        none
    };
    assert(text == user + colon + shown + tail + "("@ + (number + "M"@) + ")"@);
    let head = user + colon + shown;
    assert(head =~= if opts.show_cmd {
        if opts.show_user {
            owner + seq![':'] + command
        } else {
            command
        }
    } else {
        owner
    });
    assert(text =~= head + tail + memory);
    assert(head + none =~= head);
}

/// Of a process, with colour or without: its memory is written, its owner unless
/// only commands are asked for, and its command and pid if they are asked for.
pub proof fn law_process_text_tells(p: ProcessView, opts: RenderOptions, names: Map<u32, String>)
    ensures
        ({
            let text = process_text(p, opts, names);
            &&& occurs(text, decimal(p.used_memory_mb as nat) + seq!['M'])
            &&& !opts.show_cmd || opts.show_user ==> occurs(text, owner_name(p, names))
            &&& opts.show_cmd ==> occurs(text, command_shown(opt_text(p.command)))
            &&& opts.show_pid ==> occurs(text, seq!['/'] + decimal(p.pid as nat))
        }),
{
    reveal_strlit("M");
    reveal_strlit("/");
    assert("M"@ =~= seq!['M']);
    assert("/"@ =~= seq!['/']);
    let none = Seq::<char>::empty();
    let number = decimal(p.used_memory_mb as nat) + "M"@;
    let owner = owner_name(p, names);
    let shown = command_shown(opt_text(p.command));
    let user = if !opts.show_cmd || opts.show_user {
        painted(opts.color, "1;30"@, owner)
    } else {
        none
    };
    let colon = if opts.show_cmd && user.len() > 0 {
        ":"@
    } else {
        none
    };
    let command = if opts.show_cmd {
        painted(opts.color, "36"@, shown)
    } else {
        none
    };
    let pid = if opts.show_pid {
        "/"@ + decimal(p.pid as nat)
    } else {
        none
    };
    let memory = painted(opts.color, "33"@, number);
    let a = user + colon;
    let b = a + command;
    let c = b + pid;
    let d = c + "("@;
    let e = d + memory;
    let text = e + ")"@;
    assert(text == process_text(p, opts, names));
    law_painted("33"@, number);
    lemma_occurs_in(d, memory, ")"@, number);
    if !opts.show_cmd || opts.show_user {
        law_painted("1;30"@, owner);
        lemma_occurs_in(none, user, colon, owner);
        lemma_occurs_in(none, a, command, owner);
        lemma_occurs_in(none, b, pid, owner);
        lemma_occurs_in(none, c, "("@, owner);
        lemma_occurs_in(none, d, memory, owner);
        lemma_occurs_in(none, e, ")"@, owner);
    }
    if opts.show_cmd {
        law_painted("36"@, shown);
        lemma_occurs_in(a, command, none, shown);
        lemma_occurs_in(none, b, pid, shown);
        lemma_occurs_in(none, c, "("@, shown);
        lemma_occurs_in(none, d, memory, shown);
        lemma_occurs_in(none, e, ")"@, shown);
    }
    if opts.show_pid {
        lemma_occurs_put(b, pid, none);
        lemma_occurs_in(none, c, "("@, pid);
        lemma_occurs_in(none, d, memory, pid);
        lemma_occurs_in(none, e, ")"@, pid);
    }
}

/// The command of a process is written without white space around it, and two
/// dashes stand for a command that is blank or not known.
pub proof fn law_command(c: Seq<char>)
    ensures
        trimmed(c).len() > 0 ==> command_shown(Some(c)) == trimmed(c),
        trimmed(c).len() == 0 ==> command_shown(Some(c)) == seq!['-', '-'],
        command_shown(None) == seq!['-', '-'],
{
    reveal_strlit("--");
    assert("--"@ =~= seq!['-', '-']);
}

// ---------------------------------------------------------------------------
// Rows

/// A name that is too long keeps its end, behind an ellipsis.
pub proof fn law_long_names_keep_their_end(value: Seq<char>, width: nat)
    requires
        0 < width < value.len(),
    ensures
        shortened(value, width).len() == width,
        shortened(value, width)[0] == '\u{2026}',
        ends(value, shortened(value, width).drop_first()),
{
    reveal_strlit("…");
    let tail = value.skip(value.len() - (width - 1));
    assert(shortened(value, width).drop_first() =~= tail);
    assert(value.subrange(value.len() - tail.len(), value.len() as int) =~= tail);
}

proof fn lemma_figures(
    p: Seq<char>,
    t: Seq<char>,
    c1: Seq<char>,
    u: Seq<char>,
    c2: Seq<char>,
    c3: Seq<char>,
    a: Seq<char>,
    c4: Seq<char>,
    b: Seq<char>,
    c5: Seq<char>,
)
    ensures
        p + t + c1 + (u + c2) + c3 + a + c4 + b + c5 == p + (t + c1 + u + c2 + c3 + a + c4 + b
            + c5),
{
    let f1 = t + c1;
    let f2 = f1 + u;
    let f3 = f2 + c2;
    let f4 = f3 + c3;
    let f5 = f4 + a;
    let f6 = f5 + c4;
    let f7 = f6 + b;
    lemma_assoc(p, t, c1);
    lemma_assoc(f1, u, c2);
    lemma_assoc(p, f1, u + c2);
    lemma_assoc(p, f3, c3);
    lemma_assoc(p, f4, a);
    lemma_assoc(p, f5, c4);
    lemma_assoc(p, f6, b);
    lemma_assoc(p, f7, c5);
}

proof fn lemma_row_shape(
    front: Seq<char>,
    name: Seq<char>,
    figures: Seq<char>,
    column: Seq<char>,
    end: Seq<char>,
)
    requires
        end.len() == 1,
    ensures
        ({
            let row = front + name + figures + column + end;
            &&& occurs(row, figures)
            &&& begins(row, front)
            &&& begins(row, front + name + figures)
            &&& column.len() == 0 ==> ends(row, figures + end)
            &&& row.last() == end[0]
        }),
{
    let p = front + name;
    let body = p + figures;
    let row = body + column + end;
    lemma_occurs_put(p, figures, column + end);
    lemma_assoc(body, column, end);
    assert(row.subrange(0, front.len() as int) =~= front);
    assert(row.subrange(0, body.len() as int) =~= body);
    if column.len() == 0 {
        let tail = figures + end;
        assert(row.subrange(row.len() - tail.len(), row.len() as int) =~= tail);
    }
}

/// The figures of a row without colour: temperature, utilization, used and total memory.
pub open spec fn plain_figures(g: GresView) -> Seq<char> {
    temperature_text(g.temperature_c) + "°C"@ + ", "@ + padded_right(decimal(g.util as nat), 3)
        + " %"@ + " | "@ + padded_right(decimal(g.mem_used_mb as nat), 5) + " / "@ + padded_right(
        decimal(g.mem_total_mb as nat),
        5,
    ) + " MB"@
}

proof fn lemma_row_parts(
    g: GresView,
    user: Option<Seq<char>>,
    width: nat,
    opts: RenderOptions,
    names: Map<u32, String>,
)
    requires
        !opts.color,
    ensures
        row_text(g, user, width, opts, names) == "["@ + decimal(g.index as nat) + "]"@ + " "@
            + name_text(g.name@, width, opts) + plain_figures(g) + processes_column(
            opt_processes(g.processes),
            user,
            opts,
            names,
        ) + "\n"@,
{
    let p = "["@ + decimal(g.index as nat) + "]"@ + " "@ + name_text(g.name@, width, opts);
    lemma_figures(
        p,
        temperature_text(g.temperature_c) + "°C"@,
        ", "@,
        padded_right(decimal(g.util as nat), 3),
        " %"@,
        " | "@,
        padded_right(decimal(g.mem_used_mb as nat), 5),
        " / "@,
        padded_right(decimal(g.mem_total_mb as nat), 5),
        " MB"@,
    );
}

proof fn lemma_front(index: Seq<char>)
    ensures
        "["@ + index + "]"@ + " "@ == seq!['['] + index + seq![']', ' '],
{
    reveal_strlit("[");
    reveal_strlit("]");
    reveal_strlit(" ");
    assert("["@ + index + "]"@ + " "@ =~= seq!['['] + index + seq![']', ' ']);
}

/// A row without colour: the index in square brackets, the name, and then the
/// temperature, the utilization and the used and total memory.
pub proof fn law_row_in_plain_text(
    g: GresView,
    user: Option<Seq<char>>,
    width: nat,
    opts: RenderOptions,
    names: Map<u32, String>,
)
    requires
        !opts.color,
    ensures
        ({
            let row = row_text(g, user, width, opts, names);
            let figures = plain_figures(g);
            let front = seq!['['] + decimal(g.index as nat) + seq![']', ' '];
            &&& occurs(row, figures)
            &&& begins(row, front)
            &&& opts.gresname_width != Some(0usize) ==> begins(
                row,
                front + padded_left(shortened(gres_name(g.name@), width), width) + " |"@ + figures,
            )
            &&& opts.gresname_width == Some(0usize) ==> begins(row, front + figures)
            &&& opts.no_processes ==> ends(row, figures + "\n"@)
            &&& row.last() == '\n'
        }),
{
    reveal_strlit("\n");
    lemma_row_parts(g, user, width, opts, names);
    lemma_front(decimal(g.index as nat));
    let front = seq!['['] + decimal(g.index as nat) + seq![']', ' '];
    let name = name_text(g.name@, width, opts);
    let column = processes_column(opt_processes(g.processes), user, opts, names);
    lemma_row_shape(front, name, plain_figures(g), column, "\n"@);
    if opts.gresname_width != Some(0usize) {
        let cell = padded_left(shortened(gres_name(g.name@), width), width);
        lemma_assoc(front, cell, " |"@);
    } else {
        assert(front + name =~= front);
    }
}

/// A row with colour shows the same texts as one without.
pub proof fn law_row_tells(
    g: GresView,
    user: Option<Seq<char>>,
    width: nat,
    opts: RenderOptions,
    names: Map<u32, String>,
)
    ensures
        ({
            let row = row_text(g, user, width, opts, names);
            &&& occurs(row, "["@ + decimal(g.index as nat) + "]"@)
            &&& occurs(row, temperature_text(g.temperature_c) + "°C"@)
            &&& occurs(row, padded_right(decimal(g.util as nat), 3) + " %"@)
            &&& occurs(row, padded_right(decimal(g.mem_used_mb as nat), 5))
            &&& occurs(row, padded_right(decimal(g.mem_total_mb as nat), 5))
            &&& opts.gresname_width != Some(0usize) ==> occurs(
                row,
                padded_left(shortened(gres_name(g.name@), width), width),
            )
        }),
{
    let none = Seq::<char>::empty();
    let index = "["@ + decimal(g.index as nat) + "]"@;
    let t = temperature_text(g.temperature_c) + "°C"@;
    let u = padded_right(decimal(g.util as nat), 3) + " %"@;
    let a = padded_right(decimal(g.mem_used_mb as nat), 5);
    let b = padded_right(decimal(g.mem_total_mb as nat), 5);
    let cell = padded_left(shortened(gres_name(g.name@), width), width);
    let name = name_text(g.name@, width, opts);
    let x1 = painted(opts.color, "36"@, index);
    let x2 = x1 + " "@;
    let x3 = x2 + name;
    let temperature = temperature_column(g.temperature_c, opts.color);
    let x4 = x3 + temperature;
    let x5 = x4 + ", "@;
    let util = util_column(g.util, opts.color);
    let x6 = x5 + util;
    let x7 = x6 + " | "@;
    let used = painted(opts.color, "1;33"@, a);
    let x8 = x7 + used;
    let x9 = x8 + " / "@;
    let total = painted(opts.color, "33"@, b);
    let x10 = x9 + total;
    let x11 = x10 + " MB"@;
    let column = processes_column(opt_processes(g.processes), user, opts, names);
    let x12 = x11 + column;
    let row = x12 + "\n"@;
    assert(row == row_text(g, user, width, opts, names));
    law_painted("36"@, index);
    law_painted("1;31"@, t);
    law_painted("31"@, t);
    law_painted("1;32"@, u);
    law_painted("32"@, u);
    law_painted("1;33"@, a);
    law_painted("33"@, b);
    law_painted("34"@, cell);
    assert forall|pat: Seq<char>| occurs(x10, pat) implies #[trigger] occurs(row, pat) by {
        lemma_occurs_in(none, x10, " MB"@, pat);
        lemma_occurs_in(none, x11, column, pat);
        lemma_occurs_in(none, x12, "\n"@, pat);
    }
    lemma_occurs_in(x9, total, none, b);
    assert(occurs(row, b));
    assert forall|pat: Seq<char>| occurs(x8, pat) implies #[trigger] occurs(x10, pat) by {
        lemma_occurs_in(none, x8, " / "@, pat);
        lemma_occurs_in(none, x9, total, pat);
    }
    lemma_occurs_in(x7, used, none, a);
    assert(occurs(x10, a));
    assert(occurs(row, a));
    assert forall|pat: Seq<char>| occurs(x6, pat) implies #[trigger] occurs(x8, pat) by {
        lemma_occurs_in(none, x6, " | "@, pat);
        lemma_occurs_in(none, x7, used, pat);
    }
    lemma_occurs_in(x5, util, none, u);
    assert(occurs(x8, u));
    assert(occurs(x10, u));
    assert(occurs(row, u));
    assert forall|pat: Seq<char>| occurs(x4, pat) implies #[trigger] occurs(x6, pat) by {
        lemma_occurs_in(none, x4, ", "@, pat);
        lemma_occurs_in(none, x5, util, pat);
    }
    lemma_occurs_in(x3, temperature, none, t);
    assert(occurs(x6, t));
    assert(occurs(x8, t));
    assert(occurs(x10, t));
    assert(occurs(row, t));
    assert forall|pat: Seq<char>| occurs(x2, pat) implies #[trigger] occurs(x4, pat) by {
        lemma_occurs_in(none, x2, name, pat);
        lemma_occurs_in(none, x3, temperature, pat);
    }
    lemma_occurs_in(none, x1, " "@, index);
    assert(occurs(x4, index));
    assert(occurs(x6, index));
    assert(occurs(x8, index));
    assert(occurs(x10, index));
    assert(occurs(row, index));
    if opts.gresname_width != Some(0usize) {
        let shown = painted(opts.color, "34"@, cell);
        lemma_occurs_in(none, shown, " |"@, cell);
        lemma_occurs_in(x2, name, none, cell);
        lemma_occurs_in(none, x3, temperature, cell);
        assert(occurs(x6, cell));
        assert(occurs(x8, cell));
        assert(occurs(x10, cell));
        assert(occurs(row, cell));
    }
}

/// A temperature is its number in three places or, where it is not known, two
/// question marks; a resource without a name is called `GPU`.
pub proof fn law_temperature_and_name(value: u32, name: Seq<char>)
    ensures
        temperature_text(Some(value)) == padded_right(decimal(value as nat), 3),
        temperature_text(None) == seq![' ', '?', '?'],
        trimmed(name).len() > 0 ==> gres_name(name) == name,
        trimmed(name).len() == 0 ==> gres_name(name) == seq!['G', 'P', 'U'],
        name_len(name) == gres_name(name).len(),
{
    reveal_strlit(" ??");
    reveal_strlit("GPU");
    assert(" ??"@ =~= seq![' ', '?', '?']);
    assert("GPU"@ =~= seq!['G', 'P', 'U']);
}

/// Temperatures from 50 degrees and utilizations from 30 percent are set in bold.
pub proof fn law_bold_figures(t: Option<u32>, util: u8)
    ensures
        temperature_column(t, true) == painted(
            true,
            if t is Some && t->0 >= 50 {
                seq!['1', ';', '3', '1']
            } else {
                seq!['3', '1']
            },
            temperature_text(t) + "°C"@,
        ),
        util_column(util, true) == painted(
            true,
            if util >= 30 {
                seq!['1', ';', '3', '2']
            } else {
                seq!['3', '2']
            },
            padded_right(decimal(util as nat), 3) + " %"@,
        ),
{
    reveal_strlit("1;31");
    reveal_strlit("31");
    reveal_strlit("1;32");
    reveal_strlit("32");
    assert("1;31"@ =~= seq!['1', ';', '3', '1']);
    assert("31"@ =~= seq!['3', '1']);
    assert("1;32"@ =~= seq!['1', ';', '3', '2']);
    assert("32"@ =~= seq!['3', '2']);
}

proof fn lemma_rows_start(
    v: Seq<GresView>,
    w: Seq<GresView>,
    user: Option<Seq<char>>,
    width: nat,
    opts: RenderOptions,
    names: Map<u32, String>,
    n: int,
)
    requires
        n <= v.len(),
        n <= w.len(),
        forall|i: int| 0 <= i < n ==> v[i] == w[i],
    ensures
        rows_text(v, user, width, opts, names, n) == rows_text(w, user, width, opts, names, n),
        shown_count(v, user, names, n) == shown_count(w, user, names, n),
    decreases n,
{
    if n > 0 {
        lemma_rows_start(v, w, user, width, opts, names, n - 1);
    }
}

/// The rows of a node stand one under the other: one more resource that is wanted
/// adds its row and is counted, and one that is not wanted adds nothing.
pub proof fn law_one_more_row(
    v: Seq<GresView>,
    g: GresView,
    user: Option<Seq<char>>,
    width: nat,
    opts: RenderOptions,
    names: Map<u32, String>,
)
    ensures
        ({
            let n = v.len() as int;
            let before = rows_text(v, user, width, opts, names, n);
            let after = rows_text(v.push(g), user, width, opts, names, n + 1);
            let count = shown_count(v, user, names, n);
            let counted = shown_count(v.push(g), user, names, n + 1);
            &&& gres_wanted(g, user, names) ==> after == before + row_text(
                g,
                user,
                width,
                opts,
                names,
            ) && counted == count + 1
            &&& !gres_wanted(g, user, names) ==> after == before && counted == count
        }),
        rows_text(Seq::empty(), user, width, opts, names, 0) == Seq::<char>::empty(),
        shown_count(Seq::empty(), user, names, 0) == 0,
{
    lemma_rows_start(v, v.push(g), user, width, opts, names, v.len() as int);
}

proof fn lemma_row_occurs(
    v: Seq<GresView>,
    user: Option<Seq<char>>,
    width: nat,
    opts: RenderOptions,
    names: Map<u32, String>,
    n: int,
    i: int,
)
    requires
        0 <= i < n <= v.len(),
        gres_wanted(v[i], user, names),
    ensures
        occurs(
            rows_text(v, user, width, opts, names, n),
            row_text(v[i], user, width, opts, names),
        ),
        shown_count(v, user, names, n) > 0,
    decreases n,
{
    let before = rows_text(v, user, width, opts, names, n - 1);
    let row = row_text(v[n - 1], user, width, opts, names);
    if i == n - 1 {
        lemma_occurs_put(before, row, Seq::empty());
    } else {
        lemma_row_occurs(v, user, width, opts, names, n - 1, i);
        lemma_occurs_in(Seq::empty(), before, row, row_text(v[i], user, width, opts, names));
    }
}

// ---------------------------------------------------------------------------
// Nodes

/// A node is shown if it is stale or one of its resources is wanted: a header line,
/// unless headers are left out, and the rows under it.
pub proof fn law_node_is_header_and_rows(
    node: NodeView,
    texts: NodeTexts,
    user: Option<Seq<char>>,
    width: nat,
    opts: RenderOptions,
    names: Map<u32, String>,
)
    ensures
        ({
            let text = node_text(node, texts, user, width, opts, names);
            let n = node.gres@.len() as int;
            let rows = rows_text(node.gres@, user, width, opts, names, n);
            let shown = node.stale || exists|i: int|
                0 <= i < n && gres_wanted(#[trigger] node.gres@[i], user, names);
            &&& shown && opts.show_header ==> text == header_text(node, texts, width, opts) + rows
            &&& shown && !opts.show_header ==> text == rows
            &&& !shown ==> text == Seq::<char>::empty()
        }),
{
    let n = node.gres@.len() as int;
    let rows = rows_text(node.gres@, user, width, opts, names, n);
    assert(Seq::<char>::empty() + rows =~= rows);
    if exists|i: int| 0 <= i < n && gres_wanted(#[trigger] node.gres@[i], user, names) {
        let i = choose|i: int| 0 <= i < n && gres_wanted(#[trigger] node.gres@[i], user, names);
        lemma_row_occurs(node.gres@, user, width, opts, names, n, i);
    } else {
        lemma_none_counted(node.gres@, user, names, n);
    }
}

proof fn lemma_none_counted(
    v: Seq<GresView>,
    user: Option<Seq<char>>,
    names: Map<u32, String>,
    n: int,
)
    requires
        n <= v.len(),
        forall|i: int| 0 <= i < n ==> !gres_wanted(#[trigger] v[i], user, names),
    ensures
        shown_count(v, user, names, n) == 0,
    decreases n,
{
    if n > 0 {
        lemma_none_counted(v, user, names, n - 1);
        assert(!gres_wanted(v[n - 1], user, names));
    }
}

/// Whether the text of a node stands in the table.
pub open spec fn node_occurs(
    resp: QueryResponse,
    user_filter: Option<Seq<char>>,
    opts: RenderOptions,
    lookups: Lookups,
    i: int,
) -> bool {
    let user = wanted_user(user_filter);
    occurs(
        table_text(resp, user_filter, opts, lookups),
        node_text(
            resp.nodes@[i],
            lookups.nodes@[i],
            user,
            name_column(resp.nodes@, user, lookups.names@, opts.gresname_width),
            opts,
            lookups.names@,
        ),
    )
}

proof fn lemma_node_occurs(
    nodes: Seq<NodeView>,
    texts: Seq<NodeTexts>,
    user: Option<Seq<char>>,
    width: nat,
    opts: RenderOptions,
    names: Map<u32, String>,
    n: int,
    i: int,
)
    requires
        0 <= i < n <= nodes.len(),
    ensures
        occurs(
            nodes_text(nodes, texts, user, width, opts, names, n),
            node_text(nodes[i], texts[i], user, width, opts, names),
        ),
    decreases n,
{
    let before = nodes_text(nodes, texts, user, width, opts, names, n - 1);
    let last = node_text(nodes[n - 1], texts[n - 1], user, width, opts, names);
    if i == n - 1 {
        lemma_occurs_put(before, last, Seq::empty());
    } else {
        lemma_node_occurs(nodes, texts, user, width, opts, names, n - 1, i);
        lemma_occurs_in(
            Seq::empty(),
            before,
            last,
            node_text(nodes[i], texts[i], user, width, opts, names),
        );
    }
}

/// Every wanted resource of every node has its row in the table.
pub proof fn law_every_row_stands_in_the_table(
    resp: QueryResponse,
    user_filter: Option<Seq<char>>,
    opts: RenderOptions,
    lookups: Lookups,
    i: int,
    k: int,
)
    requires
        0 <= i < resp.nodes@.len(),
        0 <= k < resp.nodes@[i].gres@.len(),
        gres_wanted(resp.nodes@[i].gres@[k], wanted_user(user_filter), lookups.names@),
    ensures
        ({
            let user = wanted_user(user_filter);
            let width = name_column(resp.nodes@, user, lookups.names@, opts.gresname_width);
            occurs(
                table_text(resp, user_filter, opts, lookups),
                row_text(resp.nodes@[i].gres@[k], user, width, opts, lookups.names@),
            )
        }),
        node_occurs(resp, user_filter, opts, lookups, i),
{
    let user = wanted_user(user_filter);
    let names = lookups.names@;
    let width = name_column(resp.nodes@, user, names, opts.gresname_width);
    let node = resp.nodes@[i];
    let texts = lookups.nodes@[i];
    let n = node.gres@.len() as int;
    let row = row_text(node.gres@[k], user, width, opts, names);
    lemma_row_occurs(node.gres@, user, width, opts, names, n, k);
    let rows = rows_text(node.gres@, user, width, opts, names, n);
    lemma_occurs_in(header_text(node, texts, width, opts), rows, Seq::empty(), row);
    law_node_is_header_and_rows(node, texts, user, width, opts, names);
    let text = node_text(node, texts, user, width, opts, names);
    assert(gres_wanted(node.gres@[k], user, names));
    assert(occurs(text, row));
    let all = resp.nodes@.len() as int;
    lemma_node_occurs(resp.nodes@, lookups.nodes@, user, width, opts, names, all, i);
    let table = table_text(resp, user_filter, opts, lookups);
    let at = choose|at: int| occurs_at(table, text, at);
    let front = table.take(at);
    let back = table.skip(at + text.len());
    assert(table =~= front + text + back) by {
        assert(table.subrange(at, at + text.len()) == text);
        assert forall|j: int| 0 <= j < table.len() implies #[trigger] table[j] == (front + text
            + back)[j] by {
            if at <= j < at + text.len() {
                assert(table.subrange(at, at + text.len())[j - at] == table[j]);
            }
        }
    }
    lemma_occurs_in(front, text, back, row);
}

/// The nodes stand one under the other, in their order: one more node adds its
/// text.
pub proof fn law_one_more_node(
    nodes: Seq<NodeView>,
    texts: Seq<NodeTexts>,
    node: NodeView,
    text: NodeTexts,
    user: Option<Seq<char>>,
    width: nat,
    opts: RenderOptions,
    names: Map<u32, String>,
)
    requires
        nodes.len() == texts.len(),
    ensures
        nodes_text(
            nodes.push(node),
            texts.push(text),
            user,
            width,
            opts,
            names,
            nodes.len() as int + 1,
        ) == nodes_text(nodes, texts, user, width, opts, names, nodes.len() as int) + node_text(
            node,
            text,
            user,
            width,
            opts,
            names,
        ),
        nodes_text(Seq::empty(), Seq::empty(), user, width, opts, names, 0) == Seq::<
            char,
        >::empty(),
{
    lemma_nodes_start(
        nodes,
        texts,
        nodes.push(node),
        texts.push(text),
        user,
        width,
        opts,
        names,
        nodes.len() as int,
    );
}

proof fn lemma_nodes_start(
    v: Seq<NodeView>,
    s: Seq<NodeTexts>,
    w: Seq<NodeView>,
    t: Seq<NodeTexts>,
    user: Option<Seq<char>>,
    width: nat,
    opts: RenderOptions,
    names: Map<u32, String>,
    n: int,
)
    requires
        n <= v.len() <= w.len(),
        n <= s.len() <= t.len(),
        forall|i: int| 0 <= i < n ==> v[i] == w[i],
        forall|i: int| 0 <= i < n ==> s[i] == t[i],
    ensures
        nodes_text(v, s, user, width, opts, names, n) == nodes_text(
            w,
            t,
            user,
            width,
            opts,
            names,
            n,
        ),
    decreases n,
{
    if n > 0 {
        lemma_nodes_start(v, s, w, t, user, width, opts, names, n - 1);
    }
}

/// The header of a node tells its host name, its time, its driver, its delay if
/// delays are shown, whether it is stale, and its error.
pub proof fn law_header_tells(node: NodeView, texts: NodeTexts, width: nat, opts: RenderOptions)
    ensures
        ({
            let text = header_text(node, texts, width, opts);
            &&& occurs(text, padded_left(node.hostname@, header_width(width)))
            &&& occurs(text, time_text(opt_text(texts.time)))
            &&& node.driver_version matches Some(d) ==> trimmed(d@).len() > 0 ==> occurs(text, d@)
            &&& node.delay_us matches Some(d) ==> opts.latency_display ==> occurs(
                text,
                "delay="@ + delay_text(d, texts.millis@),
            )
            &&& node.stale ==> occurs(text, "stale"@)
            &&& node.error matches Some(e) ==> occurs(text, e@)
        }),
{
    let none = Seq::<char>::empty();
    let host = padded_left(node.hostname@, header_width(width));
    let time = time_text(opt_text(texts.time));
    let driver = driver_text(opt_text(node.driver_version), opts.color);
    let delay = delay_column(node.delay_us, texts.millis@, opts);
    let stale = if node.stale {
        " "@ + painted(opts.color, "1;31"@, "stale"@)
    } else {
        none
    };
    let error = match node.error {
        Some(e) => "  "@ + e@,
        None => none,
    };
    let x1 = painted(opts.color, "1;37"@, host);
    let x2 = x1 + "  "@;
    let x3 = x2 + time;
    let x4 = x3 + driver;
    let x5 = x4 + delay;
    let x6 = x5 + stale;
    let x7 = x6 + error;
    let text = x7 + "\n"@;
    assert(text == header_text(node, texts, width, opts));
    assert forall|pat: Seq<char>| occurs(x5, pat) implies #[trigger] occurs(text, pat) by {
        lemma_occurs_in(none, x5, stale, pat);
        lemma_occurs_in(none, x6, error, pat);
        lemma_occurs_in(none, x7, "\n"@, pat);
    }
    assert forall|pat: Seq<char>| occurs(x3, pat) implies #[trigger] occurs(x5, pat) by {
        lemma_occurs_in(none, x3, driver, pat);
        lemma_occurs_in(none, x4, delay, pat);
    }
    law_painted("1;37"@, host);
    lemma_occurs_in(none, x1, "  "@, host);
    lemma_occurs_in(none, x2, time, host);
    assert(occurs(x5, host));
    assert(occurs(text, host));
    lemma_occurs_put(x2, time, none);
    assert(occurs(x5, time));
    assert(occurs(text, time));
    if let Some(d) = node.driver_version {
        if trimmed(d@).len() > 0 {
            let shown = painted(opts.color, "1;30"@, d@);
            law_painted("1;30"@, d@);
            lemma_occurs_in("  "@, shown, none, d@);
            lemma_occurs_in(x3, driver, none, d@);
            lemma_occurs_in(none, x4, delay, d@);
            assert(occurs(text, d@));
        }
    }
    if let Some(d) = node.delay_us {
        if opts.latency_display {
            let pat = "delay="@ + delay_text(d, texts.millis@);
            let shown = painted(opts.color, "36"@, pat);
            law_painted("36"@, pat);
            lemma_occurs_in("  "@, shown, none, pat);
            lemma_occurs_in(x4, delay, none, pat);
            assert(occurs(text, pat));
        }
    }
    if node.stale {
        let pat = "stale"@;
        let shown = painted(opts.color, "1;31"@, pat);
        law_painted("1;31"@, pat);
        lemma_occurs_in(" "@, shown, none, pat);
        lemma_occurs_in(x5, stale, none, pat);
        lemma_occurs_in(none, x6, error, pat);
        lemma_occurs_in(none, x7, "\n"@, pat);
    }
    if let Some(e) = node.error {
        lemma_occurs_put("  "@, e@, none);
        lemma_occurs_in(x6, error, none, e@);
        lemma_occurs_in(none, x7, "\n"@, e@);
    }
}

/// The header of a node that is up to date and of which nothing more is known: the
/// host name in its column, two blanks and the time. A delay that is not shown, an
/// absent driver and an absent error add nothing.
pub proof fn law_bare_header(node: NodeView, texts: NodeTexts, width: nat, opts: RenderOptions)
    requires
        !opts.color,
        !node.stale,
        node.error is None,
        node.driver_version is None,
        node.delay_us is None || !opts.latency_display,
    ensures
        header_text(node, texts, width, opts) == padded_left(node.hostname@, header_width(width))
            + seq![' ', ' '] + time_text(opt_text(texts.time)) + seq!['\n'],
{
    reveal_strlit("  ");
    reveal_strlit("\n");
    assert("  "@ =~= seq![' ', ' ']);
    assert("\n"@ =~= seq!['\n']);
    let none = Seq::<char>::empty();
    let x = padded_left(node.hostname@, header_width(width)) + "  "@ + time_text(
        opt_text(texts.time),
    );
    assert(x + none =~= x);
}

/// A delay below a millisecond is written in microseconds, and any other in
/// milliseconds; a time that is not known is written as question marks.
pub proof fn law_delay_and_time(delay_us: u64, millis: Seq<char>, time: Seq<char>)
    ensures
        delay_us < 1000 ==> delay_text(delay_us, millis) == decimal(delay_us as nat) + seq![
            'u',
            's',
        ],
        delay_us >= 1000 ==> delay_text(delay_us, millis) == millis + seq!['m', 's'],
        time_text(Some(time)) == time,
        time_text(None) == "??? ?? ?? ??:??:?? ????"@,
{
    reveal_strlit("us");
    reveal_strlit("ms");
    assert("us"@ =~= seq!['u', 's']);
    assert("ms"@ =~= seq!['m', 's']);
}

// ---------------------------------------------------------------------------
// Widths

proof fn lemma_widest(
    v: Seq<GresView>,
    user: Option<Seq<char>>,
    names: Map<u32, String>,
    least: nat,
    n: int,
)
    requires
        n <= v.len(),
    ensures
        widest(v, user, names, least, n) >= least,
        forall|i: int|
            0 <= i < n && gres_wanted(#[trigger] v[i], user, names) ==> widest(
                v,
                user,
                names,
                least,
                n,
            ) >= name_len(v[i].name@),
        widest(v, user, names, least, n) == least || exists|i: int|
            0 <= i < n && gres_wanted(#[trigger] v[i], user, names) && name_len(v[i].name@)
                == widest(v, user, names, least, n),
    decreases n,
{
    if n > 0 {
        lemma_widest(v, user, names, least, n - 1);
        let before = widest(v, user, names, least, n - 1);
        if gres_wanted(v[n - 1], user, names) && name_len(v[n - 1].name@) > before {
            assert(name_len(v[n - 1].name@) == widest(v, user, names, least, n));
        } else if before != least {
            let i = choose|i: int|
                0 <= i < n - 1 && gres_wanted(#[trigger] v[i], user, names) && name_len(v[i].name@)
                    == before;
            assert(gres_wanted(v[i], user, names));
        }
    }
}

/// Whether the name of a wanted resource of a node is as long as said.
pub open spec fn has_name_of(
    nodes: Seq<NodeView>,
    user: Option<Seq<char>>,
    names: Map<u32, String>,
    i: int,
    k: int,
    len: nat,
) -> bool {
    &&& 0 <= i < nodes.len()
    &&& 0 <= k < nodes[i].gres@.len()
    &&& gres_wanted(nodes[i].gres@[k], user, names)
    &&& name_len(nodes[i].gres@[k].name@) == len
}

proof fn lemma_widest_on(
    nodes: Seq<NodeView>,
    user: Option<Seq<char>>,
    names: Map<u32, String>,
    n: int,
)
    requires
        n <= nodes.len(),
    ensures
        widest_on(nodes, user, names, n) >= 16,
        forall|i: int, k: int, len: nat|
            i < n && #[trigger] has_name_of(nodes, user, names, i, k, len) ==> widest_on(
                nodes,
                user,
                names,
                n,
            ) >= len,
        widest_on(nodes, user, names, n) == 16 || exists|i: int, k: int|
            #[trigger] has_name_of(nodes, user, names, i, k, widest_on(nodes, user, names, n)),
    decreases n,
{
    if n > 0 {
        lemma_widest_on(nodes, user, names, n - 1);
        let before = widest_on(nodes, user, names, n - 1);
        let v = nodes[n - 1].gres@;
        let after = widest_on(nodes, user, names, n);
        lemma_widest(v, user, names, before, v.len() as int);
        assert forall|i: int, k: int, len: nat|
            i < n && #[trigger] has_name_of(nodes, user, names, i, k, len) implies after >= len by {
            if i == n - 1 {
                assert(gres_wanted(v[k], user, names));
            }
        }
        if after != before {
            let k = choose|k: int|
                0 <= k < v.len() && gres_wanted(#[trigger] v[k], user, names) && name_len(
                    v[k].name@,
                ) == after;
            assert(has_name_of(nodes, user, names, n - 1, k, after));
        } else if after != 16 {
            let (i, k) = choose|i: int, k: int|
                #[trigger] has_name_of(nodes, user, names, i, k, before);
            assert(has_name_of(nodes, user, names, i, k, after));
        }
    }
}

/// The column of names is as wide as was asked for. Where nothing was asked for, it
/// is as wide as the longest name that is shown, and 16 at the least.
pub proof fn law_column_of_names(
    nodes: Seq<NodeView>,
    user: Option<Seq<char>>,
    names: Map<u32, String>,
    asked: usize,
    i: int,
    k: int,
)
    ensures
        name_column(nodes, user, names, Some(asked)) == asked,
        name_column(nodes, user, names, None) >= 16,
        0 <= i < nodes.len() && 0 <= k < nodes[i].gres@.len() && gres_wanted(
            nodes[i].gres@[k],
            user,
            names,
        ) ==> name_column(nodes, user, names, None) >= gres_name(nodes[i].gres@[k].name@).len(),
        name_column(nodes, user, names, None) == 16 || exists|a: int, b: int|
            #[trigger] has_name_of(nodes, user, names, a, b, name_column(nodes, user, names, None)),
{
    lemma_widest_on(nodes, user, names, nodes.len() as int);
    if 0 <= i < nodes.len() && 0 <= k < nodes[i].gres@.len() && gres_wanted(
        nodes[i].gres@[k],
        user,
        names,
    ) {
        law_temperature_and_name(0, nodes[i].gres@[k].name@);
        assert(has_name_of(nodes, user, names, i, k, name_len(nodes[i].gres@[k].name@)));
    }
}

/// Host names stand in a column three wider than that of names, and 19 at the
/// least.
pub proof fn law_column_of_hosts(width: nat)
    ensures
        width <= 16 ==> header_width(width) == 19,
        16 < width && width + 3 <= usize::MAX ==> header_width(width) == width + 3,
{
}

// ---------------------------------------------------------------------------
// Layout

/// What is remembered of a screen: for each host the number of rows that it has
/// on it. Of two nodes with one host name the later one counts.
pub proof fn law_layout_of_one_more_node(
    nodes: Seq<NodeView>,
    node: NodeView,
    user: Option<Seq<char>>,
    names: Map<u32, String>,
)
    ensures
        ({
            let n = nodes.len() as int;
            let before = layout(nodes, user, names, n);
            let after = layout(nodes.push(node), user, names, n + 1);
            &&& after.contains_key(node.hostname@)
            &&& after[node.hostname@] == shown_count(
                node.gres@,
                user,
                names,
                node.gres@.len() as int,
            ) as usize
            &&& forall|host: Seq<char>|
                host != node.hostname@ ==> (#[trigger] after.contains_key(host)
                    <==> before.contains_key(host))
            &&& forall|host: Seq<char>|
                host != node.hostname@ && #[trigger] after.contains_key(host) ==> after[host]
                    == before[host]
        }),
        layout(Seq::empty(), user, names, 0) == Map::<Seq<char>, usize>::empty(),
{
    lemma_layout_start(nodes, nodes.push(node), user, names, nodes.len() as int);
}

proof fn lemma_layout_start(
    v: Seq<NodeView>,
    w: Seq<NodeView>,
    user: Option<Seq<char>>,
    names: Map<u32, String>,
    n: int,
)
    requires
        n <= v.len(),
        n <= w.len(),
        forall|i: int| 0 <= i < n ==> v[i] == w[i],
    ensures
        layout(v, user, names, n) == layout(w, user, names, n),
    decreases n,
{
    if n > 0 {
        lemma_layout_start(v, w, user, names, n - 1);
    }
}

} // verus!
