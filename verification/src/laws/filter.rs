//! Laws of node filters.

use vstd::prelude::*;
use crate::client::filter::{
    all_expanded, deduplicated, expanded, filter_items, filter_matches, filter_patterns,
    law_patterns_are_deduplicated, listed, parts_stand, pattern_matches, wildcard_matches,
    FilterView,
};
use crate::common::net::{addr_text, AddrPatternView, AddrView};
use crate::laws::text::{glued, law_split_off, law_trimmed_text_stays, law_zero_padding};
use crate::text::{
    all_digits, begins, decimal, digits_value, is_digit, is_space, lemma_sep_pos_unique, occurs,
    occurs_at, sep_pos, split_on, trimmed, unsigned_digits, unsigned_value, zero_padded,
};

verus! {

// ---------------------------------------------------------------------------
// Items

/// How deep in brackets the end of a text is that begins at the given depth. A
/// closing bracket that closes nothing counts for nothing.
pub open spec fn depth_after(s: Seq<char>, depth: nat) -> nat
    decreases s.len(),
{
    if s.len() == 0 {
        depth
    } else {
        depth_after(
            s.drop_first(),
            if s[0] == '[' {
                depth + 1
            } else if s[0] == ']' && depth > 0 {
                (depth - 1) as nat
            } else {
                depth
            },
        )
    }
}

/// Whether no comma stands outside of brackets in a text that begins at the
/// given depth.
pub open spec fn no_comma_outside(s: Seq<char>, depth: nat) -> bool {
    forall|i: int|
        0 <= i < s.len() && #[trigger] s[i] == ',' ==> depth_after(s.take(i), depth) > 0
}

proof fn lemma_depth_first(s: Seq<char>, depth: nat, i: int)
    requires
        0 < i <= s.len(),
    ensures
        depth_after(s.take(i), depth) == depth_after(
            s.drop_first().take(i - 1),
            depth_after(s.take(1), depth),
        ),
{
    assert(s.take(i).drop_first() =~= s.drop_first().take(i - 1));
    assert(s.take(1).drop_first() =~= Seq::empty());
    assert(s.take(i)[0] == s[0]);
    assert(s.take(1)[0] == s[0]);
    reveal_with_fuel(depth_after, 2);
}

proof fn lemma_no_comma_first(s: Seq<char>, depth: nat)
    requires
        s.len() > 0,
        no_comma_outside(s, depth),
    ensures
        no_comma_outside(s.drop_first(), depth_after(s.take(1), depth)),
{
    let t = s.drop_first();
    let d = depth_after(s.take(1), depth);
    assert forall|i: int| 0 <= i < t.len() && #[trigger] t[i] == ',' implies depth_after(
        t.take(i),
        d,
    ) > 0 by {
        assert(s[i + 1] == ',');
        lemma_depth_first(s, depth, i + 1);
    }
}

proof fn lemma_one_item(s: Seq<char>, depth: nat, current: Seq<char>, rest: Seq<char>)
    requires
        no_comma_outside(s, depth),
    ensures
        filter_items(s, depth, current) == seq![current + s],
        depth_after(s, depth) == 0 ==> filter_items(s + seq![','] + rest, depth, current) == seq![
            current + s,
        ] + filter_items(rest, 0, Seq::empty()),
    decreases s.len(),
{
    let all = s + seq![','] + rest;
    if s.len() == 0 {
        assert(current + s =~= current);
        assert(all[0] == ',');
        assert(all.drop_first() =~= rest);
    } else {
        let c = s[0];
        let t = s.drop_first();
        let d = depth_after(s.take(1), depth);
        assert(s.take(1).drop_first() =~= Seq::empty());
        assert(s.take(0) =~= Seq::empty());
        reveal_with_fuel(depth_after, 2);
        lemma_no_comma_first(s, depth);
        lemma_one_item(t, d, current.push(c), rest);
        assert(current.push(c) + t =~= current + s);
        assert(all.drop_first() =~= t + seq![','] + rest);
        assert(all[0] == c);
        if c == ',' {
            assert(depth_after(s.take(0), depth) > 0);
        }
    }
}

/// A comma outside of brackets parts two items, and a comma in brackets does
/// not.
pub proof fn law_items(item: Seq<char>, rest: Seq<char>)
    requires
        no_comma_outside(item, 0),
    ensures
        filter_items(item, 0, Seq::empty()) == seq![item],
        depth_after(item, 0) == 0 ==> filter_items(item + seq![','] + rest, 0, Seq::empty())
            == seq![item] + filter_items(rest, 0, Seq::empty()),
{
    lemma_one_item(item, 0, Seq::empty(), rest);
    assert(Seq::<char>::empty() + item =~= item);
}

proof fn lemma_glued_first(current: Seq<char>, rest: Seq<Seq<char>>)
    ensures
        glued(seq![current] + rest, ',') == (if rest.len() == 0 {
            current
        } else {
            current + seq![','] + glued(rest, ',')
        }),
{
    assert((seq![current] + rest).drop_first() =~= rest);
    assert((seq![current] + rest)[0] == current);
}

proof fn lemma_items_glued(s: Seq<char>, depth: nat, current: Seq<char>)
    ensures
        filter_items(s, depth, current).len() > 0,
        glued(filter_items(s, depth, current), ',') == current + s,
    decreases s.len(),
{
    if s.len() == 0 {
        assert(current + s =~= current);
        assert(glued(seq![current], ',') == current);
    } else {
        let c = s[0];
        let t = s.drop_first();
        let d: nat = if c == '[' {
            depth + 1
        } else if c == ']' {
            if depth == 0 {
                0
            } else {
                (depth - 1) as nat
            }
        } else {
            depth
        };
        assert(current.push(c) + t =~= current + s);
        if c == ',' && depth == 0 {
            lemma_items_glued(t, 0, Seq::empty());
            assert(Seq::<char>::empty() + t =~= t);
            lemma_glued_first(current, filter_items(t, 0, Seq::empty()));
            assert(current + seq![','] + t =~= current + s);
        } else {
            lemma_items_glued(t, d, current.push(c));
        }
    }
}

/// The items of a filter with commas between them are the filter text.
pub proof fn law_items_make_up_the_filter(raw: Seq<char>)
    ensures
        glued(filter_items(raw, 0, Seq::empty()), ',') == raw,
{
    lemma_items_glued(raw, 0, Seq::empty());
    assert(Seq::<char>::empty() + raw =~= raw);
}

// ---------------------------------------------------------------------------
// Bracket expressions

/// `prefix[expression]suffix`.
pub open spec fn bracketed(prefix: Seq<char>, expression: Seq<char>, suffix: Seq<char>) -> Seq<
    char,
> {
    prefix + seq!['['] + expression + seq![']'] + suffix
}

proof fn lemma_no_char(s: Seq<char>, c: char)
    requires
        !s.contains(c),
    ensures
        forall|i: int| 0 <= i < s.len() ==> #[trigger] s[i] != c,
{
    assert forall|i: int| 0 <= i < s.len() implies #[trigger] s[i] != c by {
        assert(s.contains(s[i]));
    }
}

proof fn lemma_bracketed(prefix: Seq<char>, expression: Seq<char>, suffix: Seq<char>)
    requires
        !prefix.contains('['),
        !expression.contains(']'),
    ensures
        ({
            let raw = bracketed(prefix, expression, suffix);
            let open = sep_pos(raw, '[');
            let rest = raw.skip(open + 1);
            let close = sep_pos(rest, ']');
            &&& open == prefix.len() < raw.len()
            &&& close == expression.len() < rest.len()
            &&& rest.take(close) == expression
            &&& raw.take(open) == prefix
            &&& rest.skip(close + 1) == suffix
        }),
{
    let raw = bracketed(prefix, expression, suffix);
    let n = prefix.len() as int;
    lemma_no_char(prefix, '[');
    lemma_no_char(expression, ']');
    assert(raw[n] == '[');
    lemma_sep_pos_unique(raw, '[', n);
    let rest = raw.skip(n + 1);
    assert(rest =~= expression + seq![']'] + suffix);
    let m = expression.len() as int;
    assert(rest[m] == ']');
    lemma_sep_pos_unique(rest, ']', m);
    assert(rest.take(m) =~= expression);
    assert(raw.take(n) =~= prefix);
    assert(rest.skip(m + 1) =~= suffix);
}

proof fn lemma_number_chars(s: Seq<char>, max: nat)
    requires
        unsigned_value(s, max) is Some,
    ensures
        s.len() > 0,
        forall|i: int| 0 <= i < s.len() ==> is_digit(#[trigger] s[i]) || s[i] == '+',
{
    let d = unsigned_digits(s);
    assert(all_digits(d));
    assert forall|i: int| 0 <= i < s.len() implies is_digit(#[trigger] s[i]) || s[i] == '+' by {
        if d != s {
            assert(d == s.drop_first());
            if i > 0 {
                assert(d[i - 1] == s[i]);
            }
        }
    }
}

/// The larger of two lengths.
pub open spec fn longer(a: nat, b: nat) -> nat {
    if a > b {
        a
    } else {
        b
    }
}

/// Whether a text is a prefix, a number in as many digits as the width asks for
/// and a suffix.
pub open spec fn is_numbered(
    text: Seq<char>,
    prefix: Seq<char>,
    n: nat,
    width: nat,
    suffix: Seq<char>,
) -> bool {
    exists|z: Seq<char>|
        {
            &&& text == #[trigger] (prefix + z + suffix)
            &&& z.len() == longer(width, decimal(n).len())
            &&& forall|i: int| 0 <= i < z.len() ==> '0' <= #[trigger] z[i] <= '9'
            &&& digits_value(z) == n
        }
}

proof fn lemma_range(
    prefix: Seq<char>,
    start: Seq<char>,
    end: Seq<char>,
    suffix: Seq<char>,
    a: nat,
    b: nat,
)
    requires
        !prefix.contains('['),
        unsigned_value(start, u32::MAX as nat) == Some(a),
        unsigned_value(end, u32::MAX as nat) == Some(b),
        a <= b,
    ensures
        ({
            let raw = bracketed(prefix, start + seq!['-'] + end, suffix);
            let width = longer(start.len(), end.len());
            &&& expanded(raw).len() == b - a + 1
            &&& forall|i: int|
                0 <= i <= b - a ==> #[trigger] expanded(raw)[i] == prefix + zero_padded(
                    (a + i) as nat,
                    width,
                ) + suffix
            &&& !(start + seq!['-'] + end).contains(',')
        }),
{
    let e = start + seq!['-'] + end;
    let raw = bracketed(prefix, e, suffix);
    lemma_number_chars(start, u32::MAX as nat);
    lemma_number_chars(end, u32::MAX as nat);
    let n = start.len() as int;
    assert forall|i: int| 0 <= i < e.len() implies #[trigger] e[i] != ']' && e[i] != ',' && (i < n
        ==> e[i] != '-') by {
        if i < n {
            assert(e[i] == start[i]);
        } else if i > n {
            assert(e[i] == end[i - n - 1]);
        }
    }
    lemma_bracketed(prefix, e, suffix);
    assert(e[n] == '-');
    lemma_sep_pos_unique(e, '-', n);
    assert(e.take(n) =~= start);
    assert(e.skip(n + 1) =~= end);
}

proof fn lemma_numbered(prefix: Seq<char>, n: nat, width: nat, suffix: Seq<char>)
    ensures
        is_numbered(prefix + zero_padded(n, width) + suffix, prefix, n, width, suffix),
{
    law_zero_padding(n, width);
    let z = zero_padded(n, width);
    assert forall|i: int| 0 <= i < z.len() implies '0' <= #[trigger] z[i] <= '9' by {
        assert(is_digit(z[i]));
    }
    assert(prefix + z + suffix == prefix + z + suffix);
}

proof fn lemma_middle(prefix: Seq<char>, y: Seq<char>, z: Seq<char>, suffix: Seq<char>)
    requires
        prefix + y + suffix == prefix + z + suffix,
    ensures
        y == z,
{
    let s = prefix + y + suffix;
    let t = prefix + z + suffix;
    let n = prefix.len() as int;
    assert(s.len() == n + y.len() + suffix.len());
    assert(t.len() == n + z.len() + suffix.len());
    assert(y.len() == z.len());
    assert forall|i: int| 0 <= i < y.len() implies #[trigger] y[i] == z[i] by {
        assert(s[n + i] == y[i]);
        assert(t[n + i] == z[i]);
    }
    assert(y =~= z);
}

/// `prefix[a-b]suffix` stands for one pattern for each number from `a` to `b`, in
/// ascending order: the prefix, the number with zeros up to the width of the wider
/// bound, and the suffix.
pub proof fn law_range(
    prefix: Seq<char>,
    start: Seq<char>,
    end: Seq<char>,
    suffix: Seq<char>,
    a: nat,
    b: nat,
)
    requires
        !prefix.contains('['),
        unsigned_value(start, u32::MAX as nat) == Some(a),
        unsigned_value(end, u32::MAX as nat) == Some(b),
        a <= b,
    ensures
        ({
            let patterns = expanded(bracketed(prefix, start + seq!['-'] + end, suffix));
            &&& patterns.len() == b - a + 1
            &&& forall|i: int|
                0 <= i <= b - a ==> is_numbered(
                    #[trigger] patterns[i],
                    prefix,
                    (a + i) as nat,
                    longer(start.len(), end.len()),
                    suffix,
                )
        }),
{
    lemma_range(prefix, start, end, suffix, a, b);
    let patterns = expanded(bracketed(prefix, start + seq!['-'] + end, suffix));
    let width = longer(start.len(), end.len());
    assert forall|i: int| 0 <= i <= b - a implies is_numbered(
        #[trigger] patterns[i],
        prefix,
        (a + i) as nat,
        width,
        suffix,
    ) by {
        lemma_numbered(prefix, (a + i) as nat, width, suffix);
    }
}

/// What is no range of numbers, or one that runs downwards, stands for itself.
pub proof fn law_no_range(
    prefix: Seq<char>,
    start: Seq<char>,
    end: Seq<char>,
    suffix: Seq<char>,
)
    requires
        !prefix.contains('['),
        !start.contains(']') && !start.contains('-'),
        !end.contains(']'),
        match (
            unsigned_value(start, u32::MAX as nat),
            unsigned_value(end, u32::MAX as nat),
        ) {
            (Some(a), Some(b)) => a > b,
            _ => true,
        },
    ensures
        expanded(bracketed(prefix, start + seq!['-'] + end, suffix)) == seq![
            bracketed(prefix, start + seq!['-'] + end, suffix),
        ],
{
    let e = start + seq!['-'] + end;
    lemma_no_char(start, ']');
    lemma_no_char(start, '-');
    lemma_no_char(end, ']');
    let n = start.len() as int;
    assert forall|i: int| 0 <= i < e.len() implies #[trigger] e[i] != ']' by {
        if i < n {
            assert(e[i] == start[i]);
        } else if i > n {
            assert(e[i] == end[i - n - 1]);
        }
    }
    lemma_bracketed(prefix, e, suffix);
    assert(e[n] == '-');
    lemma_sep_pos_unique(e, '-', n);
    assert(e.take(n) =~= start);
    assert(e.skip(n + 1) =~= end);
}

/// An item without a bracket expression stands for itself.
pub proof fn law_plain_item(raw: Seq<char>)
    requires
        !raw.contains('[') || !raw.contains(']'),
    ensures
        expanded(raw) == seq![raw],
{
    if !raw.contains('[') {
        lemma_no_char(raw, '[');
        lemma_sep_pos_unique(raw, '[', raw.len() as int);
    } else {
        crate::text::lemma_sep_pos(raw, '[');
        let open = sep_pos(raw, '[');
        let rest = raw.skip(open + 1);
        lemma_no_char(raw, ']');
        assert forall|i: int| 0 <= i < rest.len() implies #[trigger] rest[i] != ']' by {
            assert(rest[i] == raw[open + 1 + i]);
        }
        lemma_sep_pos_unique(rest, ']', rest.len() as int);
    }
}

proof fn lemma_listed(prefix: Seq<char>, suffix: Seq<char>, items: Seq<Seq<char>>)
    requires
        forall|i: int| 0 <= i < items.len() ==> trimmed(#[trigger] items[i]).len() > 0,
    ensures
        listed(prefix, suffix, items) == items.map_values(
            |s: Seq<char>| prefix + trimmed(s) + suffix,
        ),
    decreases items.len(),
{
    let f = |s: Seq<char>| prefix + trimmed(s) + suffix;
    if items.len() > 0 {
        let init = items.drop_last();
        assert forall|i: int| 0 <= i < init.len() implies trimmed(#[trigger] init[i]).len() > 0 by {
            assert(init[i] == items[i]);
        }
        lemma_listed(prefix, suffix, init);
        assert(items[items.len() - 1] == items.last());
        assert(listed(prefix, suffix, items) =~= items.map_values(f));
    } else {
        assert(listed(prefix, suffix, items) =~= items.map_values(f));
    }
}

pub proof fn lemma_split_glued(items: Seq<Seq<char>>, sep: char)
    requires
        items.len() > 0,
        forall|i: int| 0 <= i < items.len() ==> !(#[trigger] items[i]).contains(sep),
    ensures
        split_on(glued(items, sep), sep) == items,
    decreases items.len(),
{
    let rest = items.drop_first();
    if items.len() == 1 {
        law_split_off(items[0], sep, items[0]);
        assert(items =~= seq![items[0]]);
    } else {
        assert forall|i: int| 0 <= i < rest.len() implies !(#[trigger] rest[i]).contains(sep) by {
            assert(rest[i] == items[i + 1]);
        }
        lemma_split_glued(rest, sep);
        law_split_off(items[0], sep, glued(rest, sep));
        assert(items =~= seq![items[0]] + rest);
    }
}

proof fn lemma_glued_without(items: Seq<Seq<char>>, sep: char, c: char)
    requires
        c != sep,
        forall|i: int| 0 <= i < items.len() ==> !(#[trigger] items[i]).contains(c),
    ensures
        !glued(items, sep).contains(c),
    decreases items.len(),
{
    if items.len() == 1 {
    } else if items.len() > 1 {
        let rest = items.drop_first();
        assert forall|i: int| 0 <= i < rest.len() implies !(#[trigger] rest[i]).contains(c) by {
            assert(rest[i] == items[i + 1]);
        }
        lemma_glued_without(rest, sep, c);
        let s = glued(items, sep);
        lemma_no_char(items[0], c);
        lemma_no_char(glued(rest, sep), c);
        assert forall|i: int| 0 <= i < s.len() implies #[trigger] s[i] != c by {
            let n = items[0].len() as int;
            if i < n {
                assert(s[i] == items[0][i]);
            } else if i > n {
                assert(s[i] == glued(rest, sep)[i - n - 1]);
            }
        }
    }
}

/// `prefix[x,y,z]suffix` stands for one pattern for each entry of the list, in
/// order: the prefix, the entry without white space around it, and the suffix.
pub proof fn law_list(prefix: Seq<char>, entries: Seq<Seq<char>>, suffix: Seq<char>)
    requires
        !prefix.contains('['),
        entries.len() > 0,
        forall|i: int|
            0 <= i < entries.len() ==> !(#[trigger] entries[i]).contains(',')
                && !entries[i].contains('-') && !entries[i].contains(']') && trimmed(
                entries[i],
            ).len() > 0,
    ensures
        ({
            let patterns = expanded(bracketed(prefix, glued(entries, ','), suffix));
            &&& patterns.len() == entries.len()
            &&& forall|i: int|
                0 <= i < entries.len() ==> #[trigger] patterns[i] == prefix + trimmed(
                    entries[i],
                ) + suffix
        }),
{
    let e = glued(entries, ',');
    lemma_glued_without(entries, ',', ']');
    lemma_glued_without(entries, ',', '-');
    lemma_split_glued(entries, ',');
    lemma_bracketed(prefix, e, suffix);
    lemma_no_char(e, '-');
    lemma_sep_pos_unique(e, '-', e.len() as int);
    lemma_listed(prefix, suffix, entries);
}

proof fn lemma_listed_append(
    prefix: Seq<char>,
    suffix: Seq<char>,
    xs: Seq<Seq<char>>,
    ys: Seq<Seq<char>>,
)
    ensures
        listed(prefix, suffix, xs + ys) == listed(prefix, suffix, xs) + listed(prefix, suffix, ys),
    decreases ys.len(),
{
    if ys.len() == 0 {
        assert(xs + ys =~= xs);
        assert(listed(prefix, suffix, xs) + Seq::<Seq<char>>::empty() =~= listed(
            prefix,
            suffix,
            xs,
        ));
    } else {
        let init = ys.drop_last();
        lemma_listed_append(prefix, suffix, xs, init);
        assert((xs + ys).drop_last() =~= xs + init);
        assert((xs + ys).last() == ys.last());
        assert(listed(prefix, suffix, xs + ys) =~= listed(prefix, suffix, xs) + listed(
            prefix,
            suffix,
            ys,
        ));
    }
}

/// A blank entry of a list counts for nothing, as long as another entry is left;
/// a list of nothing but blanks is no list.
pub proof fn law_blank_entries(
    prefix: Seq<char>,
    before: Seq<Seq<char>>,
    blank: Seq<char>,
    behind: Seq<Seq<char>>,
    suffix: Seq<char>,
)
    requires
        !prefix.contains('['),
        !blank.contains(',') && !blank.contains('-') && !blank.contains(']'),
        trimmed(blank).len() == 0,
        before.len() + behind.len() > 0,
        forall|i: int|
            0 <= i < before.len() ==> !(#[trigger] before[i]).contains(',') && !before[i].contains(
                '-',
            ) && !before[i].contains(']') && trimmed(before[i]).len() > 0,
        forall|i: int|
            0 <= i < behind.len() ==> !(#[trigger] behind[i]).contains(',') && !behind[i].contains(
                '-',
            ) && !behind[i].contains(']') && trimmed(behind[i]).len() > 0,
    ensures
        expanded(bracketed(prefix, glued(before + seq![blank] + behind, ','), suffix)) == expanded(
            bracketed(prefix, glued(before + behind, ','), suffix),
        ),
        expanded(bracketed(prefix, blank, suffix)) == seq![bracketed(prefix, blank, suffix)],
{
    let all = before + seq![blank] + behind;
    let kept = before + behind;
    assert forall|i: int| 0 <= i < all.len() implies !(#[trigger] all[i]).contains(',')
        && !all[i].contains('-') && !all[i].contains(']') by {
        if i < before.len() {
            assert(all[i] == before[i]);
        } else if i > before.len() {
            assert(all[i] == behind[i - before.len() - 1]);
        }
    }
    assert forall|i: int| 0 <= i < kept.len() implies !(#[trigger] kept[i]).contains(',')
        && !kept[i].contains('-') && !kept[i].contains(']') && trimmed(kept[i]).len() > 0 by {
        if i < before.len() {
            assert(kept[i] == before[i]);
        } else {
            assert(kept[i] == behind[i - before.len()]);
        }
    }
    law_list(prefix, kept, suffix);
    let e = glued(all, ',');
    lemma_glued_without(all, ',', ']');
    lemma_glued_without(all, ',', '-');
    lemma_split_glued(all, ',');
    lemma_bracketed(prefix, e, suffix);
    lemma_no_char(e, '-');
    lemma_sep_pos_unique(e, '-', e.len() as int);
    lemma_listed_append(prefix, suffix, before + seq![blank], behind);
    lemma_listed_append(prefix, suffix, before, seq![blank]);
    lemma_listed_append(prefix, suffix, before, behind);
    lemma_listed(prefix, suffix, kept);
    let none = Seq::<Seq<char>>::empty();
    assert(seq![blank].drop_last() =~= none);
    assert(listed(prefix, suffix, none) =~= none);
    assert(listed(prefix, suffix, seq![blank]) =~= none);
    assert(listed(prefix, suffix, before) + none =~= listed(prefix, suffix, before));
    let f = glued(kept, ',');
    lemma_glued_without(kept, ',', ']');
    lemma_glued_without(kept, ',', '-');
    lemma_split_glued(kept, ',');
    lemma_bracketed(prefix, f, suffix);
    lemma_no_char(f, '-');
    lemma_sep_pos_unique(f, '-', f.len() as int);
    lemma_bracketed(prefix, blank, suffix);
    lemma_no_char(blank, '-');
    lemma_sep_pos_unique(blank, '-', blank.len() as int);
    law_split_off(blank, ',', blank);
}

// ---------------------------------------------------------------------------
// Whole filters

proof fn lemma_all_append(xs: Seq<Seq<char>>, ys: Seq<Seq<char>>)
    ensures
        all_expanded(xs + ys) == all_expanded(xs) + all_expanded(ys),
    decreases ys.len(),
{
    if ys.len() == 0 {
        assert(xs + ys =~= xs);
        assert(all_expanded(xs) + Seq::<Seq<char>>::empty() =~= all_expanded(xs));
    } else {
        let init = ys.drop_last();
        lemma_all_append(xs, init);
        assert((xs + ys).drop_last() =~= xs + init);
        assert((xs + ys).last() == ys.last());
        assert(all_expanded(xs + ys) =~= all_expanded(xs) + all_expanded(ys));
    }
}

proof fn lemma_all_one(item: Seq<char>)
    ensures
        trimmed(item).len() > 0 ==> all_expanded(seq![item]) == expanded(trimmed(item)),
        trimmed(item).len() == 0 ==> all_expanded(seq![item]) == Seq::<Seq<char>>::empty(),
{
    let none = Seq::<Seq<char>>::empty();
    assert(seq![item].drop_last() =~= none);
    assert(all_expanded(none) =~= none);
    assert(none + expanded(trimmed(item)) =~= expanded(trimmed(item)));
}

proof fn lemma_unique_stays(s: Seq<Seq<char>>)
    requires
        s.no_duplicates(),
    ensures
        deduplicated(s) == s,
    decreases s.len(),
{
    if s.len() > 0 {
        let init = s.drop_last();
        lemma_unique_stays(init);
        if init.contains(s.last()) {
            let i = init.index_of(s.last());
            assert(s[i] == s[s.len() - 1]);
        }
        assert(init.push(s.last()) =~= s);
    } else {
        assert(deduplicated(s) =~= s);
    }
}

/// The patterns of a filter text that is a single range are those of the range:
/// one for each of its numbers, in ascending order, and no other.
pub proof fn law_range_filter(
    prefix: Seq<char>,
    start: Seq<char>,
    end: Seq<char>,
    suffix: Seq<char>,
    a: nat,
    b: nat,
)
    requires
        !prefix.contains('[') && !prefix.contains(','),
        !suffix.contains(','),
        prefix.len() > 0 ==> !is_space(prefix[0]),
        suffix.len() > 0 ==> !is_space(suffix.last()),
        unsigned_value(start, u32::MAX as nat) == Some(a),
        unsigned_value(end, u32::MAX as nat) == Some(b),
        a <= b,
    ensures
        ({
            let patterns = filter_patterns(
                Some(bracketed(prefix, start + seq!['-'] + end, suffix)),
            );
            &&& patterns.len() == b - a + 1
            &&& forall|i: int|
                0 <= i <= b - a ==> is_numbered(
                    #[trigger] patterns[i],
                    prefix,
                    (a + i) as nat,
                    longer(start.len(), end.len()),
                    suffix,
                )
        }),
{
    let e = start + seq!['-'] + end;
    let raw = bracketed(prefix, e, suffix);
    lemma_range(prefix, start, end, suffix, a, b);
    law_range(prefix, start, end, suffix, a, b);
    lemma_no_char(prefix, ',');
    lemma_no_char(e, ',');
    lemma_no_char(suffix, ',');
    let n = prefix.len() as int;
    let m = e.len() as int;
    assert forall|i: int| 0 <= i < raw.len() implies #[trigger] raw[i] != ',' by {
        if i < n {
            assert(raw[i] == prefix[i]);
        } else if n < i < n + 1 + m {
            assert(raw[i] == e[i - n - 1]);
        } else if i > n + 1 + m {
            assert(raw[i] == suffix[i - n - m - 2]);
        }
    }
    law_items(raw, raw);
    assert(raw[n] == '[' && raw[n + 1 + m] == ']');
    if n > 0 {
        assert(raw[0] == prefix[0]);
    }
    if suffix.len() > 0 {
        assert(raw.last() == suffix.last());
    } else {
        assert(raw.last() == raw[n + 1 + m]);
    }
    law_trimmed_text_stays(raw);
    lemma_all_one(raw);
    let list = expanded(raw);
    let width = longer(start.len(), end.len());
    assert forall|i: int, j: int|
        0 <= i < list.len() && 0 <= j < list.len() && i != j implies list[i] != list[j] by {
        if list[i] == list[j] {
            let y = zero_padded((a + i) as nat, width);
            let z = zero_padded((a + j) as nat, width);
            lemma_middle(prefix, y, z, suffix);
            law_zero_padding((a + i) as nat, width);
            law_zero_padding((a + j) as nat, width);
        }
    }
    lemma_unique_stays(list);
}

/// A filter of two parts with a comma between them has the patterns of both, and
/// no others.
pub proof fn law_filter_of_two_parts(item: Seq<char>, rest: Seq<char>, pattern: Seq<char>)
    requires
        no_comma_outside(item, 0),
        depth_after(item, 0) == 0,
    ensures
        filter_patterns(Some(item + seq![','] + rest)).contains(pattern) <==> filter_patterns(
            Some(item),
        ).contains(pattern) || filter_patterns(Some(rest)).contains(pattern),
        filter_patterns(Some(item)).contains(pattern) <==> trimmed(item).len() > 0 && expanded(
            trimmed(item),
        ).contains(pattern),
{
    let all = item + seq![','] + rest;
    law_items(item, rest);
    law_patterns_are_deduplicated(all);
    law_patterns_are_deduplicated(item);
    law_patterns_are_deduplicated(rest);
    let ys = filter_items(rest, 0, Seq::empty());
    lemma_all_append(seq![item], ys);
    lemma_all_one(item);
    let left = all_expanded(seq![item]);
    let right = all_expanded(ys);
    assert((left + right).contains(pattern) <==> left.contains(pattern) || right.contains(pattern))
        by {
        if left.contains(pattern) {
            assert((left + right)[left.index_of(pattern)] == pattern);
        }
        if right.contains(pattern) {
            assert((left + right)[left.len() + right.index_of(pattern)] == pattern);
        }
        if (left + right).contains(pattern) {
            let i = (left + right).index_of(pattern);
            if i < left.len() {
                assert(left[i] == pattern);
            } else {
                assert(right[i - left.len()] == pattern);
            }
        }
    }
}

/// The patterns of a filter stand in the order in which they were first written.
pub proof fn law_patterns_in_order(before: Seq<Seq<char>>, more: Seq<Seq<char>>)
    ensures
        deduplicated(before).len() <= deduplicated(before + more).len(),
        deduplicated(before + more).take(deduplicated(before).len() as int) == deduplicated(before),
        before.no_duplicates() ==> deduplicated(before) == before,
    decreases more.len(),
{
    if before.no_duplicates() {
        lemma_unique_stays(before);
    }
    let d = deduplicated(before);
    if more.len() == 0 {
        assert(before + more =~= before);
        assert(d.take(d.len() as int) =~= d);
    } else {
        let init = more.drop_last();
        law_patterns_in_order(before, init);
        assert((before + more).drop_last() =~= before + init);
        assert(deduplicated(before + more).take(d.len() as int) =~= deduplicated(
            before + init,
        ).take(d.len() as int));
    }
}

/// No filter text, or a blank one, gives no patterns; a plain name gives itself.
pub proof fn law_simple_filters(raw: Seq<char>)
    requires
        !raw.contains(','),
        !raw.contains('['),
    ensures
        filter_patterns(None) == Seq::<Seq<char>>::empty(),
        trimmed(raw).len() == 0 ==> filter_patterns(Some(raw)) == Seq::<Seq<char>>::empty(),
        trimmed(raw).len() > 0 ==> filter_patterns(Some(raw)) == seq![trimmed(raw)],
{
    lemma_no_char(raw, ',');
    lemma_no_char(raw, '[');
    law_items(raw, raw);
    lemma_all_one(raw);
    let t = trimmed(raw);
    crate::laws::text::law_trimmed(raw);
    if t.contains('[') {
        let k = t.index_of('[');
        let (i, j) = choose|i: int, j: int|
            #[trigger] crate::laws::text::blank_around(raw, i, j) && trimmed(raw) == raw.subrange(
                i,
                j,
            );
        assert(raw[i + k] == '[');
    }
    law_plain_item(t);
    lemma_unique_stays(seq![t]);
    lemma_unique_stays(Seq::empty());
}

// ---------------------------------------------------------------------------
// Matching

/// Whether parts stand in a text from `m` on, one behind the other, the last of
/// them at the end.
spec fn tail_stands(parts: Seq<Seq<char>>, text: Seq<char>, m: int, at: Seq<int>) -> bool {
    &&& at.len() == parts.len() > 0
    &&& m <= at[0]
    &&& at.last() + parts.last().len() == text.len()
    &&& forall|i: int| 0 <= i < parts.len() ==> #[trigger] occurs_at(text, parts[i], at[i])
    &&& forall|i: int, j: int|
        #![trigger at[i], at[j]]
        0 <= i < j < parts.len() ==> at[i] + parts[i].len() <= at[j]
}

proof fn lemma_occurs_skip(text: Seq<char>, m: int, pat: Seq<char>, i: int)
    requires
        0 <= m <= text.len(),
        0 <= i,
    ensures
        occurs_at(text.skip(m), pat, i) <==> occurs_at(text, pat, i + m),
{
    if i + m + pat.len() <= text.len() {
        assert(text.skip(m).subrange(i, i + pat.len()) =~= text.subrange(
            i + m,
            i + m + pat.len(),
        ));
    }
}

/// A first part and a tail stand where the part begins the text and the tail
/// stands behind it.
proof fn lemma_head_and_tail(head: Seq<char>, parts: Seq<Seq<char>>, text: Seq<char>)
    requires
        parts.len() > 0,
    ensures
        (exists|at: Seq<int>| parts_stand(seq![head] + parts, text, at)) <==> begins(text, head)
            && (exists|at: Seq<int>| tail_stands(parts, text, head.len() as int, at)),
{
    let all = seq![head] + parts;
    if exists|at: Seq<int>| parts_stand(all, text, at) {
        let at = choose|at: Seq<int>| parts_stand(all, text, at);
        let tail = at.drop_first();
        assert(all[0] == head);
        assert(occurs_at(text, all[0], at[0]));
        assert forall|i: int| 0 <= i < parts.len() implies #[trigger] occurs_at(
            text,
            parts[i],
            tail[i],
        ) by {
            assert(occurs_at(text, all[i + 1], at[i + 1]));
        }
        assert forall|i: int, j: int|
            #![trigger tail[i], tail[j]]
            0 <= i < j < parts.len() implies tail[i] + parts[i].len() <= tail[j] by {
            assert(at[i + 1] + all[i + 1].len() <= at[j + 1]);
        }
        assert(at[0] + all[0].len() <= at[1]);
        assert(tail_stands(parts, text, head.len() as int, tail));
    }
    if begins(text, head) && exists|at: Seq<int>|
        tail_stands(parts, text, head.len() as int, at) {
        let tail = choose|at: Seq<int>| tail_stands(parts, text, head.len() as int, at);
        let at = seq![0int] + tail;
        assert forall|i: int| 0 <= i < all.len() implies #[trigger] occurs_at(
            text,
            all[i],
            at[i],
        ) by {
            if i > 0 {
                assert(occurs_at(text, parts[i - 1], tail[i - 1]));
            }
        }
        assert forall|i: int, j: int|
            #![trigger at[i], at[j]]
            0 <= i < j < all.len() implies at[i] + all[i].len() <= at[j] by {
            if i > 0 {
                assert(tail[i - 1] + parts[i - 1].len() <= tail[j - 1]);
            } else {
                assert(at[j] == tail[j - 1]);
                if j > 1 {
                    assert(tail[0] + parts[0].len() <= tail[j - 1]);
                }
            }
        }
        assert(parts_stand(all, text, at));
    }
}

proof fn lemma_tail_shift(parts: Seq<Seq<char>>, text: Seq<char>, m: int)
    requires
        parts.len() > 0,
        0 <= m <= text.len(),
    ensures
        (exists|at: Seq<int>| tail_stands(parts, text, m, at)) <==> (exists|at: Seq<int>|
            tail_stands(parts, text.skip(m), 0, at)),
{
    let rest = text.skip(m);
    if exists|at: Seq<int>| tail_stands(parts, text, m, at) {
        let at = choose|at: Seq<int>| tail_stands(parts, text, m, at);
        let to = at.map_values(|i: int| i - m);
        assert forall|i: int| 0 <= i < parts.len() implies #[trigger] occurs_at(
            rest,
            parts[i],
            to[i],
        ) by {
            assert(occurs_at(text, parts[i], at[i]));
            if i > 0 {
                assert(at[0] + parts[0].len() <= at[i]);
            }
            lemma_occurs_skip(text, m, parts[i], to[i]);
        }
        assert forall|i: int, j: int|
            #![trigger to[i], to[j]]
            0 <= i < j < parts.len() implies to[i] + parts[i].len() <= to[j] by {
            assert(at[i] + parts[i].len() <= at[j]);
        }
        assert(tail_stands(parts, rest, 0, to));
    }
    if exists|at: Seq<int>| tail_stands(parts, rest, 0, at) {
        let at = choose|at: Seq<int>| tail_stands(parts, rest, 0, at);
        let to = at.map_values(|i: int| i + m);
        assert forall|i: int| 0 <= i < parts.len() implies #[trigger] occurs_at(
            text,
            parts[i],
            to[i],
        ) by {
            assert(occurs_at(rest, parts[i], at[i]));
            lemma_occurs_skip(text, m, parts[i], at[i]);
        }
        assert forall|i: int, j: int|
            #![trigger to[i], to[j]]
            0 <= i < j < parts.len() implies to[i] + parts[i].len() <= to[j] by {
            assert(at[i] + parts[i].len() <= at[j]);
        }
        assert(tail_stands(parts, text, m, to));
    }
}

proof fn lemma_star(p: Seq<char>, q: Seq<char>)
    requires
        !p.contains('*'),
    ensures
        (p + seq!['*'] + q).contains('*'),
        (seq!['*'] + p + seq!['*'] + q).contains('*'),
        (seq!['*'] + q).contains('*'),
        split_on(p + seq!['*'] + q, '*') == seq![p] + split_on(q, '*'),
        split_on(seq!['*'] + q, '*') == seq![Seq::<char>::empty()] + split_on(q, '*'),
        split_on(seq!['*'] + p + seq!['*'] + q, '*') == seq![Seq::<char>::empty()] + (seq![p]
            + split_on(q, '*')),
        split_on(q, '*').len() > 0,
{
    let none = Seq::<char>::empty();
    let s = p + seq!['*'] + q;
    assert(s[p.len() as int] == '*');
    assert((seq!['*'] + q)[0] == '*');
    assert((seq!['*'] + p + seq!['*'] + q)[0] == '*');
    law_split_off(p, '*', q);
    law_split_off(none, '*', q);
    law_split_off(none, '*', s);
    assert(none + seq!['*'] + q =~= seq!['*'] + q);
    assert(none + seq!['*'] + s =~= seq!['*'] + p + seq!['*'] + q);
    crate::laws::text::law_split(q, '*');
}

/// What stands before the first star begins the text, and what stands behind the
/// star is looked for behind it.
pub proof fn law_star_behind(p: Seq<char>, q: Seq<char>, text: Seq<char>)
    requires
        !p.contains('*'),
    ensures
        wildcard_matches(p + seq!['*'] + q, text) <==> begins(text, p) && wildcard_matches(
            seq!['*'] + q,
            text.skip(p.len() as int),
        ),
{
    let none = Seq::<char>::empty();
    lemma_star(p, q);
    let parts = split_on(q, '*');
    lemma_head_and_tail(p, parts, text);
    if begins(text, p) {
        let rest = text.skip(p.len() as int);
        lemma_head_and_tail(none, parts, rest);
        lemma_tail_shift(parts, text, p.len() as int);
        assert(rest.subrange(0, 0) =~= none);
        assert(begins(rest, none));
    }
}

/// What stands between two stars occurs somewhere in the text, and what stands
/// behind the second star is looked for behind it.
pub proof fn law_between_stars(p: Seq<char>, q: Seq<char>, text: Seq<char>)
    requires
        !p.contains('*'),
    ensures
        wildcard_matches(seq!['*'] + p + seq!['*'] + q, text) <==> (exists|k: int| #[trigger]
            occurs_at(text, p, k) && wildcard_matches(seq!['*'] + q, text.skip(k + p.len()))),
{
    let none = Seq::<char>::empty();
    lemma_star(p, q);
    let parts = split_on(q, '*');
    let all = seq![p] + parts;
    lemma_head_and_tail(none, all, text);
    assert(text.subrange(0, 0) =~= none);
    if exists|at: Seq<int>| tail_stands(all, text, 0, at) {
        let at = choose|at: Seq<int>| tail_stands(all, text, 0, at);
        let k = at[0];
        let tail = at.drop_first();
        assert(occurs_at(text, all[0], at[0]));
        assert(all[0] == p);
        assert forall|i: int| 0 <= i < parts.len() implies #[trigger] occurs_at(
            text,
            parts[i],
            tail[i],
        ) by {
            assert(occurs_at(text, all[i + 1], at[i + 1]));
        }
        assert forall|i: int, j: int|
            #![trigger tail[i], tail[j]]
            0 <= i < j < parts.len() implies tail[i] + parts[i].len() <= tail[j] by {
            assert(at[i + 1] + all[i + 1].len() <= at[j + 1]);
        }
        assert(at[0] + all[0].len() <= at[1]);
        let m = k + p.len();
        assert(tail_stands(parts, text, m, tail));
        lemma_tail_shift(parts, text, m);
        lemma_head_and_tail(none, parts, text.skip(m));
        assert(text.skip(m).subrange(0, 0) =~= none);
        assert(begins(text.skip(m), none));
        assert(occurs_at(text, p, k) && wildcard_matches(seq!['*'] + q, text.skip(k + p.len())));
    }
    if exists|k: int| #[trigger]
        occurs_at(text, p, k) && wildcard_matches(seq!['*'] + q, text.skip(k + p.len())) {
        let k = choose|k: int| #[trigger]
            occurs_at(text, p, k) && wildcard_matches(seq!['*'] + q, text.skip(k + p.len()));
        let m = k + p.len();
        lemma_head_and_tail(none, parts, text.skip(m));
        lemma_tail_shift(parts, text, m);
        let tail = choose|at: Seq<int>| tail_stands(parts, text, m, at);
        let at = seq![k] + tail;
        assert forall|i: int| 0 <= i < all.len() implies #[trigger] occurs_at(
            text,
            all[i],
            at[i],
        ) by {
            if i > 0 {
                assert(occurs_at(text, parts[i - 1], tail[i - 1]));
            }
        }
        assert forall|i: int, j: int|
            #![trigger at[i], at[j]]
            0 <= i < j < all.len() implies at[i] + all[i].len() <= at[j] by {
            if i > 0 {
                assert(tail[i - 1] + parts[i - 1].len() <= tail[j - 1]);
            } else {
                assert(at[j] == tail[j - 1]);
                if j > 1 {
                    assert(tail[0] + parts[0].len() <= tail[j - 1]);
                }
            }
        }
        assert(tail_stands(all, text, 0, at));
        assert(begins(text, none));
    }
}

/// A pattern without a star matches the texts that it is a stretch of.
pub proof fn law_plain_pattern(before: Seq<char>, pattern: Seq<char>, behind: Seq<char>)
    requires
        !pattern.contains('*'),
    ensures
        wildcard_matches(pattern, before + pattern + behind),
        wildcard_matches(pattern, behind) ==> exists|i: int|
            0 <= i <= behind.len() - pattern.len() && #[trigger] behind.subrange(
                i,
                i + pattern.len(),
            ) == pattern,
{
    let text = before + pattern + behind;
    let n = before.len() as int;
    assert(text.subrange(n, n + pattern.len()) =~= pattern);
    assert(occurs_at(text, pattern, n));
    if wildcard_matches(pattern, behind) {
        let i = choose|i: int| occurs_at(behind, pattern, i);
        assert(behind.subrange(i, i + pattern.len()) == pattern);
    }
}

/// A pattern that is no address is held against the host name, the IP address,
/// the address and the connection id, and one match is enough. A pattern that is
/// a socket address matches that address and no other.
pub proof fn law_what_a_pattern_is_held_against(
    pattern: Seq<char>,
    socket: AddrView,
    hostname: Seq<char>,
    addr: AddrView,
    id: Seq<char>,
)
    ensures
        pattern_matches(pattern, AddrPatternView::NotAnAddress, hostname, addr, id) <==> {
            ||| wildcard_matches(pattern, hostname)
            ||| wildcard_matches(pattern, addr.ip)
            ||| wildcard_matches(pattern, addr_text(addr))
            ||| wildcard_matches(pattern, id)
        },
        !pattern.contains('*') ==> (pattern_matches(
            pattern,
            AddrPatternView::Socket(socket),
            hostname,
            addr,
            id,
        ) <==> socket == addr),
{
}

/// One more pattern lets the nodes through that match it, and keeps those that
/// matched before.
pub proof fn law_one_more_pattern(
    f: FilterView,
    pattern: Seq<char>,
    kind: AddrPatternView,
    hostname: Seq<char>,
    addr: AddrView,
    id: Seq<char>,
)
    requires
        f.patterns.len() == f.kinds.len(),
    ensures
        ({
            let more = FilterView {
                patterns: f.patterns.push(pattern),
                kinds: f.kinds.push(kind),
            };
            filter_matches(more, hostname, addr, id) <==> pattern_matches(
                pattern,
                kind,
                hostname,
                addr,
                id,
            ) || (f.patterns.len() > 0 && filter_matches(f, hostname, addr, id))
        }),
{
    let more = FilterView { patterns: f.patterns.push(pattern), kinds: f.kinds.push(kind) };
    let n = f.patterns.len() as int;
    assert(more.patterns[n] == pattern && more.kinds[n] == kind);
    if pattern_matches(pattern, kind, hostname, addr, id) {
        assert(pattern_matches(more.patterns[n], more.kinds[n], hostname, addr, id));
    }
    if f.patterns.len() > 0 && filter_matches(f, hostname, addr, id) {
        let i = choose|i: int|
            0 <= i < f.patterns.len() && #[trigger] pattern_matches(
                f.patterns[i],
                f.kinds[i],
                hostname,
                addr,
                id,
            );
        assert(pattern_matches(more.patterns[i], more.kinds[i], hostname, addr, id));
    }
    if filter_matches(more, hostname, addr, id) {
        let i = choose|i: int|
            0 <= i < more.patterns.len() && #[trigger] pattern_matches(
                more.patterns[i],
                more.kinds[i],
                hostname,
                addr,
                id,
            );
        if i < n {
            assert(pattern_matches(f.patterns[i], f.kinds[i], hostname, addr, id));
        }
    }
}

} // verus!
