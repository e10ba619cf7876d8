//! Node filters: comma-separated patterns over host names, addresses and
//! connection ids, with `*` wildcards and bracket expressions.

use vstd::prelude::*;
use crate::common::net::{addr_text, AddrPattern, AddrPatternView, AddrView, NodeAddr};
use crate::text::{
    begins, chars_of, contains, ends, find_chars, lemma_sep_pos, lemma_sep_pos_unique, matches_at,
    occurs, occurs_at, parse_unsigned, push_zero_padded, same, sep_pos, slice_of, split, split_on,
    string_of, texts, trim, trimmed, unsigned_value, zero_padded,
};

verus! {

/// The patterns of a filter. A filter without patterns matches every node.
#[derive(Debug, PartialEq, Eq)]
pub struct NodeFilter {
    patterns: Vec<String>,
    kinds: Vec<AddrPattern>,
}

pub struct FilterView {
    pub patterns: Seq<Seq<char>>,
    pub kinds: Seq<AddrPatternView>,
}

impl View for NodeFilter {
    type V = FilterView;

    closed spec fn view(&self) -> FilterView {
        FilterView {
            patterns: texts(self.patterns@),
            kinds: self.kinds@.map_values(|k: AddrPattern| k@),
        }
    }
}

// ---------------------------------------------------------------------------
// Splitting and expanding

/// The items of a filter: the parts between commas that stand outside of
/// brackets. `current` is the part of the first item that was read already.
pub open spec fn filter_items(s: Seq<char>, depth: nat, current: Seq<char>) -> Seq<Seq<char>>
    decreases s.len(),
{
    if s.len() == 0 {
        seq![current]
    } else {
        let c = s[0];
        let rest = s.drop_first();
        if c == '[' {
            filter_items(rest, depth + 1, current.push(c))
        } else if c == ']' {
            filter_items(
                rest,
                if depth == 0 {
                    0
                } else {
                    (depth - 1) as nat
                },
                current.push(c),
            )
        } else if c == ',' && depth == 0 {
            seq![current] + filter_items(rest, 0, Seq::empty())
        } else {
            filter_items(rest, depth, current.push(c))
        }
    }
}

fn split_filter_items(raw: &str) -> (r: Vec<String>)
    ensures
        texts(r@) == filter_items(raw@, 0, Seq::empty()),
{
    let chars = chars_of(raw);
    let n: usize = chars.len();
    let mut items: Vec<String> = Vec::new();
    let mut start: usize = 0;
    let mut depth: usize = 0;
    let mut i: usize = 0;
    assert(chars@.skip(0) =~= raw@);
    assert(chars@.subrange(0, 0) =~= Seq::empty());
    assert(texts(items@) + filter_items(raw@, 0, Seq::empty()) =~= filter_items(
        raw@,
        0,
        Seq::empty(),
    ));
    while i < n
        invariant
            start <= i <= n == chars@.len(),
            depth <= i,
            chars@ == raw@,
            texts(items@) + filter_items(
                chars@.skip(i as int),
                depth as nat,
                chars@.subrange(start as int, i as int),
            ) == filter_items(raw@, 0, Seq::empty()),
        decreases n - i,
    {
        let c: char = chars[i];
        proof {
            assert(chars@.skip(i as int)[0] == c);
            assert(chars@.skip(i as int).drop_first() =~= chars@.skip(i + 1));
            assert(chars@.subrange(start as int, i as int).push(c) =~= chars@.subrange(
                start as int,
                i + 1,
            ));
        }
        if c == '[' {
            depth = depth + 1;
        } else if c == ']' {
            if depth > 0 {
                depth = depth - 1;
            }
        } else if c == ',' && depth == 0 {
            let item = slice_of(chars.as_slice(), start, i);
            proof {
                assert(texts(items@.push(item)) =~= texts(items@).push(item@));
                let rest = filter_items(chars@.skip(i + 1), 0, Seq::empty());
                assert(texts(items@).push(item@) + rest =~= texts(items@) + (seq![item@] + rest));
                assert(chars@.subrange(i + 1, i + 1) =~= Seq::empty());
            }
            items.push(item);
            start = i + 1;
        }
        i = i + 1;
    }
    let item = slice_of(chars.as_slice(), start, n);
    proof {
        assert(chars@.skip(n as int) =~= Seq::empty());
        assert(texts(items@.push(item)) =~= texts(items@) + seq![item@]);
    }
    items.push(item);
    items
}

/// The texts `prefix + number + suffix` for the numbers from `start` to `end`,
/// as wide as the longer of the two. An expression that is no range stays
/// as it is.
pub open spec fn numeric_range(
    raw: Seq<char>,
    prefix: Seq<char>,
    suffix: Seq<char>,
    start: Seq<char>,
    end: Seq<char>,
) -> Seq<Seq<char>> {
    match (unsigned_value(start, u32::MAX as nat), unsigned_value(end, u32::MAX as nat)) {
        (Some(a), Some(b)) => if a > b {
            seq![raw]
        } else {
            let width = if start.len() > end.len() {
                start.len()
            } else {
                end.len()
            };
            Seq::new(
                (b - a + 1) as nat,
                |i: int| prefix + zero_padded((a + i) as nat, width) + suffix,
            )
        },
        _ => seq![raw],
    }
}

/// The texts `prefix + item + suffix` for the items of a list that are not
/// blank.
pub open spec fn listed(prefix: Seq<char>, suffix: Seq<char>, items: Seq<Seq<char>>) -> Seq<
    Seq<char>,
>
    decreases items.len(),
{
    if items.len() == 0 {
        Seq::empty()
    } else {
        let before = listed(prefix, suffix, items.drop_last());
        let item = trimmed(items.last());
        if item.len() == 0 {
            before
        } else {
            before.push(prefix + item + suffix)
        }
    }
}

/// The patterns that an item stands for. The first bracket expression of the
/// item is expanded, as a range or as a list.
pub open spec fn expanded(raw: Seq<char>) -> Seq<Seq<char>> {
    let open = sep_pos(raw, '[');
    let rest = raw.skip(open + 1);
    let close = sep_pos(rest, ']');
    let expression = rest.take(close);
    let dash = sep_pos(expression, '-');
    let prefix = raw.take(open);
    let suffix = rest.skip(close + 1);
    if open >= raw.len() || close >= rest.len() {
        seq![raw]
    } else if dash < expression.len() {
        numeric_range(raw, prefix, suffix, expression.take(dash), expression.skip(dash + 1))
    } else {
        let list = listed(prefix, suffix, split_on(expression, ','));
        if list.len() == 0 {
            seq![raw]
        } else {
            list
        }
    }
}

fn one(raw: &str) -> (r: Vec<String>)
    ensures
        texts(r@) == seq![raw@],
{
    let mut out: Vec<String> = Vec::new();
    out.push(raw.to_owned());
    assert(texts(out@) =~= seq![raw@]);
    out
}

fn position(chars: &[char], c: char) -> (r: usize)
    ensures
        r == sep_pos(chars@, c),
        r <= chars@.len(),
{
    let mut i: usize = 0;
    while i < chars.len()
        invariant
            i <= chars@.len(),
            forall|j: int| 0 <= j < i ==> chars@[j] != c,
        decreases chars@.len() - i,
    {
        if chars[i] == c {
            proof {
                lemma_sep_pos_unique(chars@, c, i as int);
            }
            return i;
        }
        i = i + 1;
    }
    proof {
        lemma_sep_pos_unique(chars@, c, i as int);
    }
    i
}

fn expand_numeric_range(raw: &str, prefix: &str, suffix: &str, start: &str, end: &str) -> (r: Vec<
    String,
>)
    ensures
        texts(r@) == numeric_range(raw@, prefix@, suffix@, start@, end@),
{
    let a: u64 = match parse_unsigned(start, u32::MAX as u64) {
        Some(v) => v,
        None => {
            return one(raw);
        },
    };
    let b: u64 = match parse_unsigned(end, u32::MAX as u64) {
        Some(v) => v,
        None => {
            return one(raw);
        },
    };
    if a > b {
        return one(raw);
    }
    let x: usize = start.unicode_len();
    let y: usize = end.unicode_len();
    let width: usize = if x > y {
        x
    } else {
        y
    };
    let ghost wanted = numeric_range(raw@, prefix@, suffix@, start@, end@);
    let mut out: Vec<String> = Vec::new();
    let mut n: u64 = a;
    while n <= b
        invariant
            a <= n <= b + 1,
            b <= u32::MAX,
            wanted == Seq::new(
                (b - a + 1) as nat,
                |i: int| prefix@ + zero_padded((a + i) as nat, width as nat) + suffix@,
            ),
            texts(out@) == wanted.take(n - a),
        decreases b + 1 - n,
    {
        let mut s = prefix.to_owned();
        push_zero_padded(&mut s, n, width);
        s.append(suffix);
        proof {
            assert(wanted[n - a] == s@);
            assert(texts(out@.push(s)) =~= texts(out@).push(s@));
            assert(wanted.take(n - a).push(s@) =~= wanted.take(n - a + 1));
        }
        out.push(s);
        n = n + 1;
    }
    assert(wanted.take(n - a) =~= wanted);
    out
}

fn expand_bracket_expression(raw: &str) -> (r: Vec<String>)
    ensures
        texts(r@) == expanded(raw@),
{
    let chars = chars_of(raw);
    let n: usize = chars.len();
    let open: usize = position(chars.as_slice(), '[');
    if open >= n {
        return one(raw);
    }
    let rest = &chars.as_slice()[open + 1..n];
    assert(rest@ =~= raw@.skip(open + 1));
    let close: usize = position(rest, ']');
    if close >= rest.len() {
        return one(raw);
    }
    let expression = &rest[0..close];
    assert(expression@ =~= rest@.take(close as int));
    let prefix = slice_of(chars.as_slice(), 0, open);
    assert(prefix@ =~= raw@.take(open as int));
    let suffix = slice_of(rest, close + 1, rest.len());
    assert(suffix@ =~= rest@.skip(close + 1));
    let dash: usize = position(expression, '-');
    if dash < expression.len() {
        let start = slice_of(expression, 0, dash);
        let end = slice_of(expression, dash + 1, expression.len());
        assert(start@ =~= expression@.take(dash as int));
        assert(end@ =~= expression@.skip(dash + 1));
        return expand_numeric_range(
            raw,
            prefix.as_str(),
            suffix.as_str(),
            start.as_str(),
            end.as_str(),
        );
    }
    let items = split(string_of(expression).as_str(), ',');
    let ghost all = texts(items@);
    let mut list: Vec<String> = Vec::new();
    let mut i: usize = 0;
    assert(all.take(0) =~= Seq::empty());
    assert(texts(list@) =~= Seq::empty());
    while i < items.len()
        invariant
            i <= items@.len(),
            all == texts(items@),
            texts(list@) == listed(prefix@, suffix@, all.take(i as int)),
        decreases items@.len() - i,
    {
        let item = trim(items[i].as_str());
        proof {
            assert(all.take(i + 1).drop_last() =~= all.take(i as int));
            assert(all.take(i + 1).last() == items@[i as int]@);
        }
        if !item.as_str().is_empty() {
            let mut s = prefix.clone();
            s.append(item.as_str());
            s.append(suffix.as_str());
            assert(texts(list@.push(s)) =~= texts(list@).push(s@));
            list.push(s);
        }
        i = i + 1;
    }
    assert(all.take(i as int) =~= all);
    assert(texts(list@).len() == list@.len());
    if list.len() == 0 {
        one(raw)
    } else {
        list
    }
}

/// The patterns that a list of items stands for, blank items left out.
pub open spec fn all_expanded(items: Seq<Seq<char>>) -> Seq<Seq<char>>
    decreases items.len(),
{
    if items.len() == 0 {
        Seq::empty()
    } else {
        let before = all_expanded(items.drop_last());
        let item = trimmed(items.last());
        if item.len() == 0 {
            before
        } else {
            before + expanded(item)
        }
    }
}

/// `s` without the elements that occurred before.
pub open spec fn deduplicated(s: Seq<Seq<char>>) -> Seq<Seq<char>>
    decreases s.len(),
{
    if s.len() == 0 {
        Seq::empty()
    } else {
        let before = deduplicated(s.drop_last());
        if before.contains(s.last()) {
            before
        } else {
            before.push(s.last())
        }
    }
}

/// The patterns of a filter text.
pub open spec fn filter_patterns(raw: Option<Seq<char>>) -> Seq<Seq<char>> {
    match raw {
        Some(s) => deduplicated(all_expanded(filter_items(s, 0, Seq::empty()))),
        None => Seq::empty(),
    }
}

proof fn lemma_deduplicated_unique(s: Seq<Seq<char>>)
    ensures
        deduplicated(s).no_duplicates(),
        forall|x: Seq<char>| deduplicated(s).contains(x) <==> s.contains(x),
    decreases s.len(),
{
    if s.len() > 0 {
        lemma_deduplicated_unique(s.drop_last());
        let before = deduplicated(s.drop_last());
        let after = deduplicated(s);
        assert forall|x: Seq<char>| after.contains(x) <==> s.contains(x) by {
            if s.contains(x) {
                let i = choose|i: int| 0 <= i < s.len() && s[i] == x;
                if i < s.len() - 1 {
                    assert(s.drop_last()[i] == x);
                    assert(s.drop_last().contains(x));
                    assert(before.contains(x));
                    let j = choose|j: int| 0 <= j < before.len() && before[j] == x;
                    assert(after[j] == x);
                } else {
                    assert(x == s.last());
                    if !before.contains(x) {
                        assert(after[after.len() - 1] == x);
                    }
                }
            }
            if after.contains(x) {
                let j = choose|j: int| 0 <= j < after.len() && after[j] == x;
                if j < before.len() {
                    assert(before[j] == x);
                    assert(s.drop_last().contains(x));
                    let i = choose|i: int| 0 <= i < s.drop_last().len() && s.drop_last()[i] == x;
                    assert(s[i] == x);
                } else {
                    assert(s[s.len() - 1] == x);
                }
            }
        }
    }
}

/// No pattern of a filter occurs twice, and every pattern that the filter text
/// stands for occurs.
pub proof fn law_patterns_are_deduplicated(raw: Seq<char>)
    ensures
        filter_patterns(Some(raw)).no_duplicates(),
        forall|x: Seq<char>|
            filter_patterns(Some(raw)).contains(x) <==> all_expanded(
                filter_items(raw, 0, Seq::empty()),
            ).contains(x),
{
    lemma_deduplicated_unique(all_expanded(filter_items(raw, 0, Seq::empty())));
}

fn holds(list: &Vec<String>, s: &str) -> (r: bool)
    ensures
        r == texts(list@).contains(s@),
{
    let mut i: usize = 0;
    while i < list.len()
        invariant
            i <= list@.len(),
            forall|j: int| 0 <= j < i ==> (#[trigger] texts(list@)[j]) != s@,
        decreases list@.len() - i,
    {
        if same(list[i].as_str(), s) {
            assert(texts(list@)[i as int] == s@);
            return true;
        }
        i = i + 1;
    }
    false
}

// ---------------------------------------------------------------------------
// Matching

/// Whether the parts of a pattern stand in a text at the given places: the
/// first at its front, the last at its end, and none before the end of the one
/// ahead of it.
pub open spec fn parts_stand(parts: Seq<Seq<char>>, text: Seq<char>, at: Seq<int>) -> bool {
    &&& at.len() == parts.len() > 0
    &&& at[0] == 0
    &&& at.last() + parts.last().len() == text.len()
    &&& forall|i: int| 0 <= i < parts.len() ==> #[trigger] occurs_at(text, parts[i], at[i])
    &&& forall|i: int, j: int|
        #![trigger at[i], at[j]]
        0 <= i < j < parts.len() ==> at[i] + parts[i].len() <= at[j]
}

/// Whether a text matches a pattern. A pattern without `*` matches where it
/// occurs; with `*`, where the text is made of what stands around the stars, in
/// order, with anything in place of each star.
pub open spec fn wildcard_matches(pattern: Seq<char>, text: Seq<char>) -> bool {
    if !pattern.contains('*') {
        occurs(text, pattern)
    } else {
        exists|at: Seq<int>| parts_stand(split_on(pattern, '*'), text, at)
    }
}

/// Whether an address is the one that a pattern writes.
pub open spec fn addr_matches(kind: AddrPatternView, addr: AddrView) -> bool {
    match kind {
        AddrPatternView::NotAnAddress => false,
        AddrPatternView::Ip(ip) => ip == addr.ip,
        AddrPatternView::Socket(a) => a == addr,
    }
}

/// Whether a node matches a pattern. A pattern that is an address matches that
/// address only.
pub open spec fn pattern_matches(
    pattern: Seq<char>,
    kind: AddrPatternView,
    hostname: Seq<char>,
    addr: AddrView,
    connection_id: Seq<char>,
) -> bool {
    if !pattern.contains('*') && !(kind is NotAnAddress) {
        addr_matches(kind, addr)
    } else {
        ||| addr_matches(kind, addr)
        ||| wildcard_matches(pattern, hostname)
        ||| wildcard_matches(pattern, addr.ip)
        ||| wildcard_matches(pattern, addr_text(addr))
        ||| wildcard_matches(pattern, connection_id)
    }
}

/// Whether a node matches a filter.
pub open spec fn filter_matches(
    f: FilterView,
    hostname: Seq<char>,
    addr: AddrView,
    connection_id: Seq<char>,
) -> bool {
    f.patterns.len() == 0 || exists|i: int|
        0 <= i < f.patterns.len() && #[trigger] pattern_matches(
            f.patterns[i],
            f.kinds[i],
            hostname,
            addr,
            connection_id,
        )
}

fn has_star(chars: &[char]) -> (r: bool)
    ensures
        r == chars@.contains('*'),
{
    let i: usize = position(chars, '*');
    proof {
        lemma_sep_pos(chars@, '*');
        if i < chars@.len() {
            assert(chars@[i as int] == '*');
        }
    }
    i < chars.len()
}

/// Whether a text matches a pattern.
pub fn wildcard_match(pattern: &str, text: &str) -> (r: bool)
    ensures
        r == wildcard_matches(pattern@, text@),
{
    let p = chars_of(pattern);
    if !has_star(p.as_slice()) {
        return contains(text, pattern);
    }
    let parts = split(pattern, '*');
    let ghost all = texts(parts@);
    let chars = chars_of(text);
    proof {
        lemma_star_parts(pattern@);
    }
    let count: usize = parts.len();
    let first = chars_of(parts[0].as_str());
    let last = chars_of(parts[count - 1].as_str());
    assert(first@ == all[0] && last@ == all.last());
    if first.len() > chars.len() || last.len() > chars.len() - first.len() {
        proof {
            assert forall|at: Seq<int>| !parts_stand(all, text@, at) by {
                if parts_stand(all, text@, at) {
                    assert(at[0] + all[0].len() <= at[count - 1]);
                }
            }
        }
        return false;
    }
    let end: usize = chars.len() - last.len();
    if !matches_at(chars.as_slice(), first.as_slice(), 0) || !matches_at(
        chars.as_slice(),
        last.as_slice(),
        end,
    ) {
        proof {
            assert forall|at: Seq<int>| !parts_stand(all, text@, at) by {
                if parts_stand(all, text@, at) {
                    assert(occurs_at(text@, all[0], at[0]));
                    assert(occurs_at(text@, all[count - 1], at[count - 1]));
                }
            }
        }
        return false;
    }
    let mut from: usize = first.len();
    let ghost mut places: Seq<int> = seq![0int];
    let mut i: usize = 1;
    while i < count - 1
        invariant
            1 <= i <= count - 1,
            count == parts@.len(),
            all == texts(parts@),
            all == split_on(pattern@, '*'),
            pattern@.contains('*'),
            chars@ == text@,
            from <= end <= chars@.len(),
            end + all[count - 1].len() == chars@.len(),
            places.len() == i,
            places[0] == 0,
            forall|k: int| 0 <= k < i ==> #[trigger] occurs_at(text@, all[k], places[k]),
            forall|k: int| 0 <= k < i ==> #[trigger] places[k] + all[k].len() <= from,
            forall|k: int, j: int|
                #![trigger places[k], places[j]]
                0 <= k < j < i ==> places[k] + all[k].len() <= places[j],
            forall|at: Seq<int>|
                #![trigger parts_stand(all, text@, at)]
                parts_stand(all, text@, at) ==> from <= at[i as int],
        decreases count - i,
    {
        let part = chars_of(parts[i].as_str());
        assert(part@ == all[i as int]);
        let found = match find_chars(chars.as_slice(), part.as_slice(), from) {
            Some(pos) => if part.len() <= end && pos <= end - part.len() {
                Some(pos)
            } else {
                None
            },
            None => None,
        };
        proof {
            assert forall|at: Seq<int>| #[trigger] parts_stand(all, text@, at) implies (found
                matches Some(pos) && pos <= at[i as int]) by {
                assert(occurs_at(text@, all[i as int], at[i as int]));
                assert(at[i as int] + all[i as int].len() <= at[count - 1]);
            }
        }
        let pos: usize = match found {
            Some(pos) => pos,
            None => {
                return false;
            },
        };
        proof {
            assert forall|at: Seq<int>| #[trigger] parts_stand(all, text@, at) implies pos
                + part@.len() <= at[i + 1] by {
                assert(at[i as int] + all[i as int].len() <= at[i + 1]);
            }
            places = places.push(pos as int);
        }
        from = pos + part.len();
        i = i + 1;
    }
    proof {
        let at = places.push(end as int);
        assert forall|k: int| 0 <= k < all.len() implies #[trigger] occurs_at(
            text@,
            all[k],
            at[k],
        ) by {
            if k < count - 1 {
                assert(occurs_at(text@, all[k], places[k]));
            }
        }
        assert(parts_stand(all, text@, at));
    }
    true
}

/// A pattern with a star has more than one part.
proof fn lemma_star_parts(pattern: Seq<char>)
    requires
        pattern.contains('*'),
    ensures
        split_on(pattern, '*').len() >= 2,
{
    lemma_sep_pos(pattern, '*');
    let k = choose|k: int| 0 <= k < pattern.len() && pattern[k] == '*';
    let i = sep_pos(pattern, '*');
    assert(split_on(pattern, '*') == seq![pattern.take(i)] + split_on(pattern.skip(i + 1), '*'));
}

/// A pattern that ends in its only star matches what begins with the rest of
/// it, and one that begins with its only star what ends with the rest.
pub proof fn law_star_at_an_end(part: Seq<char>, text: Seq<char>)
    requires
        !part.contains('*'),
    ensures
        wildcard_matches(part + "*"@, text) <==> begins(text, part),
        wildcard_matches("*"@ + part, text) <==> ends(text, part),
{
    reveal_strlit("*");
    let none = Seq::<char>::empty();
    let head = part + "*"@;
    let tail = "*"@ + part;
    assert(head[part.len() as int] == '*');
    assert(tail[0] == '*');
    assert forall|j: int| 0 <= j < part.len() implies part[j] != '*' by {
        assert(part.contains(part[j]));
    }
    assert(split_on(none, '*') =~= seq![none]);
    assert(split_on(head, '*') =~= seq![part, none]) by {
        lemma_sep_pos_unique(head, '*', part.len() as int);
        assert(head.take(part.len() as int) =~= part);
        assert(head.skip(part.len() as int + 1) =~= none);
    }
    assert(split_on(tail, '*') =~= seq![none, part]) by {
        assert(tail.take(0) =~= none);
        assert(tail.skip(1) =~= part);
        lemma_sep_pos(part, '*');
        if sep_pos(part, '*') < part.len() {
            assert(part[sep_pos(part, '*')] == '*');
        }
        assert(split_on(part, '*') =~= seq![part]);
    }
    if begins(text, part) {
        let at = seq![0int, text.len() as int];
        assert(occurs_at(text, none, text.len() as int)) by {
            assert(text.subrange(text.len() as int, text.len() as int) =~= none);
        }
        assert(parts_stand(seq![part, none], text, at));
    }
    if ends(text, part) {
        let at = seq![0int, text.len() - part.len()];
        assert(occurs_at(text, none, 0)) by {
            assert(text.subrange(0, 0) =~= none);
        }
        assert(parts_stand(seq![none, part], text, at));
    }
    if wildcard_matches(head, text) {
        let at = choose|at: Seq<int>| parts_stand(split_on(head, '*'), text, at);
        assert(occurs_at(text, seq![part, none][0], at[0]));
    }
    if wildcard_matches(tail, text) {
        let at = choose|at: Seq<int>| parts_stand(split_on(tail, '*'), text, at);
        assert(occurs_at(text, seq![none, part][1], at[1]));
    }
}

fn exact_addr_match(kind: &AddrPattern, addr: &NodeAddr) -> (r: bool)
    ensures
        r == addr_matches(kind@, addr@),
{
    match kind {
        AddrPattern::NotAnAddress => false,
        AddrPattern::Ip(ip) => same(ip.as_str(), addr.ip.as_str()),
        AddrPattern::Socket(a) => a.equals(addr),
    }
}

/// Whether `f` takes a pattern for the given kind of address.
pub open spec fn classified<F: Fn(&str) -> AddrPattern>(
    f: F,
    pattern: Seq<char>,
    kind: AddrPatternView,
) -> bool {
    exists|s: &str, k: AddrPattern|
        s@ == pattern && k@ == kind && #[trigger] call_ensures(f, (s,), k)
}

impl NodeFilter {
    /// Every pattern has been looked at as an address.
    pub closed spec fn wf(&self) -> bool {
        self.patterns@.len() == self.kinds@.len()
    }

    /// Reads a filter. `parse_addr` says what a pattern is as an address.
    pub fn parse<F: Fn(&str) -> AddrPattern>(raw: Option<&str>, parse_addr: F) -> (r: NodeFilter)
        requires
            forall|s: &str| #[trigger] call_requires(parse_addr, (s,)),
        ensures
            r.wf(),
            r@.patterns == filter_patterns(
                match raw {
                    Some(s) => Some(s@),
                    None => None,
                },
            ),
            r@.kinds.len() == r@.patterns.len(),
            forall|i: int|
                0 <= i < r@.patterns.len() ==> #[trigger] classified(
                    parse_addr,
                    r@.patterns[i],
                    r@.kinds[i],
                ),
    {
        let patterns = match raw {
            Some(s) => collect_patterns(s),
            None => {
                let none: Vec<String> = Vec::new();
                assert(texts(none@) =~= Seq::empty());
                none
            },
        };
        let mut kinds: Vec<AddrPattern> = Vec::new();
        let mut i: usize = 0;
        while i < patterns.len()
            invariant
                i <= patterns@.len(),
                forall|s: &str| #[trigger] call_requires(parse_addr, (s,)),
                kinds@.len() == i,
                forall|j: int|
                    0 <= j < i ==> #[trigger] classified(
                        parse_addr,
                        texts(patterns@)[j],
                        kinds@[j]@,
                    ),
            decreases patterns@.len() - i,
        {
            let s = patterns[i].as_str();
            let k = parse_addr(s);
            assert(s@ == texts(patterns@)[i as int]);
            assert(classified(parse_addr, texts(patterns@)[i as int], k@));
            kinds.push(k);
            i = i + 1;
        }
        let r = NodeFilter { patterns, kinds };
        assert forall|i: int| 0 <= i < r@.patterns.len() implies #[trigger] classified(
            parse_addr,
            r@.patterns[i],
            r@.kinds[i],
        ) by {
            assert(classified(parse_addr, texts(patterns@)[i], kinds@[i]@));
        }
        r
    }

    /// Whether the filter has no patterns.
    pub fn is_empty(&self) -> (r: bool)
        ensures
            r == (self@.patterns.len() == 0),
    {
        self.patterns.len() == 0
    }

    /// The patterns of the filter, in order.
    pub fn patterns(&self) -> (r: &[String])
        ensures
            texts(r@) == self@.patterns,
    {
        self.patterns.as_slice()
    }

    /// Whether a node matches the filter.
    pub fn matches_target(&self, hostname: &str, addr: &NodeAddr, connection_id: &str) -> (r: bool)
        requires
            self.wf(),
        ensures
            r == filter_matches(self@, hostname@, addr@, connection_id@),
    {
        if self.is_empty() {
            return true;
        }
        let addr_string = addr.text();
        let mut i: usize = 0;
        while i < self.patterns.len()
            invariant
                i <= self.patterns@.len(),
                self.wf(),
                addr_string@ == addr_text(addr@),
                forall|j: int|
                    0 <= j < i ==> !#[trigger] pattern_matches(
                        self@.patterns[j],
                        self@.kinds[j],
                        hostname@,
                        addr@,
                        connection_id@,
                    ),
            decreases self.patterns@.len() - i,
        {
            let pattern = self.patterns[i].as_str();
            let kind = &self.kinds[i];
            let chars = chars_of(pattern);
            let exact = !has_star(chars.as_slice()) && !matches!(kind, AddrPattern::NotAnAddress);
            let hit = if exact {
                exact_addr_match(kind, addr)
            } else {
                exact_addr_match(kind, addr) || wildcard_match(pattern, hostname)
                    || wildcard_match(pattern, addr.ip.as_str()) || wildcard_match(
                    pattern,
                    addr_string.as_str(),
                ) || wildcard_match(pattern, connection_id)
            };
            assert(self@.patterns[i as int] == pattern@);
            assert(self@.kinds[i as int] == kind@);
            assert(hit == pattern_matches(
                self@.patterns[i as int],
                self@.kinds[i as int],
                hostname@,
                addr@,
                connection_id@,
            ));
            if hit {
                return true;
            }
            i = i + 1;
        }
        false
    }
}

fn collect_patterns(raw: &str) -> (r: Vec<String>)
    ensures
        texts(r@) == filter_patterns(Some(raw@)),
{
    let items = split_filter_items(raw);
    let ghost all = texts(items@);
    let mut patterns: Vec<String> = Vec::new();
    let ghost mut seen: Seq<Seq<char>> = Seq::empty();
    let mut i: usize = 0;
    assert(all.take(0) =~= Seq::empty());
    assert(texts(patterns@) =~= Seq::empty());
    while i < items.len()
        invariant
            i <= items@.len(),
            all == texts(items@),
            seen == all_expanded(all.take(i as int)),
            texts(patterns@) == deduplicated(seen),
        decreases items@.len() - i,
    {
        let item = trim(items[i].as_str());
        proof {
            assert(all.take(i + 1).drop_last() =~= all.take(i as int));
            assert(all.take(i + 1).last() == items@[i as int]@);
        }
        if !item.as_str().is_empty() {
            let list = expand_bracket_expression(item.as_str());
            let ghost more = texts(list@);
            let ghost before = seen;
            let mut j: usize = 0;
            assert(more.take(0) =~= Seq::empty());
            assert(before + more.take(0) =~= before);
            while j < list.len()
                invariant
                    j <= list@.len(),
                    more == texts(list@),
                    seen == before + more.take(j as int),
                    texts(patterns@) == deduplicated(seen),
                decreases list@.len() - j,
            {
                proof {
                    let next = before + more.take(j + 1);
                    assert(next.drop_last() =~= seen);
                    assert(next.last() == list@[j as int]@);
                    seen = next;
                }
                if !holds(&patterns, list[j].as_str()) {
                    let s = list[j].clone();
                    assert(texts(patterns@.push(s)) =~= texts(patterns@).push(s@));
                    patterns.push(s);
                }
                j = j + 1;
            }
            assert(more.take(j as int) =~= more);
        }
        i = i + 1;
    }
    assert(all.take(i as int) =~= all);
    patterns
}

/// A filter without patterns matches every node.
pub proof fn law_empty_filter_matches_everything(
    f: FilterView,
    hostname: Seq<char>,
    addr: AddrView,
    connection_id: Seq<char>,
)
    requires
        f.patterns.len() == 0,
    ensures
        filter_matches(f, hostname, addr, connection_id),
{
}

/// A pattern that is a plain IP address matches exactly the nodes with that
/// address, whatever their names are.
pub proof fn law_plain_ip_is_exact(
    pattern: Seq<char>,
    ip: Seq<char>,
    hostname: Seq<char>,
    addr: AddrView,
    connection_id: Seq<char>,
)
    requires
        !pattern.contains('*'),
    ensures
        pattern_matches(pattern, AddrPatternView::Ip(ip), hostname, addr, connection_id) <==> ip
            == addr.ip,
{
}

} // verus!
