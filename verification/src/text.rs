//! Text operations over the characters of a string.
//!
//! Specifications speak of `Seq<char>`, the view of `str` and `String`.

use vstd::prelude::*;
use vstd::utf8::{decode_utf8, encode_utf8, valid_utf8};

verus! {

/// `std::string::String::push`: appends one character to the end of the string.
pub assume_specification[ std::string::String::push ](s: &mut std::string::String, c: char)
    ensures
        final(s)@ == old(s)@.push(c),
;

/// The text that bytes are read as when what is not UTF-8 is replaced.
pub uninterp spec fn utf8_lossy(bytes: Seq<u8>) -> Seq<char>;

/// `std::string::String::from_utf8_lossy`: the text is determined by the
/// bytes, and valid UTF-8 is read as what it encodes.
#[verifier::external_body]
pub(crate) fn lossy_text(bytes: &[u8]) -> (r: String)
    ensures
        r@ == utf8_lossy(bytes@),
        valid_utf8(bytes@) ==> r@ == decode_utf8(bytes@),
{
    String::from_utf8_lossy(bytes).into_owned()
}

/// The text that bytes are read as: what they encode, if they are valid UTF-8,
/// and otherwise what is left of it.
pub open spec fn text_in(bytes: Seq<u8>) -> Seq<char> {
    if valid_utf8(bytes) {
        decode_utf8(bytes)
    } else {
        utf8_lossy(bytes)
    }
}

/// A text in double quotes, with what is special in it escaped.
pub uninterp spec fn quoted(s: Seq<char>) -> Seq<char>;

/// `std::fmt::Debug` of `str`: the text in double quotes and escaped, which is
/// determined by the text.
#[verifier::external_body]
pub(crate) fn quoted_text(s: &str) -> (r: String)
    ensures
        r@ == quoted(s@),
{
    format!("{:?}", s)
}

/// `std::str::from_utf8`: the text that the bytes encode, if they are valid
/// UTF-8.
#[verifier::external_body]
pub(crate) fn strict_text(bytes: &[u8]) -> (r: Option<String>)
    ensures
        match r {
            Some(s) => valid_utf8(bytes@) && s@ == decode_utf8(bytes@),
            None => !valid_utf8(bytes@),
        },
{
    match std::str::from_utf8(bytes) {
        Ok(s) => Some(s.to_string()),
        Err(_) => None,
    }
}

/// The UTF-8 bytes of a text.
pub fn bytes_of(s: &str) -> (r: Vec<u8>)
    ensures
        r@ == encode_utf8(s@),
{
    crate::bytes::copy_bytes(s.as_bytes())
}

/// The characters of a string.
pub fn chars_of(s: &str) -> (r: Vec<char>)
    ensures
        r@ == s@,
{
    let mut out: Vec<char> = Vec::new();
    for c in it: s.chars()
        invariant
            out@ == it.seq().take(it.index() as int),
    {
        out.push(c);
    }
    out
}

/// The string with the given characters.
pub fn string_of(chars: &[char]) -> (r: String)
    ensures
        r@ == chars@,
{
    let mut out = String::new();
    let mut i: usize = 0;
    while i < chars.len()
        invariant
            i <= chars@.len(),
            out@ == chars@.take(i as int),
        decreases chars@.len() - i,
    {
        out.push(chars[i]);
        i = i + 1;
    }
    assert(chars@.take(i as int) =~= chars@);
    out
}

/// The model of a text, where there is one.
pub open spec fn opt_str(o: Option<&str>) -> Option<Seq<char>> {
    match o {
        Some(s) => Some(s@),
        None => None,
    }
}

/// Whether two strings hold the same characters.
pub fn same(a: &str, b: &str) -> (r: bool)
    ensures
        r == (a@ == b@),
{
    let x = chars_of(a);
    let y = chars_of(b);
    if x.len() != y.len() {
        return false;
    }
    let mut i: usize = 0;
    while i < x.len()
        invariant
            i <= x@.len() == y@.len(),
            x@ == a@,
            y@ == b@,
            forall|j: int| 0 <= j < i ==> x@[j] == y@[j],
        decreases x@.len() - i,
    {
        if x[i] != y[i] {
            return false;
        }
        i = i + 1;
    }
    assert(a@ =~= b@);
    true
}

// ---------------------------------------------------------------------------
// White space

/// Whether `c` has the Unicode property White_Space.
pub open spec fn is_space(c: char) -> bool {
    let n = c as u32;
    ||| 0x09 <= n <= 0x0d
    ||| n == 0x20
    ||| n == 0x85
    ||| n == 0xa0
    ||| n == 0x1680
    ||| 0x2000 <= n <= 0x200a
    ||| n == 0x2028
    ||| n == 0x2029
    ||| n == 0x202f
    ||| n == 0x205f
    ||| n == 0x3000
}

/// Whether a character is white space.
pub fn space(c: char) -> (r: bool)
    ensures
        r == is_space(c),
{
    let n: u32 = c as u32;
    (0x09 <= n && n <= 0x0d) || n == 0x20 || n == 0x85 || n == 0xa0 || n == 0x1680 || (0x2000 <= n
        && n <= 0x200a) || n == 0x2028 || n == 0x2029 || n == 0x202f || n == 0x205f || n == 0x3000
}

/// `s` without the white space at its front.
pub open spec fn trim_front(s: Seq<char>) -> Seq<char>
    decreases s.len(),
{
    if s.len() > 0 && is_space(s[0]) {
        trim_front(s.drop_first())
    } else {
        s
    }
}

/// `s` without the white space at its back.
pub open spec fn trim_back(s: Seq<char>) -> Seq<char>
    decreases s.len(),
{
    if s.len() > 0 && is_space(s.last()) {
        trim_back(s.drop_last())
    } else {
        s
    }
}

/// `s` without the white space at its two ends.
pub open spec fn trimmed(s: Seq<char>) -> Seq<char> {
    trim_back(trim_front(s))
}

/// A text with a character that is no white space is not blank.
pub proof fn lemma_trimmed_nonblank(s: Seq<char>, i: int)
    requires
        0 <= i < s.len(),
        !is_space(s[i]),
    ensures
        trimmed(s).len() > 0,
    decreases s.len(),
{
    if is_space(s[0]) {
        assert(s.drop_first()[i - 1] == s[i]);
        lemma_trimmed_nonblank(s.drop_first(), i - 1);
    } else {
        lemma_trim_back_nonblank(s);
    }
}

proof fn lemma_trim_back_nonblank(s: Seq<char>)
    requires
        s.len() > 0,
        !is_space(s[0]),
    ensures
        trim_back(s).len() > 0,
    decreases s.len(),
{
    if is_space(s.last()) {
        assert(s.drop_last()[0] == s[0]);
        lemma_trim_back_nonblank(s.drop_last());
    }
}

/// The text without the white space at its two ends.
pub fn trim(s: &str) -> (r: String)
    ensures
        r@ == trimmed(s@),
{
    let chars = chars_of(s);
    let r = trim_chars(chars.as_slice());
    string_of(r.as_slice())
}

/// The characters without the white space at the two ends.
pub fn trim_chars(chars: &[char]) -> (r: Vec<char>)
    ensures
        r@ == trimmed(chars@),
{
    let n: usize = chars.len();
    let mut from: usize = 0;
    assert(chars@.subrange(0, n as int) =~= chars@);
    while from < n && space(chars[from])
        invariant
            from <= n == chars@.len(),
            trim_front(chars@) == trim_front(chars@.subrange(from as int, n as int)),
        decreases n - from,
    {
        assert(chars@.subrange(from as int, n as int).drop_first() =~= chars@.subrange(
            from + 1,
            n as int,
        ));
        from = from + 1;
    }
    let mut to: usize = n;
    while to > from && space(chars[to - 1])
        invariant
            from <= to <= n == chars@.len(),
            trimmed(chars@) == trim_back(chars@.subrange(from as int, to as int)),
        decreases to - from,
    {
        assert(chars@.subrange(from as int, to as int).drop_last() =~= chars@.subrange(
            from as int,
            to - 1,
        ));
        to = to - 1;
    }
    let mut out: Vec<char> = Vec::new();
    out.extend_from_slice(&chars[from..to]);
    assert(out@ =~= chars@.subrange(from as int, to as int));
    out
}

// ---------------------------------------------------------------------------
// Case

/// The lower-case form of an ASCII letter; any other character is itself.
pub open spec fn lower_char(c: char) -> char {
    if 'A' <= c <= 'Z' {
        ((c as u32) + 32) as char
    } else {
        c
    }
}

/// `s` with its ASCII letters in lower case.
pub open spec fn lowered(s: Seq<char>) -> Seq<char> {
    s.map_values(|c: char| lower_char(c))
}

fn lower(c: char) -> (r: char)
    ensures
        r == lower_char(c),
{
    if 'A' <= c && c <= 'Z' {
        (c as u8 + 32) as char
    } else {
        c
    }
}

/// The text with its ASCII letters in lower case.
pub fn to_lower(s: &str) -> (r: String)
    ensures
        r@ == lowered(s@),
{
    let chars = chars_of(s);
    let mut out = String::new();
    let mut i: usize = 0;
    while i < chars.len()
        invariant
            i <= chars@.len(),
            chars@ == s@,
            out@ == lowered(chars@.take(i as int)),
        decreases chars@.len() - i,
    {
        out.push(lower(chars[i]));
        i = i + 1;
        assert(out@ =~= lowered(chars@.take(i as int)));
    }
    assert(chars@.take(i as int) =~= chars@);
    out
}

// ---------------------------------------------------------------------------
// Substrings

/// Whether `pat` stands in `s` at position `i`.
pub open spec fn occurs_at(s: Seq<char>, pat: Seq<char>, i: int) -> bool {
    &&& 0 <= i
    &&& i + pat.len() <= s.len()
    &&& s.subrange(i, i + pat.len()) == pat
}

/// Whether `pat` stands somewhere in `s`.
pub open spec fn occurs(s: Seq<char>, pat: Seq<char>) -> bool {
    exists|i: int| occurs_at(s, pat, i)
}

/// Whether `s` begins with `pat`.
pub open spec fn begins(s: Seq<char>, pat: Seq<char>) -> bool {
    occurs_at(s, pat, 0)
}

/// Whether `s` ends with `pat`.
pub open spec fn ends(s: Seq<char>, pat: Seq<char>) -> bool {
    occurs_at(s, pat, s.len() - pat.len())
}

/// Whether `pat` stands in `s` at the given place.
pub fn matches_at(s: &[char], pat: &[char], at: usize) -> (r: bool)
    requires
        at <= s@.len(),
    ensures
        r == occurs_at(s@, pat@, at as int),
{
    let n: usize = s.len();
    let m: usize = pat.len();
    if m > n - at {
        return false;
    }
    let mut i: usize = 0;
    while i < m
        invariant
            i <= m == pat@.len(),
            at + m <= n == s@.len(),
            forall|j: int| 0 <= j < i ==> s@[at + j] == pat@[j],
        decreases m - i,
    {
        if s[at + i] != pat[i] {
            assert(s@.subrange(at as int, at + m)[i as int] != pat@[i as int]);
            return false;
        }
        i = i + 1;
    }
    assert(s@.subrange(at as int, at + m) =~= pat@);
    true
}

/// The first position of `pat` in `s` at or after `from`.
pub fn find_chars(s: &[char], pat: &[char], from: usize) -> (r: Option<usize>)
    requires
        from <= s@.len(),
    ensures
        match r {
            Some(i) => from <= i && occurs_at(s@, pat@, i as int) && forall|j: int|
                from <= j < i ==> !occurs_at(s@, pat@, j),
            None => forall|j: int| from <= j ==> !occurs_at(s@, pat@, j),
        },
{
    let n: usize = s.len();
    let mut at: usize = from;
    loop
        invariant
            from <= at <= n == s@.len(),
            forall|j: int| from <= j < at ==> !occurs_at(s@, pat@, j),
        decreases n - at,
    {
        if matches_at(s, pat, at) {
            return Some(at);
        }
        if at == n {
            return None;
        }
        at = at + 1;
    }
}

/// Whether `pat` stands somewhere in `s`.
pub fn contains(s: &str, pat: &str) -> (r: bool)
    ensures
        r == occurs(s@, pat@),
{
    let x = chars_of(s);
    let y = chars_of(pat);
    match find_chars(x.as_slice(), y.as_slice(), 0) {
        Some(i) => {
            assert(occurs_at(s@, pat@, i as int));
            true
        },
        None => false,
    }
}

/// Whether `s` begins with `pat`.
pub fn starts_with(s: &str, pat: &str) -> (r: bool)
    ensures
        r == begins(s@, pat@),
{
    let x = chars_of(s);
    let y = chars_of(pat);
    matches_at(x.as_slice(), y.as_slice(), 0)
}

/// What stands behind the prefix `pat`, if `s` begins with it.
pub fn strip_prefix(s: &str, pat: &str) -> (r: Option<String>)
    ensures
        match r {
            Some(rest) => begins(s@, pat@) && s@ == pat@ + rest@ && rest@ == s@.skip(
                pat@.len() as int,
            ),
            None => !begins(s@, pat@),
        },
{
    let x = chars_of(s);
    let y = chars_of(pat);
    if !matches_at(x.as_slice(), y.as_slice(), 0) {
        return None;
    }
    let rest = string_of(&x.as_slice()[y.len()..x.len()]);
    proof {
        assert(s@ =~= s@.subrange(0, pat@.len() as int) + s@.skip(pat@.len() as int));
        assert(rest@ =~= s@.skip(pat@.len() as int));
    }
    Some(rest)
}

/// The part of `s` from position `from` up to position `to`.
pub fn slice_of(s: &[char], from: usize, to: usize) -> (r: String)
    requires
        from <= to <= s@.len(),
    ensures
        r@ == s@.subrange(from as int, to as int),
{
    string_of(&s[from..to])
}

// ---------------------------------------------------------------------------
// Splitting

/// The first position of `sep` in `s`, or the length of `s`.
pub open spec fn sep_pos(s: Seq<char>, sep: char) -> int
    decreases s.len(),
{
    if s.len() == 0 || s[0] == sep {
        0
    } else {
        1 + sep_pos(s.drop_first(), sep)
    }
}

/// The parts of `s` between occurrences of `sep`; there is always one.
pub open spec fn split_on(s: Seq<char>, sep: char) -> Seq<Seq<char>>
    decreases s.len(),
{
    let i = sep_pos(s, sep);
    if 0 <= i < s.len() {
        seq![s.take(i)] + split_on(s.skip(i + 1), sep)
    } else {
        seq![s]
    }
}

pub proof fn lemma_sep_pos(s: Seq<char>, sep: char)
    ensures
        0 <= sep_pos(s, sep) <= s.len(),
        forall|j: int| 0 <= j < sep_pos(s, sep) ==> s[j] != sep,
        sep_pos(s, sep) < s.len() ==> s[sep_pos(s, sep)] == sep,
    decreases s.len(),
{
    if s.len() > 0 && s[0] != sep {
        lemma_sep_pos(s.drop_first(), sep);
        assert forall|j: int| 0 <= j < sep_pos(s, sep) implies s[j] != sep by {
            if j > 0 {
                assert(s[j] == s.drop_first()[j - 1]);
            }
        }
    }
}

pub proof fn lemma_sep_pos_unique(s: Seq<char>, sep: char, i: int)
    requires
        0 <= i <= s.len(),
        forall|j: int| 0 <= j < i ==> s[j] != sep,
        i < s.len() ==> s[i] == sep,
    ensures
        sep_pos(s, sep) == i,
{
    lemma_sep_pos(s, sep);
}

/// The view of a vector of strings.
pub open spec fn texts(v: Seq<String>) -> Seq<Seq<char>> {
    v.map_values(|s: String| s@)
}

/// The parts of `s` between occurrences of `sep`.
pub fn split(s: &str, sep: char) -> (r: Vec<String>)
    ensures
        texts(r@) == split_on(s@, sep),
        r@.len() > 0,
{
    let chars = chars_of(s);
    let n: usize = chars.len();
    let mut out: Vec<String> = Vec::new();
    let mut from: usize = 0;
    let mut at: usize = 0;
    assert(chars@.skip(0) =~= s@);
    assert(texts(out@) + split_on(s@, sep) =~= split_on(s@, sep));
    while at < n
        invariant
            from <= at <= n == chars@.len(),
            chars@ == s@,
            forall|j: int| from <= j < at ==> chars@[j] != sep,
            texts(out@) + split_on(chars@.skip(from as int), sep) == split_on(s@, sep),
        decreases n - at,
    {
        if chars[at] == sep {
            let part = slice_of(chars.as_slice(), from, at);
            proof {
                let rest = chars@.skip(from as int);
                lemma_sep_pos_unique(rest, sep, at - from);
                assert(rest.take(at - from) =~= part@);
                assert(rest.skip(at - from + 1) =~= chars@.skip(at + 1));
                assert(texts(out@.push(part)) =~= texts(out@).push(part@));
                assert(texts(out@).push(part@) + split_on(chars@.skip(at + 1), sep) =~= texts(out@)
                    + (seq![part@] + split_on(chars@.skip(at + 1), sep)));
            }
            out.push(part);
            from = at + 1;
        }
        at = at + 1;
    }
    let part = slice_of(chars.as_slice(), from, n);
    proof {
        let rest = chars@.skip(from as int);
        lemma_sep_pos_unique(rest, sep, n - from);
        assert(rest =~= part@);
        assert(texts(out@.push(part)) =~= texts(out@) + seq![part@]);
    }
    out.push(part);
    out
}

/// `s` without a carriage return at its end.
pub open spec fn without_return(s: Seq<char>) -> Seq<char> {
    if s.len() > 0 && s.last() == '\r' {
        s.drop_last()
    } else {
        s
    }
}

/// The lines of `s`: the parts between line feeds, each without a carriage
/// return at its end. An empty part behind the last line feed is no line.
pub open spec fn lines(s: Seq<char>) -> Seq<Seq<char>> {
    let parts = split_on(s, '\n');
    let full = if parts.last().len() == 0 {
        parts.drop_last()
    } else {
        parts
    };
    full.map_values(|p: Seq<char>| without_return(p))
}

/// The lines of a text.
pub fn split_lines(s: &str) -> (r: Vec<String>)
    ensures
        texts(r@) == lines(s@),
{
    let parts = split(s, '\n');
    let ghost all = texts(parts@);
    let n: usize = parts.len();
    let count: usize = if parts[n - 1].as_str().is_empty() {
        n - 1
    } else {
        n
    };
    assert(all.last() == parts@[n - 1]@);
    let ghost wanted = lines(s@);
    assert(wanted.len() == count);
    let mut out: Vec<String> = Vec::new();
    let mut i: usize = 0;
    while i < count
        invariant
            i <= count <= n == parts@.len(),
            wanted.len() == count,
            forall|j: int| 0 <= j < count ==> #[trigger] wanted[j] == without_return(parts@[j]@),
            texts(out@) == wanted.take(i as int),
        decreases count - i,
    {
        let chars = chars_of(parts[i].as_str());
        let len: usize = chars.len();
        let line = if len > 0 && chars[len - 1] == '\r' {
            slice_of(chars.as_slice(), 0, len - 1)
        } else {
            slice_of(chars.as_slice(), 0, len)
        };
        assert(line@ =~= without_return(parts@[i as int]@));
        assert(wanted[i as int] == line@);
        assert(texts(out@.push(line)) =~= texts(out@).push(line@));
        out.push(line);
        i = i + 1;
        assert(texts(out@) =~= wanted.take(i as int));
    }
    assert(wanted.take(i as int) =~= wanted);
    out
}

/// The first position of white space in `s`, or the length of `s`.
pub open spec fn space_pos(s: Seq<char>) -> int
    decreases s.len(),
{
    if s.len() == 0 || is_space(s[0]) {
        0
    } else {
        1 + space_pos(s.drop_first())
    }
}

/// The parts of `s` that hold no white space, as long as possible each.
pub open spec fn words(s: Seq<char>) -> Seq<Seq<char>>
    decreases s.len(),
{
    if s.len() == 0 {
        Seq::empty()
    } else if is_space(s[0]) {
        words(s.drop_first())
    } else {
        let i = space_pos(s);
        if 0 < i <= s.len() {
            seq![s.take(i)] + words(s.skip(i))
        } else {
            Seq::empty()
        }
    }
}

pub proof fn lemma_space_pos(s: Seq<char>, i: int)
    requires
        0 <= i <= s.len(),
        forall|j: int| 0 <= j < i ==> !is_space(#[trigger] s[j]),
        i < s.len() ==> is_space(s[i]),
    ensures
        space_pos(s) == i,
    decreases s.len(),
{
    if i > 0 {
        assert(!is_space(s[0]));
        assert forall|j: int| 0 <= j < i - 1 implies !is_space(#[trigger] s.drop_first()[j]) by {
            assert(s.drop_first()[j] == s[j + 1]);
        }
        lemma_space_pos(s.drop_first(), i - 1);
    }
}

/// The words of a text: its parts between white space.
pub fn split_words(s: &str) -> (r: Vec<String>)
    ensures
        texts(r@) == words(s@),
{
    let chars = chars_of(s);
    let n: usize = chars.len();
    let mut out: Vec<String> = Vec::new();
    let mut at: usize = 0;
    assert(chars@.skip(0) =~= s@);
    assert(texts(out@) + words(s@) =~= words(s@));
    while at < n
        invariant
            at <= n == chars@.len(),
            chars@ == s@,
            texts(out@) + words(chars@.skip(at as int)) == words(s@),
        decreases n - at,
    {
        let ghost rest = chars@.skip(at as int);
        if space(chars[at]) {
            assert(rest.drop_first() =~= chars@.skip(at + 1));
            at = at + 1;
        } else {
            let from: usize = at;
            while at < n && !space(chars[at])
                invariant
                    from <= at <= n == chars@.len(),
                    forall|j: int| from <= j < at ==> !is_space(#[trigger] chars@[j]),
                decreases n - at,
            {
                at = at + 1;
            }
            let word = slice_of(chars.as_slice(), from, at);
            proof {
                assert(!is_space(rest[0]));
                assert(at > from);
                assert forall|j: int| 0 <= j < at - from implies !is_space(#[trigger] rest[j]) by {
                    assert(rest[j] == chars@[from + j]);
                }
                lemma_space_pos(rest, at - from);
                assert(rest.take(at - from) =~= word@);
                assert(rest.skip(at - from) =~= chars@.skip(at as int));
                assert(texts(out@.push(word)) =~= texts(out@).push(word@));
                assert(texts(out@).push(word@) + words(chars@.skip(at as int)) =~= texts(out@) + (
                seq![word@] + words(chars@.skip(at as int))));
            }
            out.push(word);
        }
    }
    assert(chars@.skip(at as int) =~= Seq::empty());
    assert(texts(out@) + Seq::empty() =~= texts(out@));
    out
}

// ---------------------------------------------------------------------------
// Order

/// Whether `a` comes before `b` in the order of strings: character by
/// character, a proper prefix first.
pub open spec fn text_before(a: Seq<char>, b: Seq<char>) -> bool
    decreases a.len(),
{
    if b.len() == 0 {
        false
    } else if a.len() == 0 {
        true
    } else if a[0] == b[0] {
        text_before(a.drop_first(), b.drop_first())
    } else {
        a[0] < b[0]
    }
}

pub proof fn lemma_text_before_total(a: Seq<char>, b: Seq<char>)
    ensures
        text_before(a, b) || text_before(b, a) || a == b,
        !(text_before(a, b) && text_before(b, a)),
        text_before(a, b) ==> a != b,
    decreases a.len(),
{
    if a.len() > 0 && b.len() > 0 {
        if a[0] == b[0] {
            lemma_text_before_total(a.drop_first(), b.drop_first());
            if a.drop_first() == b.drop_first() {
                assert(a =~= seq![a[0]] + a.drop_first());
                assert(b =~= seq![b[0]] + b.drop_first());
            }
        }
    } else if a.len() == 0 && b.len() == 0 {
        assert(a =~= b);
    }
}

pub proof fn lemma_text_before_trans(a: Seq<char>, b: Seq<char>, c: Seq<char>)
    requires
        text_before(a, b),
        text_before(b, c),
    ensures
        text_before(a, c),
    decreases a.len(),
{
    if a.len() > 0 && a[0] == b[0] && b[0] == c[0] {
        lemma_text_before_trans(a.drop_first(), b.drop_first(), c.drop_first());
    }
}

/// Whether `a` comes before `b` in the order of strings.
pub fn before(a: &str, b: &str) -> (r: bool)
    ensures
        r == text_before(a@, b@),
{
    let x = chars_of(a);
    let y = chars_of(b);
    let mut i: usize = 0;
    assert(x@.skip(0) =~= x@);
    assert(y@.skip(0) =~= y@);
    while i < x.len() && i < y.len()
        invariant
            i <= x@.len(),
            i <= y@.len(),
            x@ == a@,
            y@ == b@,
            text_before(a@, b@) == text_before(x@.skip(i as int), y@.skip(i as int)),
        decreases x@.len() - i,
    {
        assert(x@.skip(i as int)[0] == x@[i as int]);
        assert(y@.skip(i as int)[0] == y@[i as int]);
        if x[i] != y[i] {
            return x[i] < y[i];
        }
        assert(x@.skip(i as int).drop_first() =~= x@.skip(i + 1));
        assert(y@.skip(i as int).drop_first() =~= y@.skip(i + 1));
        i = i + 1;
    }
    i < y.len()
}

// ---------------------------------------------------------------------------
// Numbers

pub open spec fn is_digit(c: char) -> bool {
    '0' <= c <= '9'
}

/// The decimal digit for a number below ten.
pub open spec fn digit(n: nat) -> char {
    ((n % 10) + 48) as char
}

/// `n` in decimal.
pub open spec fn decimal(n: nat) -> Seq<char>
    decreases n,
{
    if n < 10 {
        seq![digit(n)]
    } else {
        decimal(n / 10).push(digit(n))
    }
}

/// The number that a sequence of digits writes in decimal.
pub open spec fn digits_value(s: Seq<char>) -> nat
    decreases s.len(),
{
    if s.len() == 0 {
        0
    } else {
        digits_value(s.drop_last()) * 10 + (s.last() as nat - 48) as nat
    }
}

/// Whether `s` is one or more digits.
pub open spec fn all_digits(s: Seq<char>) -> bool {
    s.len() > 0 && forall|i: int| 0 <= i < s.len() ==> is_digit(#[trigger] s[i])
}

/// The digits of an unsigned number: an optional plus sign may stand first.
pub open spec fn unsigned_digits(s: Seq<char>) -> Seq<char> {
    if s.len() > 0 && s[0] == '+' {
        s.drop_first()
    } else {
        s
    }
}

/// The unsigned number that `s` writes, if it is one and at most `max`.
pub open spec fn unsigned_value(s: Seq<char>, max: nat) -> Option<nat> {
    let d = unsigned_digits(s);
    if all_digits(d) && digits_value(d) <= max {
        Some(digits_value(d))
    } else {
        None
    }
}

pub proof fn lemma_decimal(n: nat)
    ensures
        all_digits(decimal(n)),
        digits_value(decimal(n)) == n,
    decreases n,
{
    reveal_with_fuel(digits_value, 2);
    if n >= 10 {
        lemma_decimal(n / 10);
        let d = decimal(n);
        assert(d.drop_last() =~= decimal(n / 10));
    } else {
        assert(decimal(n).drop_last() =~= Seq::empty());
    }
}

/// A number written in decimal reads back as that number.
pub proof fn law_decimal_reads_back(n: nat, max: nat)
    requires
        n <= max,
    ensures
        unsigned_value(decimal(n), max) == Some(n),
{
    lemma_decimal(n);
    assert(is_digit(decimal(n)[0]));
}

pub proof fn lemma_digits_value_mono(s: Seq<char>, i: int)
    requires
        0 <= i <= s.len(),
    ensures
        digits_value(s.take(i)) <= digits_value(s),
    decreases s.len() - i,
{
    if i < s.len() {
        lemma_digits_value_mono(s, i + 1);
        assert(s.take(i + 1).drop_last() =~= s.take(i));
    } else {
        assert(s.take(i) =~= s);
    }
}

/// Appends a number in decimal.
pub fn push_decimal(out: &mut String, n: u64)
    ensures
        final(out)@ == old(out)@ + decimal(n as nat),
    decreases n,
{
    if n >= 10 {
        push_decimal(out, n / 10);
    }
    let d: u8 = (n % 10) as u8;
    out.push((d + 48) as char);
    assert(out@ =~= old(out)@ + decimal(n as nat));
}

/// The text form of an integer.
pub open spec fn signed_decimal(n: int) -> Seq<char> {
    if n < 0 {
        "-"@ + decimal((-n) as nat)
    } else {
        decimal(n as nat)
    }
}

/// Appends the text form of an integer.
pub fn push_signed(out: &mut String, n: i64)
    ensures
        final(out)@ == old(out)@ + signed_decimal(n as int),
{
    if n < 0 {
        out.append("-");
        let magnitude: i128 = -(n as i128);
        push_decimal(out, magnitude as u64);
        assert(out@ =~= old(out)@ + signed_decimal(n as int));
    } else {
        push_decimal(out, n as u64);
    }
}

/// A number in decimal.
pub fn decimal_of(n: u64) -> (r: String)
    ensures
        r@ == decimal(n as nat),
{
    let mut out = String::new();
    push_decimal(&mut out, n);
    assert(out@ =~= decimal(n as nat));
    out
}

/// The number that the digits write, if it is at most `max`.
pub fn parse_digits(chars: &[char], max: u64) -> (r: Option<u64>)
    ensures
        r matches Some(v) ==> all_digits(chars@) && v == digits_value(chars@) && v <= max,
        r is None ==> !all_digits(chars@) || digits_value(chars@) > max,
{
    let n: usize = chars.len();
    if n == 0 {
        return None;
    }
    let mut value: u64 = 0;
    let mut i: usize = 0;
    let mut over: bool = false;
    assert(chars@.take(0) =~= Seq::empty());
    while i < n
        invariant
            i <= n == chars@.len(),
            forall|j: int| 0 <= j < i ==> is_digit(#[trigger] chars@[j]),
            !over ==> value == digits_value(chars@.take(i as int)) && value <= max,
            over ==> digits_value(chars@.take(i as int)) > max,
        decreases n - i,
    {
        let c: char = chars[i];
        if !('0' <= c && c <= '9') {
            assert(!is_digit(chars@[i as int]));
            return None;
        }
        let d: u64 = (c as u8 - 48) as u64;
        assert(chars@.take(i + 1).drop_last() =~= chars@.take(i as int));
        assert(chars@.take(i + 1).last() == c);
        if !over {
            if value > max / 10 {
                over = true;
            } else {
                let scaled: u64 = value * 10;
                if d > max - scaled {
                    over = true;
                } else {
                    value = scaled + d;
                }
            }
        }
        i = i + 1;
    }
    assert(chars@.take(i as int) =~= chars@);
    if over {
        None
    } else {
        Some(value)
    }
}

/// Whether two texts are the same but for the case of ASCII letters.
pub fn same_ignoring_case(a: &str, b: &str) -> (r: bool)
    ensures
        r == (lowered(a@) == lowered(b@)),
{
    same(to_lower(a).as_str(), to_lower(b).as_str())
}

/// The unsigned number that `s` writes in decimal, if it is at most `max`.
pub fn parse_unsigned(s: &str, max: u64) -> (r: Option<u64>)
    ensures
        r is Some <==> unsigned_value(s@, max as nat) is Some,
        r matches Some(v) ==> unsigned_value(s@, max as nat) == Some(v as nat),
{
    let chars = chars_of(s);
    if chars.len() > 0 && chars[0] == '+' {
        let digits = &chars.as_slice()[1..chars.len()];
        assert(digits@ =~= s@.drop_first());
        parse_digits(digits, max)
    } else {
        parse_digits(chars.as_slice(), max)
    }
}

// ---------------------------------------------------------------------------
// Repetition and padding

/// `n` copies of `c`.
pub open spec fn repeated(c: char, n: int) -> Seq<char> {
    if n <= 0 {
        Seq::empty()
    } else {
        Seq::new(n as nat, |i: int| c)
    }
}

/// `s` set to the left of a column of the given width.
pub open spec fn padded_left(s: Seq<char>, width: nat) -> Seq<char> {
    s + repeated(' ', width - s.len())
}

/// `s` set to the right of a column of the given width.
pub open spec fn padded_right(s: Seq<char>, width: nat) -> Seq<char> {
    repeated(' ', width - s.len()) + s
}

/// Appends `n` copies of `c`.
pub fn push_repeated(out: &mut String, c: char, n: usize)
    ensures
        final(out)@ == old(out)@ + repeated(c, n as int),
{
    let mut i: usize = 0;
    assert(out@ =~= old(out)@ + repeated(c, 0));
    while i < n
        invariant
            i <= n,
            out@ == old(out)@ + repeated(c, i as int),
        decreases n - i,
    {
        out.push(c);
        i = i + 1;
        assert(out@ =~= old(out)@ + repeated(c, i as int));
    }
}

/// `n` in decimal, with zeros in front up to the width.
pub open spec fn zero_padded(n: nat, width: nat) -> Seq<char> {
    repeated('0', width - decimal(n).len()) + decimal(n)
}

/// Appends a number in decimal, with zeros in front up to the width.
pub fn push_zero_padded(out: &mut String, n: u64, width: usize)
    ensures
        final(out)@ == old(out)@ + zero_padded(n as nat, width as nat),
{
    let digits = decimal_of(n);
    let len: usize = digits.as_str().unicode_len();
    if len < width {
        push_repeated(out, '0', width - len);
    }
    out.append(digits.as_str());
    assert(out@ =~= old(out)@ + zero_padded(n as nat, width as nat));
}

/// Appends `s`, then blanks up to the width.
pub fn push_left(out: &mut String, s: &str, width: usize)
    ensures
        final(out)@ == old(out)@ + padded_left(s@, width as nat),
{
    let n: usize = s.unicode_len();
    out.append(s);
    if n < width {
        push_repeated(out, ' ', width - n);
    }
    assert(out@ =~= old(out)@ + padded_left(s@, width as nat));
}

/// Appends blanks up to the width, then `s`.
pub fn push_right(out: &mut String, s: &str, width: usize)
    ensures
        final(out)@ == old(out)@ + padded_right(s@, width as nat),
{
    let n: usize = s.unicode_len();
    if n < width {
        push_repeated(out, ' ', width - n);
    }
    out.append(s);
    assert(out@ =~= old(out)@ + padded_right(s@, width as nat));
}

} // verus!
