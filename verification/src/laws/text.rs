//! Laws of text operations.

use vstd::prelude::*;
use crate::text::{
    all_digits, decimal, digit, digits_value, is_digit, is_space, lemma_decimal, lemma_sep_pos,
    lemma_sep_pos_unique, lemma_space_pos, lines, lower_char, lowered, padded_left, padded_right,
    repeated, sep_pos, signed_decimal, split_on, text_before, trim_back, trim_front, trimmed,
    unsigned_digits, unsigned_value, without_return, words, zero_padded,
};

verus! {

// ---------------------------------------------------------------------------
// White space

/// Among the ASCII characters, white space is tab, line feed, vertical tab, form
/// feed, carriage return and blank.
pub proof fn law_ascii_white_space(c: char)
    requires
        (c as u32) < 0x80,
    ensures
        is_space(c) <==> c == '\t' || c == '\n' || c == '\x0b' || c == '\x0c' || c == '\r' || c
            == ' ',
{
}

/// Whether only white space stands before `i` and from `j` on.
pub open spec fn blank_around(s: Seq<char>, i: int, j: int) -> bool {
    &&& 0 <= i <= j <= s.len()
    &&& forall|k: int| 0 <= k < i ==> is_space(#[trigger] s[k])
    &&& forall|k: int| j <= k < s.len() ==> is_space(#[trigger] s[k])
}

proof fn lemma_front(s: Seq<char>) -> (i: int)
    ensures
        0 <= i <= s.len(),
        trim_front(s) == s.skip(i),
        forall|k: int| 0 <= k < i ==> is_space(#[trigger] s[k]),
        i < s.len() ==> !is_space(s[i]),
    decreases s.len(),
{
    if s.len() > 0 && is_space(s[0]) {
        let t = s.drop_first();
        let i = lemma_front(t);
        assert(t.skip(i) =~= s.skip(i + 1));
        assert forall|k: int| 0 <= k < i + 1 implies is_space(#[trigger] s[k]) by {
            if k > 0 {
                assert(s[k] == t[k - 1]);
            }
        }
        i + 1
    } else {
        assert(s.skip(0) =~= s);
        0
    }
}

proof fn lemma_back(s: Seq<char>) -> (j: int)
    ensures
        0 <= j <= s.len(),
        trim_back(s) == s.take(j),
        forall|k: int| j <= k < s.len() ==> is_space(#[trigger] s[k]),
        j > 0 ==> !is_space(s[j - 1]),
    decreases s.len(),
{
    if s.len() > 0 && is_space(s.last()) {
        let t = s.drop_last();
        let j = lemma_back(t);
        assert(t.take(j) =~= s.take(j));
        assert forall|k: int| j <= k < s.len() implies is_space(#[trigger] s[k]) by {
            if k < t.len() {
                assert(s[k] == t[k]);
            }
        }
        j
    } else {
        assert(s.take(s.len() as int) =~= s);
        s.len() as int
    }
}

/// Trimming takes white space off both ends and nothing else: what is left is
/// a stretch of the text with only white space around it, and neither begins nor
/// ends with white space.
pub proof fn law_trimmed(s: Seq<char>)
    ensures
        exists|i: int, j: int| #[trigger] blank_around(s, i, j) && trimmed(s) == s.subrange(i, j),
        trimmed(s).len() > 0 ==> !is_space(trimmed(s)[0]) && !is_space(trimmed(s).last()),
{
    let i = lemma_front(s);
    let t = s.skip(i);
    let j = lemma_back(t);
    assert(t.take(j) =~= s.subrange(i, i + j));
    assert forall|k: int| i + j <= k < s.len() implies is_space(#[trigger] s[k]) by {
        assert(s[k] == t[k - i]);
    }
    assert(blank_around(s, i, i + j));
    if j > 0 {
        assert(t[0] == s[i]);
        assert(!is_space(t[j - 1]));
    }
}

/// A text that neither begins nor ends with white space is left alone.
pub proof fn law_trimmed_text_stays(s: Seq<char>)
    requires
        s.len() > 0 ==> !is_space(s[0]) && !is_space(s.last()),
    ensures
        trimmed(s) == s,
{
}

/// Lowering changes capital ASCII letters to the small letter of the same place
/// in the alphabet, and nothing else.
pub proof fn law_lowered(s: Seq<char>, i: int)
    requires
        0 <= i < s.len(),
    ensures
        lowered(s).len() == s.len(),
        'A' <= s[i] <= 'Z' ==> 'a' <= lowered(s)[i] <= 'z' && lowered(s)[i] as int - 'a' as int
            == s[i] as int - 'A' as int,
        !('A' <= s[i] <= 'Z') ==> lowered(s)[i] == s[i],
        lowered(lowered(s)) == lowered(s),
{
    assert forall|k: int| 0 <= k < s.len() implies #[trigger] lowered(lowered(s))[k] == lowered(
        s,
    )[k] by {
        let c = s[k];
        if 'A' <= c <= 'Z' {
            assert(lower_char(c) as int == c as int + 32);
        }
    }
    assert(lowered(lowered(s)) =~= lowered(s));
}

// ---------------------------------------------------------------------------
// Splitting

/// The parts with a separator between each two.
pub open spec fn glued(parts: Seq<Seq<char>>, sep: char) -> Seq<char>
    decreases parts.len(),
{
    if parts.len() == 0 {
        Seq::empty()
    } else if parts.len() == 1 {
        parts[0]
    } else {
        parts[0] + seq![sep] + glued(parts.drop_first(), sep)
    }
}

/// The parts of a text that is split hold no separator, and make up the text
/// again with a separator between each two.
pub proof fn law_split(s: Seq<char>, sep: char)
    ensures
        split_on(s, sep).len() > 0,
        glued(split_on(s, sep), sep) == s,
        forall|i: int|
            0 <= i < split_on(s, sep).len() ==> !(#[trigger] split_on(s, sep)[i]).contains(sep),
    decreases s.len(),
{
    lemma_sep_pos(s, sep);
    let i = sep_pos(s, sep);
    let parts = split_on(s, sep);
    if i < s.len() {
        let rest = s.skip(i + 1);
        law_split(rest, sep);
        let tail = split_on(rest, sep);
        assert(parts.drop_first() =~= tail);
        assert(parts[0] == s.take(i));
        assert(glued(parts, sep) =~= s);
        assert forall|k: int| 0 <= k < parts.len() implies !(#[trigger] parts[k]).contains(sep) by {
            if k == 0 {
                if s.take(i).contains(sep) {
                    let j = s.take(i).index_of(sep);
                    assert(s[j] == sep);
                }
            } else {
                assert(parts[k] == tail[k - 1]);
            }
        }
    } else {
        assert(parts =~= seq![s]);
        if s.contains(sep) {
            let j = s.index_of(sep);
            assert(s[j] == sep);
        }
    }
}

/// Splitting a part, a separator and more gives the part and what the rest is
/// split into.
pub proof fn law_split_off(part: Seq<char>, sep: char, rest: Seq<char>)
    requires
        !part.contains(sep),
    ensures
        split_on(part, sep) == seq![part],
        split_on(part + seq![sep] + rest, sep) == seq![part] + split_on(rest, sep),
{
    assert forall|j: int| 0 <= j < part.len() implies part[j] != sep by {
        assert(part.contains(part[j]));
    }
    lemma_sep_pos_unique(part, sep, part.len() as int);
    let s = part + seq![sep] + rest;
    assert(s[part.len() as int] == sep);
    lemma_sep_pos_unique(s, sep, part.len() as int);
    assert(s.take(part.len() as int) =~= part);
    assert(s.skip(part.len() as int + 1) =~= rest);
}

proof fn lemma_words_skip(s: Seq<char>, t: Seq<char>)
    requires
        s.len() > 0,
        !is_space(s[0]),
        forall|k: int| 0 <= k < s.len() ==> !is_space(#[trigger] s[k]),
        t.len() > 0 ==> is_space(t[0]),
    ensures
        words(s + t) == seq![s] + words(t),
{
    let all = s + t;
    assert(all[0] == s[0]);
    if t.len() > 0 {
        assert(all[s.len() as int] == t[0]);
    }
    assert forall|k: int| 0 <= k < s.len() implies !is_space(#[trigger] all[k]) by {
        assert(all[k] == s[k]);
    }
    lemma_space_pos(all, s.len() as int);
    assert(all.take(s.len() as int) =~= s);
    assert(all.skip(s.len() as int) =~= t);
}

/// White space stands before and between words, and a stretch without white
/// space is one word.
pub proof fn law_words(word: Seq<char>, c: char, rest: Seq<char>)
    requires
        word.len() > 0,
        forall|k: int| 0 <= k < word.len() ==> !is_space(#[trigger] word[k]),
        is_space(c),
    ensures
        words(Seq::empty()) == Seq::<Seq<char>>::empty(),
        words(word) == seq![word],
        words(seq![c] + rest) == words(rest),
        words(word + (seq![c] + rest)) == seq![word] + words(rest),
{
    let blank = seq![c] + rest;
    assert(blank.drop_first() =~= rest);
    lemma_words_skip(word, blank);
    lemma_words_skip(word, Seq::empty());
    assert(word + Seq::<char>::empty() =~= word);
    assert(words(Seq::<char>::empty()) =~= Seq::<Seq<char>>::empty());
    assert(seq![word] + Seq::<Seq<char>>::empty() =~= seq![word]);
}

proof fn lemma_last_part(s: Seq<char>, sep: char)
    ensures
        split_on(s, sep).len() > 0,
    decreases s.len(),
{
    let i = sep_pos(s, sep);
    lemma_sep_pos(s, sep);
    if i < s.len() {
        lemma_last_part(s.skip(i + 1), sep);
    }
}

/// A line feed ends a line, and a carriage return before it goes with it; what
/// stands behind the last line feed is a line unless it is empty.
pub proof fn law_lines(line: Seq<char>, rest: Seq<char>)
    requires
        !line.contains('\n'),
    ensures
        lines(line + seq!['\n'] + rest) == seq![without_return(line)] + lines(rest),
        line.len() > 0 ==> lines(line) == seq![without_return(line)],
        lines(Seq::empty()) == Seq::<Seq<char>>::empty(),
        line.len() > 0 && line.last() == '\r' ==> without_return(line) == line.take(
            line.len() - 1,
        ),
        line.len() == 0 || line.last() != '\r' ==> without_return(line) == line,
{
    law_split_off(line, '\n', rest);
    let s = line + seq!['\n'] + rest;
    let tail = split_on(rest, '\n');
    let parts = split_on(s, '\n');
    lemma_last_part(rest, '\n');
    assert(parts.last() == tail.last());
    assert(parts.drop_last() =~= seq![line] + tail.drop_last());
    assert(lines(s) =~= seq![without_return(line)] + lines(rest));
    let none = Seq::<char>::empty();
    assert(!none.contains('\n'));
    law_split_off(none, '\n', none);
    assert(lines(none) =~= Seq::<Seq<char>>::empty());
    assert(line.len() > 0 ==> lines(line) =~= seq![without_return(line)]);
    if line.len() > 0 {
        assert(line.drop_last() =~= line.take(line.len() - 1));
    }
}

// ---------------------------------------------------------------------------
// Order

/// The order of texts: what goes on comes behind what it goes on from, and
/// otherwise the first difference decides.
pub proof fn law_text_order(common: Seq<char>, a: Seq<char>, b: Seq<char>)
    ensures
        b.len() > 0 ==> text_before(common, common + b),
        !text_before(common + b, common),
        a.len() > 0 && b.len() > 0 && a[0] != b[0] ==> (text_before(common + a, common + b)
            <==> a[0] < b[0]),
    decreases common.len(),
{
    if common.len() > 0 {
        let rest = common.drop_first();
        law_text_order(rest, a, b);
        assert((common + a).drop_first() =~= rest + a);
        assert((common + b).drop_first() =~= rest + b);
        assert((common + a)[0] == common[0]);
        assert((common + b)[0] == common[0]);
    } else {
        assert(common + a =~= a);
        assert(common + b =~= b);
    }
}

// ---------------------------------------------------------------------------
// Numbers

/// The digits of a number: one more digit makes ten times as much and the
/// digit, and the digits are written `0` to `9`, none of them in vain.
pub proof fn law_decimal(n: nat, d: nat)
    requires
        d < 10,
    ensures
        decimal(d) == seq![(48 + d) as char],
        n > 0 ==> decimal(10 * n + d) == decimal(n).push((48 + d) as char),
        n > 0 ==> decimal(n)[0] != '0',
    decreases n,
{
    assert((10 * n + d) / 10 == n);
    assert((10 * n + d) % 10 == d);
    if n >= 10 {
        law_decimal(n / 10, n % 10);
        lemma_decimal(n / 10);
        assert(decimal(n)[0] == decimal(n / 10)[0]);
    } else if n > 0 {
        assert(decimal(n)[0] == digit(n));
    }
}

proof fn lemma_zeros(k: nat, s: Seq<char>)
    ensures
        digits_value(repeated('0', k as int) + s) == digits_value(s),
        all_digits(s) ==> all_digits(repeated('0', k as int) + s),
    decreases s.len(), k,
{
    let z = repeated('0', k as int);
    if s.len() == 0 {
        assert(z + s =~= z);
        if k > 0 {
            lemma_zeros((k - 1) as nat, s);
            let y = repeated('0', k - 1);
            assert(y + s =~= y);
            assert(z.drop_last() =~= y);
        } else {
            assert(z =~= s);
        }
    } else {
        lemma_zeros(k, s.drop_last());
        assert((z + s).drop_last() =~= z + s.drop_last());
        assert((z + s).last() == s.last());
    }
    if all_digits(s) {
        assert forall|i: int| 0 <= i < (z + s).len() implies is_digit(#[trigger] (z + s)[i]) by {
            if i >= z.len() {
                assert((z + s)[i] == s[i - z.len()]);
            }
        }
    }
}

/// Reading a number: its digits, behind zeros and behind a plus sign, are read
/// as the number if it is not too large; a text with anything but digits behind
/// the sign, or with none, is no number.
pub proof fn law_numbers_are_read(n: nat, max: nat, zeros: nat)
    ensures
        n <= max ==> unsigned_value(repeated('0', zeros as int) + decimal(n), max) == Some(n),
        n <= max ==> unsigned_value(
            seq!['+'] + (repeated('0', zeros as int) + decimal(n)),
            max,
        ) == Some(n),
        n > max ==> unsigned_value(repeated('0', zeros as int) + decimal(n), max) is None,
{
    lemma_decimal(n);
    lemma_zeros(zeros, decimal(n));
    let s = repeated('0', zeros as int) + decimal(n);
    assert(is_digit(s[0]));
    assert((seq!['+'] + s).drop_first() =~= s);
}

/// What is no number is not read as one.
pub proof fn law_other_texts_are_no_numbers(s: Seq<char>, max: nat)
    ensures
        unsigned_value(s, max) matches Some(n) ==> n <= max && {
            let d = unsigned_digits(s);
            &&& d.len() > 0
            &&& forall|i: int| 0 <= i < d.len() ==> '0' <= #[trigger] d[i] <= '9'
            &&& s == d || s == seq!['+'] + d
        },
{
    if s.len() > 0 {
        assert(s =~= seq![s[0]] + s.drop_first());
    }
}

/// A negative number is a minus sign and its size, any other its digits.
pub proof fn law_signed_decimal(n: nat)
    ensures
        signed_decimal(n as int) == decimal(n),
        n > 0 ==> signed_decimal(-n) == seq!['-'] + decimal(n),
{
    reveal_strlit("-");
    assert("-"@ =~= seq!['-']);
}

// ---------------------------------------------------------------------------
// Padding

/// Padding fills up with blanks to the width, behind or before the text, and
/// cuts nothing off.
pub proof fn law_padding(s: Seq<char>, width: nat, i: int)
    ensures
        padded_left(s, width).len() == (if s.len() > width {
            s.len()
        } else {
            width
        }),
        padded_right(s, width).len() == padded_left(s, width).len(),
        padded_left(s, width).take(s.len() as int) == s,
        padded_right(s, width).skip(padded_right(s, width).len() - s.len()) == s,
        s.len() <= i < width ==> padded_left(s, width)[i] == ' ',
        0 <= i < width - s.len() ==> padded_right(s, width)[i] == ' ',
{
    assert(padded_left(s, width).take(s.len() as int) =~= s);
    assert(padded_right(s, width).skip(padded_right(s, width).len() - s.len()) =~= s);
}

/// Zeros fill a number up to the width and leave its value as it is.
pub proof fn law_zero_padding(n: nat, width: nat)
    ensures
        zero_padded(n, width).len() == (if decimal(n).len() > width {
            decimal(n).len()
        } else {
            width
        }),
        all_digits(zero_padded(n, width)),
        digits_value(zero_padded(n, width)) == n,
        unsigned_value(zero_padded(n, width), n) == Some(n),
{
    lemma_decimal(n);
    let k: nat = if width > decimal(n).len() {
        (width - decimal(n).len()) as nat
    } else {
        0
    };
    assert(repeated('0', k as int) =~= repeated('0', width - decimal(n).len()));
    lemma_zeros(k, decimal(n));
    assert(is_digit(zero_padded(n, width)[0]));
}

} // verus!
