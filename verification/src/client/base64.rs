//! Base 64, as older nodes send their payloads.

use vstd::prelude::*;

verus! {

/// Whether a byte is white space, which may stand anywhere in base 64.
pub open spec fn is_blank(b: u8) -> bool {
    b == 9 || b == 10 || b == 12 || b == 13 || b == 32
}

/// The value of a digit; 64 for the padding sign.
pub open spec fn digit_value(b: u8) -> Option<u8> {
    if 65 <= b <= 90 {
        Some((b - 65) as u8)
    } else if 97 <= b <= 122 {
        Some((b - 97 + 26) as u8)
    } else if 48 <= b <= 57 {
        Some((b - 48 + 52) as u8)
    } else if b == 43 {
        Some(62)
    } else if b == 47 {
        Some(63)
    } else if b == 61 {
        Some(64)
    } else {
        None
    }
}

/// The values of the digits in `s`, white space left out; nothing if `s` holds
/// anything else.
pub open spec fn digit_values(s: Seq<u8>) -> Option<Seq<u8>>
    decreases s.len(),
{
    if s.len() == 0 {
        Some(Seq::empty())
    } else {
        match digit_values(s.drop_last()) {
            None => None,
            Some(before) => if is_blank(s.last()) {
                Some(before)
            } else {
                match digit_value(s.last()) {
                    Some(v) => Some(before.push(v)),
                    None => None,
                }
            },
        }
    }
}

/// The bytes in four digits: three, or fewer with padding.
pub open spec fn quad(a: u8, b: u8, c: u8, d: u8) -> Option<Seq<u8>> {
    let first = (a * 4 + b / 16) as u8;
    let second = ((b % 16) * 16 + c / 4) as u8;
    let third = ((c % 4) * 64 + d) as u8;
    if a == 64 || b == 64 {
        None
    } else if c == 64 {
        if d == 64 {
            Some(seq![first])
        } else {
            None
        }
    } else if d == 64 {
        Some(seq![first, second])
    } else {
        Some(seq![first, second, third])
    }
}

/// The bytes in a sequence of digits, taken by four.
pub open spec fn quads(v: Seq<u8>) -> Option<Seq<u8>>
    decreases v.len(),
{
    let n = v.len() as int;
    if n == 0 {
        Some(Seq::empty())
    } else if n < 4 {
        None
    } else {
        match (quads(v.take(n - 4)), quad(v[n - 4], v[n - 3], v[n - 2], v[n - 1])) {
            (Some(before), Some(q)) => Some(before + q),
            _ => None,
        }
    }
}

/// The bytes that a text writes in base 64.
pub open spec fn base64_bytes(s: Seq<u8>) -> Option<Seq<u8>> {
    match digit_values(s) {
        Some(v) => quads(v),
        None => None,
    }
}

fn value_of(b: u8) -> (r: Option<u8>)
    ensures
        r == digit_value(b),
        r matches Some(v) ==> v <= 64,
{
    if 65 <= b && b <= 90 {
        Some(b - 65)
    } else if 97 <= b && b <= 122 {
        Some(b - 97 + 26)
    } else if 48 <= b && b <= 57 {
        Some(b - 48 + 52)
    } else if b == 43 {
        Some(62)
    } else if b == 47 {
        Some(63)
    } else if b == 61 {
        Some(64)
    } else {
        None
    }
}

proof fn lemma_digit_fault_stays(s: Seq<u8>, i: int)
    requires
        0 <= i <= s.len(),
        digit_values(s.take(i)) is None,
    ensures
        digit_values(s) is None,
    decreases s.len() - i,
{
    if i < s.len() {
        assert(s.take(i + 1).drop_last() =~= s.take(i));
        lemma_digit_fault_stays(s, i + 1);
    } else {
        assert(s.take(i) =~= s);
    }
}

proof fn lemma_quad_fault_stays(v: Seq<u8>, i: int)
    requires
        0 <= i <= v.len(),
        i % 4 == 0,
        v.len() % 4 == 0,
        quads(v.take(i)) is None,
    ensures
        quads(v) is None,
    decreases v.len() - i,
{
    if i < v.len() {
        let next = v.take(i + 4);
        assert(next.take(i) =~= v.take(i));
        lemma_quad_fault_stays(v, i + 4);
    } else {
        assert(v.take(i) =~= v);
    }
}

proof fn lemma_ragged(v: Seq<u8>)
    requires
        v.len() % 4 != 0,
    ensures
        quads(v) is None,
    decreases v.len(),
{
    if v.len() >= 4 {
        lemma_ragged(v.take(v.len() - 4));
    }
}

/// The bytes that a text writes in base 64.
pub fn decode_base64(raw: &[u8]) -> (r: Option<Vec<u8>>)
    ensures
        match r {
            Some(out) => base64_bytes(raw@) == Some(out@),
            None => base64_bytes(raw@) is None,
        },
{
    let mut values: Vec<u8> = Vec::new();
    let mut i: usize = 0;
    assert(raw@.take(0) =~= Seq::empty());
    while i < raw.len()
        invariant
            i <= raw@.len(),
            digit_values(raw@.take(i as int)) == Some(values@),
            forall|j: int| 0 <= j < values@.len() ==> #[trigger] values@[j] <= 64,
        decreases raw@.len() - i,
    {
        let b: u8 = raw[i];
        assert(raw@.take(i + 1).drop_last() =~= raw@.take(i as int));
        assert(raw@.take(i + 1).last() == b);
        if !(b == 9 || b == 10 || b == 12 || b == 13 || b == 32) {
            match value_of(b) {
                Some(v) => {
                    values.push(v);
                },
                None => {
                    proof {
                        lemma_digit_fault_stays(raw@, i + 1);
                    }
                    return None;
                },
            }
        }
        i = i + 1;
    }
    assert(raw@.take(i as int) =~= raw@);
    let n: usize = values.len();
    if n % 4 != 0 {
        proof {
            lemma_ragged(values@);
        }
        return None;
    }
    let mut out: Vec<u8> = Vec::new();
    let mut k: usize = 0;
    assert(values@.take(0) =~= Seq::empty());
    while k < n
        invariant
            k <= n == values@.len(),
            k % 4 == 0,
            n % 4 == 0,
            digit_values(raw@) == Some(values@),
            forall|j: int| 0 <= j < values@.len() ==> #[trigger] values@[j] <= 64,
            quads(values@.take(k as int)) == Some(out@),
        decreases n - k,
    {
        let a: u8 = values[k];
        let b: u8 = values[k + 1];
        let c: u8 = values[k + 2];
        let d: u8 = values[k + 3];
        let ghost before = out@;
        let ghost next = values@.take(k + 4);
        assert(next.take(k as int) =~= values@.take(k as int));
        assert(next[k as int] == a && next[k + 1] == b && next[k + 2] == c && next[k + 3] == d);
        if a == 64 || b == 64 || (c == 64 && d != 64) {
            proof {
                lemma_quad_fault_stays(values@, k + 4);
            }
            return None;
        }
        out.push(a * 4 + b / 16);
        if c != 64 {
            out.push((b % 16) * 16 + c / 4);
            if d != 64 {
                out.push((c % 4) * 64 + d);
            }
        }
        assert(out@ =~= before + quad(a, b, c, d)->0);
        k = k + 4;
    }
    assert(values@.take(k as int) =~= values@);
    Some(out)
}

// ---------------------------------------------------------------------------
// Laws

/// The digit for a value; the padding sign for 64.
pub open spec fn digit_of(v: int) -> u8 {
    if v < 26 {
        (65 + v) as u8
    } else if v < 52 {
        (97 + v - 26) as u8
    } else if v < 62 {
        (48 + v - 52) as u8
    } else if v == 62 {
        43
    } else if v == 63 {
        47
    } else {
        61
    }
}

/// One to three bytes in base 64.
pub open spec fn base64_group(g: Seq<u8>) -> Seq<u8> {
    let a = g[0] as int;
    let b = if g.len() > 1 {
        g[1] as int
    } else {
        0
    };
    let c = if g.len() > 2 {
        g[2] as int
    } else {
        0
    };
    seq![
        digit_of(a / 4),
        digit_of((a % 4) * 16 + b / 16),
        digit_of(
            if g.len() > 1 {
                (b % 16) * 4 + c / 64
            } else {
                64
            },
        ),
        digit_of(
            if g.len() > 2 {
                c % 64
            } else {
                64
            },
        ),
    ]
}

/// Bytes in base 64: groups of three, the last one padded.
pub open spec fn base64_text(bytes: Seq<u8>) -> Seq<u8>
    decreases bytes.len(),
{
    let n = bytes.len() as int;
    if n == 0 {
        Seq::empty()
    } else {
        let tail = if n % 3 == 0 {
            3
        } else {
            n % 3
        };
        base64_text(bytes.take(n - tail)) + base64_group(bytes.skip(n - tail))
    }
}

proof fn lemma_digits_of_four(s: Seq<u8>, g: Seq<u8>)
    requires
        digit_values(s) is Some,
        g.len() == 4,
        forall|i: int| 0 <= i < 4 ==> !is_blank(#[trigger] g[i]) && digit_value(g[i]) is Some,
    ensures
        digit_values(s + g) == Some(
            digit_values(s)->0 + seq![
                digit_value(g[0])->0,
                digit_value(g[1])->0,
                digit_value(g[2])->0,
                digit_value(g[3])->0,
            ],
        ),
{
    let v = digit_values(s)->0;
    let s1 = s.push(g[0]);
    let s2 = s1.push(g[1]);
    let s3 = s2.push(g[2]);
    let s4 = s3.push(g[3]);
    assert(s1.drop_last() =~= s);
    assert(s2.drop_last() =~= s1);
    assert(s3.drop_last() =~= s2);
    assert(s4.drop_last() =~= s3);
    assert(!is_blank(g[0]) && !is_blank(g[1]) && !is_blank(g[2]) && !is_blank(g[3]));
    assert(digit_values(s1) == Some(v.push(digit_value(g[0])->0)));
    assert(digit_values(s2) == Some(v.push(digit_value(g[0])->0).push(digit_value(g[1])->0)));
    assert(digit_values(s3) == Some(
        v.push(digit_value(g[0])->0).push(digit_value(g[1])->0).push(digit_value(g[2])->0),
    ));
    assert(s4 =~= s + g);
    assert(digit_values(s4)->0 =~= v + seq![
        digit_value(g[0])->0,
        digit_value(g[1])->0,
        digit_value(g[2])->0,
        digit_value(g[3])->0,
    ]);
}

proof fn lemma_digit_round_trip(v: int)
    requires
        0 <= v <= 64,
    ensures
        !is_blank(digit_of(v)),
        digit_value(digit_of(v)) == Some(v as u8),
{
}

/// Bytes written in base 64 read back unchanged.
pub proof fn law_base64_reads_back(bytes: Seq<u8>)
    ensures
        base64_bytes(base64_text(bytes)) == Some(bytes),
        digit_values(base64_text(bytes)) is Some,
    decreases bytes.len(),
{
    let n = bytes.len() as int;
    if n == 0 {
        assert(bytes =~= Seq::empty());
    } else {
        let tail = if n % 3 == 0 {
            3
        } else {
            n % 3
        };
        let front = bytes.take(n - tail);
        let g = bytes.skip(n - tail);
        law_base64_reads_back(front);
        let s = base64_text(front);
        let t = base64_group(g);
        let a = g[0] as int;
        let b = if g.len() > 1 {
            g[1] as int
        } else {
            0
        };
        let c = if g.len() > 2 {
            g[2] as int
        } else {
            0
        };
        let v0 = a / 4;
        let v1 = (a % 4) * 16 + b / 16;
        let v2 = if g.len() > 1 {
            (b % 16) * 4 + c / 64
        } else {
            64
        };
        let v3 = if g.len() > 2 {
            c % 64
        } else {
            64
        };
        lemma_digit_round_trip(v0);
        lemma_digit_round_trip(v1);
        lemma_digit_round_trip(v2);
        lemma_digit_round_trip(v3);
        lemma_digits_of_four(s, t);
        let before = digit_values(s)->0;
        let all = before + seq![v0 as u8, v1 as u8, v2 as u8, v3 as u8];
        assert(digit_values(base64_text(bytes)) == Some(all));
        let m = all.len() as int;
        assert(all.take(m - 4) =~= before);
        assert(quad(v0 as u8, v1 as u8, v2 as u8, v3 as u8) == Some(g)) by {
            assert(quad(v0 as u8, v1 as u8, v2 as u8, v3 as u8)->0 =~= g);
        }
        assert(front + g =~= bytes);
    }
}

} // verus!
