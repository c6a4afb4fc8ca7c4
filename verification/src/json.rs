//! The JSON tokens that the stored form of a document is made of: strings and
//! unsigned integers, written the one way in which a compact JSON writer writes them.

use vstd::prelude::*;

verus! {

/// The lower-case hexadecimal digit for `n`, which is below 16.
pub open spec fn hex_digit(n: int) -> u8 {
    if n < 10 {
        (0x30 + n) as u8
    } else {
        (0x61 + n - 10) as u8
    }
}

/// How one byte of a string stands between the quotes: the quote and the backslash
/// after a backslash, control characters by their short escapes where JSON has one
/// and as `\u00XX` otherwise, and every other byte as it is.
pub open spec fn escape_byte(b: u8) -> Seq<u8> {
    if b == 0x22 {
        seq![0x5Cu8, 0x22u8]
    } else if b == 0x5C {
        seq![0x5Cu8, 0x5Cu8]
    } else if b == 0x08 {
        seq![0x5Cu8, 0x62u8]
    } else if b == 0x09 {
        seq![0x5Cu8, 0x74u8]
    } else if b == 0x0A {
        seq![0x5Cu8, 0x6Eu8]
    } else if b == 0x0C {
        seq![0x5Cu8, 0x66u8]
    } else if b == 0x0D {
        seq![0x5Cu8, 0x72u8]
    } else if b < 0x20 {
        seq![0x5Cu8, 0x75u8, 0x30u8, 0x30u8, hex_digit(b as int / 16), hex_digit(b as int % 16)]
    } else {
        seq![b]
    }
}

/// How the bytes of a string stand between the quotes.
pub open spec fn escape(s: Seq<u8>) -> Seq<u8>
    decreases s.len(),
{
    if s.len() == 0 {
        Seq::empty()
    } else {
        escape(s.drop_last()) + escape_byte(s.last())
    }
}

/// A JSON string with the content `s`.
pub open spec fn quoted(s: Seq<u8>) -> Seq<u8> {
    seq![0x22u8] + escape(s) + seq![0x22u8]
}

/// The decimal digits of `n`, without leading zeros.
pub open spec fn decimal(n: nat) -> Seq<u8>
    decreases n,
{
    if n < 10 {
        seq![(0x30 + n) as u8]
    } else {
        decimal(n / 10) + seq![(0x30 + n % 10) as u8]
    }
}

fn hex(n: u8) -> (digit: u8)
    requires
        n < 16,
    ensures
        digit == hex_digit(n as int),
{
    if n < 10 {
        0x30 + n
    } else {
        0x61 + (n - 10)
    }
}

fn write_escaped_byte(out: &mut Vec<u8>, b: u8)
    ensures
        final(out)@ == old(out)@ + escape_byte(b),
{
    if b == 0x22 || b == 0x5C {
        out.push(0x5C);
        out.push(b);
    } else if b == 0x08 {
        out.push(0x5C);
        out.push(0x62);
    } else if b == 0x09 {
        out.push(0x5C);
        out.push(0x74);
    } else if b == 0x0A {
        out.push(0x5C);
        out.push(0x6E);
    } else if b == 0x0C {
        out.push(0x5C);
        out.push(0x66);
    } else if b == 0x0D {
        out.push(0x5C);
        out.push(0x72);
    } else if b < 0x20 {
        out.push(0x5C);
        out.push(0x75);
        out.push(0x30);
        out.push(0x30);
        out.push(hex(b / 16));
        out.push(hex(b % 16));
    } else {
        out.push(b);
    }
    assert(out@ =~= old(out)@ + escape_byte(b));
}

/// Appends to `out` the JSON string with the content `s`.
pub fn write_quoted(out: &mut Vec<u8>, s: &[u8])
    ensures
        final(out)@ == old(out)@ + quoted(s@),
{
    out.push(0x22);
    let mut i: usize = 0;
    while i < s.len()
        invariant
            i <= s.len(),
            out@ == old(out)@ + seq![0x22u8] + escape(s@.take(i as int)),
        decreases s.len() - i,
    {
        let b: u8 = s[i];
        write_escaped_byte(out, b);
        proof {
            let next = s@.take(i as int + 1);
            assert(next.drop_last() =~= s@.take(i as int));
            assert(next.last() == b);
        }
        i += 1;
    }
    out.push(0x22);
    proof {
        assert(s@.take(s.len() as int) =~= s@);
        assert(out@ =~= old(out)@ + quoted(s@));
    }
}

/// Appends to `out` the decimal digits of `n`.
pub fn write_decimal(out: &mut Vec<u8>, n: u64)
    ensures
        final(out)@ == old(out)@ + decimal(n as nat),
    decreases n,
{
    if n >= 10 {
        write_decimal(out, n / 10);
    }
    let digit: u8 = (n % 10) as u8;
    out.push(0x30 + digit);
    assert(out@ =~= old(out)@ + decimal(n as nat));
}

/// The value of a lower-case hexadecimal digit, if `c` is one.
pub open spec fn hex_value(c: u8) -> Option<int> {
    if 0x30 <= c <= 0x39 {
        Some(c - 0x30)
    } else if 0x61 <= c <= 0x66 {
        Some(c - 0x61 + 10)
    } else {
        None
    }
}

/// The byte that stands at `pos` between the quotes of a string, and the position
/// after it: the inverse of [`escape_byte`]. `None` at a quote, at the end of `s`,
/// and at anything that [`escape_byte`] does not write.
pub open spec fn unescape_byte(s: Seq<u8>, pos: int) -> Option<(u8, int)> {
    if pos < 0 || pos >= s.len() {
        None
    } else if s[pos] == 0x5C {
        if pos + 1 >= s.len() {
            None
        } else {
            let c = s[pos + 1];
            if c == 0x22 {
                Some((0x22u8, pos + 2))
            } else if c == 0x5C {
                Some((0x5Cu8, pos + 2))
            } else if c == 0x62 {
                Some((0x08u8, pos + 2))
            } else if c == 0x74 {
                Some((0x09u8, pos + 2))
            } else if c == 0x6E {
                Some((0x0Au8, pos + 2))
            } else if c == 0x66 {
                Some((0x0Cu8, pos + 2))
            } else if c == 0x72 {
                Some((0x0Du8, pos + 2))
            } else if c == 0x75 && pos + 5 < s.len() && s[pos + 2] == 0x30 && s[pos + 3] == 0x30 {
                match (hex_value(s[pos + 4]), hex_value(s[pos + 5])) {
                    (Some(hi), Some(lo)) => {
                        let b = hi * 16 + lo;
                        if b < 0x20 && escape_byte(b as u8).len() == 6 {
                            Some((b as u8, pos + 6))
                        } else {
                            None
                        }
                    },
                    _ => None,
                }
            } else {
                None
            }
        }
    } else if s[pos] < 0x20 || s[pos] == 0x22 {
        None
    } else {
        Some((s[pos], pos + 1))
    }
}

/// The content of the string whose first byte after the opening quote stands at
/// `pos`, and the position after its closing quote.
pub open spec fn unescape_from(s: Seq<u8>, pos: int) -> Option<(Seq<u8>, int)>
    decreases s.len() - pos,
{
    if pos < 0 || pos >= s.len() {
        None
    } else if s[pos] == 0x22 {
        Some((Seq::empty(), pos + 1))
    } else {
        match unescape_byte(s, pos) {
            Some((b, next)) => match unescape_from(s, next) {
                Some((rest, end)) => Some((seq![b] + rest, end)),
                None => None,
            },
            None => None,
        }
    }
}

/// The content of the JSON string that starts at `pos`, and the position after it.
pub open spec fn parse_quoted(s: Seq<u8>, pos: int) -> Option<(Seq<u8>, int)> {
    if 0 <= pos < s.len() && s[pos] == 0x22 {
        unescape_from(s, pos + 1)
    } else {
        None
    }
}

/// What a reader has when `acc` was read before what `rest` reads.
pub open spec fn prepend(acc: Seq<u8>, rest: Option<(Seq<u8>, int)>) -> Option<(Seq<u8>, int)> {
    match rest {
        Some((tail, end)) => Some((acc + tail, end)),
        None => None,
    }
}

fn hex_of(c: u8) -> (v: Option<u8>)
    ensures
        match v {
            Some(x) => hex_value(c) == Some(x as int),
            None => hex_value(c) is None,
        },
{
    if 0x30 <= c && c <= 0x39 {
        Some(c - 0x30)
    } else if 0x61 <= c && c <= 0x66 {
        Some(c - 0x61 + 10)
    } else {
        None
    }
}

fn read_escaped_byte(s: &[u8], pos: usize) -> (r: Option<(u8, usize)>)
    ensures
        match r {
            Some((b, next)) => unescape_byte(s@, pos as int) == Some((b, next as int)),
            None => unescape_byte(s@, pos as int) is None,
        },
{
    if pos >= s.len() {
        return None;
    }
    let first: u8 = s[pos];
    if first == 0x5C {
        if s.len() - pos < 2 {
            return None;
        }
        let c: u8 = s[pos + 1];
        if c == 0x22 {
            Some((0x22, pos + 2))
        } else if c == 0x5C {
            Some((0x5C, pos + 2))
        } else if c == 0x62 {
            Some((0x08, pos + 2))
        } else if c == 0x74 {
            Some((0x09, pos + 2))
        } else if c == 0x6E {
            Some((0x0A, pos + 2))
        } else if c == 0x66 {
            Some((0x0C, pos + 2))
        } else if c == 0x72 {
            Some((0x0D, pos + 2))
        } else if c == 0x75 && s.len() - pos > 5 && s[pos + 2] == 0x30 && s[pos + 3] == 0x30 {
            match (hex_of(s[pos + 4]), hex_of(s[pos + 5])) {
                (Some(hi), Some(lo)) => {
                    let b: u8 = hi * 16 + lo;
                    if b < 0x20 && b != 0x08 && b != 0x09 && b != 0x0A && b != 0x0C && b != 0x0D {
                        Some((b, pos + 6))
                    } else {
                        None
                    }
                },
                _ => None,
            }
        } else {
            None
        }
    } else if first < 0x20 || first == 0x22 {
        None
    } else {
        Some((first, pos + 1))
    }
}

/// Reads the JSON string that starts at `pos`: its content and the position after it.
pub fn read_quoted(s: &[u8], pos: usize) -> (r: Option<(Vec<u8>, usize)>)
    ensures
        match r {
            Some((content, end)) => parse_quoted(s@, pos as int) == Some((content@, end as int)),
            None => parse_quoted(s@, pos as int) is None,
        },
{
    if pos >= s.len() || s[pos] != 0x22 {
        return None;
    }
    let mut content: Vec<u8> = Vec::new();
    let mut p: usize = pos + 1;
    assert(content@ + Seq::<u8>::empty() =~= Seq::<u8>::empty());
    loop
        invariant
            pos < p <= s.len(),
            s@[pos as int] == 0x22,
            unescape_from(s@, pos + 1) == prepend(content@, unescape_from(s@, p as int)),
        decreases s.len() - p,
    {
        if p >= s.len() {
            return None;
        }
        if s[p] == 0x22 {
            assert(content@ + Seq::<u8>::empty() =~= content@);
            return Some((content, p + 1));
        }
        match read_escaped_byte(s, p) {
            None => {
                return None;
            },
            Some((b, next)) => {
                proof {
                    match unescape_from(s@, next as int) {
                        Some((rest, end)) => {
                            assert(content@ + (seq![b] + rest) =~= content@.push(b) + rest);
                        },
                        None => {},
                    }
                }
                content.push(b);
                p = next;
            },
        }
    }
}

/// The escaped form of a string is that of its first byte, then that of the rest.
pub proof fn lemma_escape_front(b: u8, rest: Seq<u8>)
    ensures
        escape(seq![b] + rest) == escape_byte(b) + escape(rest),
    decreases rest.len(),
{
    let s = seq![b] + rest;
    if rest.len() == 0 {
        assert(s.drop_last() =~= Seq::<u8>::empty());
        assert(escape(s.drop_last()) =~= Seq::<u8>::empty());
        assert(escape(s) =~= escape_byte(b) + escape(rest));
    } else {
        assert(s.drop_last() =~= seq![b] + rest.drop_last());
        assert(s.last() == rest.last());
        lemma_escape_front(b, rest.drop_last());
        assert(escape(s) =~= escape_byte(b) + escape(rest));
    }
}

#[verifier::rlimit(50)]
proof fn lemma_unescape_byte_inverts(s: Seq<u8>, pos: int, b: u8)
    requires
        0 <= pos,
        pos + escape_byte(b).len() <= s.len(),
        s.subrange(pos, pos + escape_byte(b).len()) == escape_byte(b),
    ensures
        unescape_byte(s, pos) == Some((b, pos + escape_byte(b).len())),
        s[pos] != 0x22,
{
    let e = escape_byte(b);
    let w = s.subrange(pos, pos + e.len());
    assert forall|k: int| 0 <= k < e.len() implies s[pos + k] == e[k] by {
        assert(w[k] == s[pos + k]);
    }
    assert(s[pos] == e[0]);
    if e.len() >= 2 {
        assert(s[pos + 1] == e[1]);
    }
    if e.len() == 6 {
        assert(s[pos + 2] == e[2]);
        assert(s[pos + 3] == e[3]);
        assert(s[pos + 4] == e[4]);
        assert(s[pos + 5] == e[5]);
        let hi = b as int / 16;
        let lo = b as int % 16;
        assert(hex_value(hex_digit(hi)) == Some(hi));
        assert(hex_value(hex_digit(lo)) == Some(lo));
        assert(hi * 16 + lo == b);
    }
}

/// Reading back what was written: where the escaped form of `content` stands at
/// `pos` with a quote after it, the reader finds `content` and stops after the quote.
#[verifier::rlimit(50)]
pub proof fn lemma_unescape_escape(s: Seq<u8>, pos: int, content: Seq<u8>)
    requires
        0 <= pos,
        pos + escape(content).len() < s.len(),
        s.subrange(pos, pos + escape(content).len()) == escape(content),
        s[pos + escape(content).len()] == 0x22,
    ensures
        unescape_from(s, pos) == Some((content, pos + escape(content).len() + 1)),
    decreases content.len(),
{
    if content.len() == 0 {
        assert(unescape_from(s, pos).unwrap().0 =~= content);
    } else {
        let b = content[0];
        let rest = content.drop_first();
        assert(content =~= seq![b] + rest);
        lemma_escape_front(b, rest);
        let e = escape_byte(b);
        let whole = s.subrange(pos, pos + escape(content).len());
        assert(s.subrange(pos, pos + e.len()) =~= whole.subrange(0, e.len() as int));
        assert(whole.subrange(0, e.len() as int) =~= e);
        lemma_unescape_byte_inverts(s, pos, b);
        let next = pos + e.len();
        assert(s.subrange(next, next + escape(rest).len()) =~= whole.subrange(
            e.len() as int,
            whole.len() as int,
        ));
        assert(whole.subrange(e.len() as int, whole.len() as int) =~= escape(rest));
        lemma_unescape_escape(s, next, rest);
    }
}

#[verifier::rlimit(50)]
proof fn lemma_unescape_byte_canonical(s: Seq<u8>, pos: int)
    requires
        unescape_byte(s, pos) is Some,
    ensures
        ({
            let (b, next) = unescape_byte(s, pos).unwrap();
            pos < next <= s.len() && s.subrange(pos, next) == escape_byte(b)
        }),
{
    let (b, next) = unescape_byte(s, pos).unwrap();
    if s[pos] == 0x5C && s[pos + 1] == 0x75 {
        let hi = hex_value(s[pos + 4]).unwrap();
        let lo = hex_value(s[pos + 5]).unwrap();
        assert(b as int / 16 == hi);
        assert(b as int % 16 == lo);
        assert(hex_digit(hi) == s[pos + 4]);
        assert(hex_digit(lo) == s[pos + 5]);
    }
    assert(s.subrange(pos, next) =~= escape_byte(b));
}

/// What the reader takes is what the writer writes: where it finds a content, the
/// bytes that it read are the escaped form of that content and the closing quote.
#[verifier::rlimit(50)]
pub proof fn lemma_unescape_canonical(s: Seq<u8>, pos: int)
    requires
        unescape_from(s, pos) is Some,
    ensures
        ({
            let (content, end) = unescape_from(s, pos).unwrap();
            pos < end <= s.len() && s.subrange(pos, end) == escape(content) + seq![0x22u8]
        }),
    decreases s.len() - pos,
{
    let (content, end) = unescape_from(s, pos).unwrap();
    if s[pos] == 0x22 {
        assert(escape(content) =~= Seq::<u8>::empty());
        assert(s.subrange(pos, end) =~= escape(content) + seq![0x22u8]);
    } else {
        let (b, next) = unescape_byte(s, pos).unwrap();
        lemma_unescape_byte_canonical(s, pos);
        lemma_unescape_canonical(s, next);
        let (rest, end2) = unescape_from(s, next).unwrap();
        assert(content == seq![b] + rest);
        lemma_escape_front(b, rest);
        assert(s.subrange(pos, end) =~= s.subrange(pos, next) + s.subrange(next, end));
        assert(s.subrange(pos, end) =~= escape(content) + seq![0x22u8]);
    }
}

/// Reading back a string that was written: where `quoted(content)` stands at `pos`,
/// the reader finds `content` and stops after it.
pub proof fn lemma_parse_quoted_written(s: Seq<u8>, pos: int, content: Seq<u8>)
    requires
        0 <= pos,
        pos + quoted(content).len() <= s.len(),
        s.subrange(pos, pos + quoted(content).len()) == quoted(content),
    ensures
        parse_quoted(s, pos) == Some((content, pos + quoted(content).len())),
{
    let q = quoted(content);
    let w = s.subrange(pos, pos + q.len());
    let n = escape(content).len() as int;
    assert(w[0] == s[pos]);
    assert(w[n + 1] == s[pos + n + 1]);
    assert(s.subrange(pos + 1, pos + 1 + n) =~= w.subrange(1, n + 1));
    assert(w.subrange(1, n + 1) =~= escape(content));
    lemma_unescape_escape(s, pos + 1, content);
}

/// A string that the reader takes is one that the writer writes: the bytes read are
/// `quoted` of the content found.
pub proof fn lemma_parse_quoted_canonical(s: Seq<u8>, pos: int)
    requires
        parse_quoted(s, pos) is Some,
    ensures
        ({
            let (content, end) = parse_quoted(s, pos).unwrap();
            pos < end <= s.len() && s.subrange(pos, end) == quoted(content)
        }),
{
    let (content, end) = parse_quoted(s, pos).unwrap();
    lemma_unescape_canonical(s, pos + 1);
    assert(s.subrange(pos, end) =~= seq![s[pos]] + s.subrange(pos + 1, end));
    assert(s.subrange(pos, end) =~= quoted(content));
}

/// Whether `c` is a decimal digit.
pub open spec fn is_digit(c: u8) -> bool {
    0x30 <= c <= 0x39
}

/// The end of the run of digits that starts at `pos`: the first position from `pos`
/// on that holds no digit.
pub open spec fn digits_end(s: Seq<u8>, pos: int) -> int
    decreases s.len() - pos,
{
    if 0 <= pos < s.len() && is_digit(s[pos]) {
        digits_end(s, pos + 1)
    } else {
        pos
    }
}

/// The number that the digits of `s` from `from` up to `to` spell.
pub open spec fn digits_value(s: Seq<u8>, from: int, to: int) -> nat
    decreases to - from,
{
    if to <= from {
        0
    } else {
        (digits_value(s, from, to - 1) * 10 + (s[to - 1] - 0x30)) as nat
    }
}

/// The number of at most `max` that stands at `pos` in decimal digits without
/// leading zeros, and the position after it.
pub open spec fn parse_decimal(s: Seq<u8>, pos: int, max: nat) -> Option<(nat, int)> {
    if pos < 0 || pos >= s.len() || !is_digit(s[pos]) {
        None
    } else if s[pos] == 0x30 {
        Some((0nat, pos + 1))
    } else {
        let end = digits_end(s, pos);
        let value = digits_value(s, pos, end);
        if value <= max {
            Some((value, end))
        } else {
            None
        }
    }
}

/// Whether `s` holds digits only from `from` up to `to`.
pub open spec fn all_digits(s: Seq<u8>, from: int, to: int) -> bool {
    forall|k: int| from <= k < to ==> is_digit(#[trigger] s[k])
}

proof fn lemma_digits_end_skips(s: Seq<u8>, from: int, to: int)
    requires
        0 <= from <= to <= s.len(),
        all_digits(s, from, to),
    ensures
        digits_end(s, from) == digits_end(s, to),
        to <= digits_end(s, to) <= s.len(),
        all_digits(s, from, digits_end(s, to)),
    decreases s.len() - from,
{
    if from < to {
        assert(is_digit(s[from]));
        lemma_digits_end_skips(s, from + 1, to);
        assert forall|k: int| from <= k < digits_end(s, to) implies is_digit(#[trigger] s[k]) by {
            if k > from {
            }
        }
    } else {
        if to < s.len() && is_digit(s[to]) {
            lemma_digits_end_skips(s, to + 1, to + 1);
            assert forall|k: int| to <= k < digits_end(s, to) implies is_digit(#[trigger] s[k]) by {
                if k > to {
                }
            }
        }
    }
}

proof fn lemma_digits_value_grows(s: Seq<u8>, from: int, mid: int, to: int)
    requires
        0 <= from <= mid <= to <= s.len(),
        all_digits(s, from, to),
    ensures
        digits_value(s, from, mid) <= digits_value(s, from, to),
    decreases to - mid,
{
    if mid < to {
        lemma_digits_value_grows(s, from, mid, to - 1);
        assert(is_digit(s[to - 1]));
    }
}

/// Reads the number of at most `max` that stands at `pos` in decimal digits without
/// leading zeros: the number and the position after it.
pub fn read_decimal(s: &[u8], pos: usize, max: u64) -> (r: Option<(u64, usize)>)
    ensures
        match r {
            Some((value, end)) => parse_decimal(s@, pos as int, max as nat) == Some(
                (value as nat, end as int),
            ),
            None => parse_decimal(s@, pos as int, max as nat) is None,
        },
{
    if pos >= s.len() {
        return None;
    }
    let first: u8 = s[pos];
    if first < 0x30 || first > 0x39 {
        return None;
    }
    if first == 0x30 {
        return Some((0, pos + 1));
    }
    let mut value: u64 = 0;
    let mut p: usize = pos;
    while p < s.len() && s[p] >= 0x30 && s[p] <= 0x39
        invariant
            pos <= p <= s.len(),
            pos < s.len(),
            is_digit(s@[pos as int]),
            s@[pos as int] != 0x30,
            all_digits(s@, pos as int, p as int),
            value == digits_value(s@, pos as int, p as int),
            value <= max,
        decreases s.len() - p,
    {
        let digit: u64 = (s[p] - 0x30) as u64;
        let wide: u128 = (value as u128) * 10 + (digit as u128);
        if wide > max as u128 {
            proof {
                lemma_digits_end_skips(s@, pos as int, p as int + 1);
                lemma_digits_value_grows(s@, pos as int, p as int + 1, digits_end(s@, pos as int));
            }
            return None;
        }
        value = value * 10 + digit;
        p += 1;
    }
    proof {
        lemma_digits_end_skips(s@, pos as int, p as int);
    }
    Some((value, p))
}

proof fn lemma_decimal_shape(n: nat)
    ensures
        decimal(n).len() >= 1,
        forall|k: int| 0 <= k < decimal(n).len() ==> is_digit(#[trigger] decimal(n)[k]),
        n >= 1 ==> decimal(n)[0] != 0x30,
        n == 0 ==> decimal(n)[0] == 0x30,
    decreases n,
{
    if n >= 10 {
        lemma_decimal_shape(n / 10);
    }
}

proof fn lemma_decimal_value(s: Seq<u8>, pos: int, n: nat)
    requires
        0 <= pos,
        pos + decimal(n).len() <= s.len(),
        s.subrange(pos, pos + decimal(n).len()) == decimal(n),
    ensures
        digits_value(s, pos, pos + decimal(n).len()) == n,
    decreases n,
{
    let d = decimal(n);
    let w = s.subrange(pos, pos + d.len());
    assert(w[d.len() - 1] == s[pos + d.len() - 1]);
    if n < 10 {
        assert(digits_value(s, pos, pos) == 0);
    } else {
        let head = decimal(n / 10);
        assert(s.subrange(pos, pos + head.len()) =~= w.subrange(0, head.len() as int));
        assert(w.subrange(0, head.len() as int) =~= head);
        lemma_decimal_value(s, pos, n / 10);
    }
}

/// Reading back a number that was written: where the digits of `n` stand at `pos`
/// and no digit follows them, the reader finds `n` and stops after them.
pub proof fn lemma_parse_decimal_written(s: Seq<u8>, pos: int, n: nat, max: nat)
    requires
        0 <= pos,
        pos + decimal(n).len() <= s.len(),
        s.subrange(pos, pos + decimal(n).len()) == decimal(n),
        pos + decimal(n).len() == s.len() || !is_digit(s[pos + decimal(n).len()]),
        n <= max,
    ensures
        parse_decimal(s, pos, max) == Some((n, pos + decimal(n).len())),
{
    let d = decimal(n);
    let end = pos + d.len();
    let w = s.subrange(pos, end);
    lemma_decimal_shape(n);
    assert forall|k: int| pos <= k < end implies is_digit(#[trigger] s[k]) by {
        assert(w[k - pos] == s[k]);
    }
    assert(w[0] == s[pos]);
    if n == 0 {
        assert(d.len() == 1);
    } else {
        lemma_digits_end_skips(s, pos, end);
        lemma_decimal_value(s, pos, n);
    }
}

proof fn lemma_digits_spell_decimal(s: Seq<u8>, from: int, to: int)
    requires
        0 <= from < to <= s.len(),
        all_digits(s, from, to),
        s[from] != 0x30,
    ensures
        digits_value(s, from, to) >= 1,
        s.subrange(from, to) == decimal(digits_value(s, from, to)),
    decreases to - from,
{
    let last = (s[to - 1] - 0x30) as nat;
    assert(is_digit(s[to - 1]));
    if to - 1 == from {
        assert(digits_value(s, from, from) == 0);
        assert(s.subrange(from, to) =~= decimal(last));
    } else {
        lemma_digits_spell_decimal(s, from, to - 1);
        let head = digits_value(s, from, to - 1);
        let value = digits_value(s, from, to);
        assert(value == head * 10 + last);
        assert(value / 10 == head);
        assert(value % 10 == last);
        assert(s.subrange(from, to) =~= s.subrange(from, to - 1) + seq![s[to - 1]]);
    }
}

/// A number that the reader takes is one that the writer writes: the bytes read are
/// the digits of the number found, which is at most `max`.
pub proof fn lemma_parse_decimal_canonical(s: Seq<u8>, pos: int, max: nat)
    requires
        parse_decimal(s, pos, max) is Some,
    ensures
        ({
            let (value, end) = parse_decimal(s, pos, max).unwrap();
            pos < end <= s.len() && value <= max && s.subrange(pos, end) == decimal(value)
        }),
{
    let (value, end) = parse_decimal(s, pos, max).unwrap();
    if s[pos] == 0x30 {
        assert(s.subrange(pos, end) =~= decimal(0));
    } else {
        lemma_digits_end_skips(s, pos, pos + 1);
        lemma_digits_spell_decimal(s, pos, end);
    }
}

} // verus!
