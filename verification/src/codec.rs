//! The stored form of a document: a JSON object that holds the validators, the time
//! of the fetch and, as they are, the bytes of the body.
//!
//! ```text
//! {"etag":E,"date":D,"time":{"secs_since_epoch":S,"nanos_since_epoch":N},"body":B}
//! ```
//!
//! `E` and `D` are JSON strings or `null`, `S` and `N` decimal numbers, `B` the body.
//! There is one stored form of each document, and the reader takes no other.

use crate::http::{opt_text, Doc, DocView};
use crate::json::{
    decimal, lemma_parse_decimal_canonical, lemma_parse_decimal_written,
    lemma_parse_quoted_canonical, lemma_parse_quoted_written, parse_decimal, parse_quoted,
    quoted, read_decimal, read_quoted, write_decimal, write_quoted,
};
use crate::time::Timestamp;
use vstd::prelude::*;
use vstd::utf8::{
    decode_utf8, decode_utf8_encode_utf8, encode_utf8, encode_utf8_decode_utf8,
    encode_utf8_valid_utf8, valid_utf8,
};

verus! {

/// `{"etag":`
pub const ETAG: [u8; 8] = [0x7B, 0x22, 0x65, 0x74, 0x61, 0x67, 0x22, 0x3A];

/// `,"date":`
pub const DATE: [u8; 8] = [0x2C, 0x22, 0x64, 0x61, 0x74, 0x65, 0x22, 0x3A];

/// `,"time":{"secs_since_epoch":`
pub const SECS: [u8; 28] = [0x2C, 0x22, 0x74, 0x69, 0x6D, 0x65, 0x22, 0x3A, 0x7B, 0x22, 0x73, 0x65, 0x63, 0x73, 0x5F, 0x73, 0x69, 0x6E, 0x63, 0x65, 0x5F, 0x65, 0x70, 0x6F, 0x63, 0x68, 0x22, 0x3A];

/// `,"nanos_since_epoch":`
pub const NANOS: [u8; 21] = [0x2C, 0x22, 0x6E, 0x61, 0x6E, 0x6F, 0x73, 0x5F, 0x73, 0x69, 0x6E, 0x63, 0x65, 0x5F, 0x65, 0x70, 0x6F, 0x63, 0x68, 0x22, 0x3A];

/// `},"body":`
pub const BODY: [u8; 9] = [0x7D, 0x2C, 0x22, 0x62, 0x6F, 0x64, 0x79, 0x22, 0x3A];

/// `null`
pub const NULL: [u8; 4] = [0x6E, 0x75, 0x6C, 0x6C];

/// The closing brace.
pub const CLOSE: u8 = 0x7D;

/// How an optional text is stored: as `null`, or as a JSON string of its UTF-8 bytes.
pub open spec fn stored_text(text: Option<Seq<char>>) -> Seq<u8> {
    match text {
        Some(t) => quoted(encode_utf8(t)),
        None => NULL@,
    }
}

/// The stored form of a document.
pub open spec fn encode_doc(doc: DocView<Seq<u8>>) -> Seq<u8> {
    ETAG@ + stored_text(doc.etag) + DATE@ + stored_text(doc.date) + SECS@ + decimal(
        doc.time.secs as nat,
    ) + NANOS@ + decimal(doc.time.nanos as nat) + BODY@ + doc.body + seq![CLOSE]
}

/// Whether `lit` stands at `pos` in `s`.
pub open spec fn has_at(s: Seq<u8>, pos: int, lit: Seq<u8>) -> bool {
    0 <= pos && pos + lit.len() <= s.len() && s.subrange(pos, pos + lit.len()) == lit
}

/// The optional text stored at `pos`, and the position after it.
pub open spec fn parse_text(s: Seq<u8>, pos: int) -> Option<(Option<Seq<char>>, int)> {
    if has_at(s, pos, NULL@) {
        Some((None, pos + 4))
    } else {
        match parse_quoted(s, pos) {
            Some((bytes, end)) => if valid_utf8(bytes) {
                Some((Some(decode_utf8(bytes)), end))
            } else {
                None
            },
            None => None,
        }
    }
}

spec fn parse_body(s: Seq<u8>, pos: int) -> Option<Seq<u8>> {
    if has_at(s, pos, BODY@) && pos + 9 < s.len() && s[s.len() - 1] == CLOSE {
        Some(s.subrange(pos + 9, s.len() - 1))
    } else {
        None
    }
}

spec fn parse_time(s: Seq<u8>, pos: int) -> Option<(Timestamp, int)> {
    if has_at(s, pos, SECS@) {
        match parse_decimal(s, pos + 28, u64::MAX as nat) {
            Some((secs, mid)) => if has_at(s, mid, NANOS@) {
                match parse_decimal(s, mid + 21, u32::MAX as nat) {
                    Some((nanos, end)) => Some(
                        (Timestamp { secs: secs as u64, nanos: nanos as u32 }, end),
                    ),
                    None => None,
                }
            } else {
                None
            },
            None => None,
        }
    } else {
        None
    }
}

spec fn parse_validators(s: Seq<u8>) -> Option<(Option<Seq<char>>, Option<Seq<char>>, int)> {
    if has_at(s, 0, ETAG@) {
        match parse_text(s, 8) {
            Some((etag, mid)) => if has_at(s, mid, DATE@) {
                match parse_text(s, mid + 8) {
                    Some((date, end)) => Some((etag, date, end)),
                    None => None,
                }
            } else {
                None
            },
            None => None,
        }
    } else {
        None
    }
}

/// The document of which `s` is the stored form; `None` where `s` is the stored form
/// of no document.
pub closed spec fn decode_doc(s: Seq<u8>) -> Option<DocView<Seq<u8>>> {
    match parse_validators(s) {
        Some((etag, date, p)) => match parse_time(s, p) {
            Some((time, q)) => match parse_body(s, q) {
                Some(body) => Some(DocView { etag, date, time, body }),
                None => None,
            },
            None => None,
        },
        None => None,
    }
}

fn append(out: &mut Vec<u8>, bytes: &[u8])
    ensures
        final(out)@ == old(out)@ + bytes@,
{
    let mut i: usize = 0;
    while i < bytes.len()
        invariant
            i <= bytes.len(),
            out@ == old(out)@ + bytes@.take(i as int),
        decreases bytes.len() - i,
    {
        out.push(bytes[i]);
        assert(bytes@.take(i as int + 1) =~= bytes@.take(i as int).push(bytes@[i as int]));
        i += 1;
    }
    assert(bytes@.take(bytes.len() as int) =~= bytes@);
}

fn starts_at(s: &[u8], pos: usize, lit: &[u8]) -> (yes: bool)
    ensures
        yes == has_at(s@, pos as int, lit@),
        yes ==> pos + lit@.len() <= usize::MAX,
{
    if pos > s.len() || s.len() - pos < lit.len() {
        return false;
    }
    let mut i: usize = 0;
    while i < lit.len()
        invariant
            i <= lit.len(),
            pos + lit.len() <= s.len(),
            forall|k: int| 0 <= k < i ==> s@[pos + k] == lit@[k],
        decreases lit.len() - i,
    {
        if s[pos + i] != lit[i] {
            assert(s@.subrange(pos as int, pos + lit.len())[i as int] != lit@[i as int]);
            return false;
        }
        i += 1;
    }
    assert(s@.subrange(pos as int, pos + lit.len()) =~= lit@);
    true
}

fn write_text(out: &mut Vec<u8>, text: &Option<String>)
    ensures
        final(out)@ == old(out)@ + stored_text(opt_text(*text)),
{
    match text {
        Some(t) => write_quoted(out, t.as_str().as_bytes()),
        None => append(out, NULL.as_slice()),
    }
}

/// The stored form of `doc`.
pub fn encode(doc: &Doc<Vec<u8>>) -> (bytes: Vec<u8>)
    ensures
        bytes@ == encode_doc(doc@),
{
    let mut out: Vec<u8> = Vec::new();
    append(&mut out, ETAG.as_slice());
    write_text(&mut out, &doc.etag);
    append(&mut out, DATE.as_slice());
    write_text(&mut out, &doc.date);
    append(&mut out, SECS.as_slice());
    write_decimal(&mut out, doc.time.secs);
    append(&mut out, NANOS.as_slice());
    write_decimal(&mut out, doc.time.nanos as u64);
    append(&mut out, BODY.as_slice());
    append(&mut out, doc.body.as_slice());
    out.push(CLOSE);
    assert(out@ =~= encode_doc(doc@));
    out
}

/// `String::from_utf8`: the string whose UTF-8 encoding is `bytes`, and `None` exactly
/// where `bytes` is not valid UTF-8.
#[verifier::external_body]
fn string_from_utf8(bytes: Vec<u8>) -> (text: Option<String>)
    ensures
        text.is_some() == valid_utf8(bytes@),
        text matches Some(t) ==> encode_utf8(t@) == bytes@,
{
    String::from_utf8(bytes).ok()
}

fn copy_range(s: &[u8], from: usize, to: usize) -> (copy: Vec<u8>)
    requires
        from <= to <= s.len(),
    ensures
        copy@ == s@.subrange(from as int, to as int),
{
    let mut copy: Vec<u8> = Vec::new();
    let mut i: usize = from;
    while i < to
        invariant
            from <= i <= to <= s.len(),
            copy@ == s@.subrange(from as int, i as int),
        decreases to - i,
    {
        copy.push(s[i]);
        assert(s@.subrange(from as int, i as int + 1) =~= s@.subrange(from as int, i as int).push(
            s@[i as int],
        ));
        i += 1;
    }
    copy
}

fn read_text(s: &[u8], pos: usize) -> (r: Option<(Option<String>, usize)>)
    ensures
        match r {
            Some((text, end)) => parse_text(s@, pos as int) == Some((opt_text(text), end as int)),
            None => parse_text(s@, pos as int) is None,
        },
{
    if starts_at(s, pos, NULL.as_slice()) {
        return Some((None, pos + 4));
    }
    match read_quoted(s, pos) {
        Some((bytes, end)) => match string_from_utf8(bytes) {
            Some(t) => {
                proof {
                    encode_utf8_decode_utf8(t@);
                }
                Some((Some(t), end))
            },
            None => None,
        },
        None => None,
    }
}

fn read_time(s: &[u8], pos: usize) -> (r: Option<(Timestamp, usize)>)
    ensures
        match r {
            Some((time, end)) => parse_time(s@, pos as int) == Some((time, end as int)),
            None => parse_time(s@, pos as int) is None,
        },
{
    if !starts_at(s, pos, SECS.as_slice()) {
        return None;
    }
    match read_decimal(s, pos + 28, u64::MAX) {
        Some((secs, mid)) => {
            if !starts_at(s, mid, NANOS.as_slice()) {
                return None;
            }
            match read_decimal(s, mid + 21, 0xFFFF_FFFF) {
                Some((nanos, end)) => Some((Timestamp { secs, nanos: nanos as u32 }, end)),
                None => None,
            }
        },
        None => None,
    }
}

/// The document of which `s` is the stored form; `None` where `s` is the stored form
/// of no document.
pub fn decode(s: &[u8]) -> (doc: Option<Doc<Vec<u8>>>)
    ensures
        match doc {
            Some(d) => decode_doc(s@) == Some(d@) && s@ == encode_doc(d@),
            None => decode_doc(s@) is None && forall|any: DocView<Seq<u8>>|
                #[trigger] encode_doc(any) != s@,
        },
{
    proof {
        if decode_doc(s@) is Some {
            lemma_decode_canonical(s@);
        } else {
            assert forall|any: DocView<Seq<u8>>| #[trigger] encode_doc(any) != s@ by {
                lemma_decode_encode(any);
            }
        }
    }
    if !starts_at(s, 0, ETAG.as_slice()) {
        return None;
    }
    let (etag, mid) = match read_text(s, 8) {
        Some(found) => found,
        None => {
            return None;
        },
    };
    if !starts_at(s, mid, DATE.as_slice()) {
        return None;
    }
    let (date, after) = match read_text(s, mid + 8) {
        Some(found) => found,
        None => {
            return None;
        },
    };
    let (time, start) = match read_time(s, after) {
        Some(found) => found,
        None => {
            return None;
        },
    };
    if !starts_at(s, start, BODY.as_slice()) || s.len() - start <= 9 || s[s.len() - 1] != CLOSE {
        return None;
    }
    let body = copy_range(s, start + 9, s.len() - 1);
    Some(Doc::at(body, etag, date, time))
}

proof fn lemma_parse_text_written(s: Seq<u8>, pos: int, text: Option<Seq<char>>)
    requires
        has_at(s, pos, stored_text(text)),
    ensures
        parse_text(s, pos) == Some((text, pos + stored_text(text).len())),
{
    let w = s.subrange(pos, pos + stored_text(text).len());
    match text {
        Some(t) => {
            let bytes = encode_utf8(t);
            assert(w[0] == s[pos]);
            assert(!has_at(s, pos, NULL@)) by {
                if has_at(s, pos, NULL@) {
                    assert(s.subrange(pos, pos + 4)[0] == s[pos]);
                }
            }
            lemma_parse_quoted_written(s, pos, bytes);
            encode_utf8_valid_utf8(t);
            encode_utf8_decode_utf8(t);
        },
        None => {},
    }
}

proof fn lemma_parse_text_canonical(s: Seq<u8>, pos: int)
    requires
        parse_text(s, pos) is Some,
    ensures
        ({
            let (text, end) = parse_text(s, pos).unwrap();
            pos < end <= s.len() && s.subrange(pos, end) == stored_text(text)
        }),
{
    if !has_at(s, pos, NULL@) {
        let (bytes, end) = parse_quoted(s, pos).unwrap();
        lemma_parse_quoted_canonical(s, pos);
        decode_utf8_encode_utf8(bytes);
    }
}

/// The stored form of the time of a document, without the braces around it.
spec fn stored_time(time: Timestamp) -> Seq<u8> {
    SECS@ + decimal(time.secs as nat) + NANOS@ + decimal(time.nanos as nat)
}

#[verifier::rlimit(50)]
proof fn lemma_parse_time_written(s: Seq<u8>, pos: int, time: Timestamp)
    requires
        has_at(s, pos, stored_time(time)),
        pos + stored_time(time).len() < s.len(),
        s[pos + stored_time(time).len()] == CLOSE,
    ensures
        parse_time(s, pos) == Some((time, pos + stored_time(time).len())),
{
    let secs = decimal(time.secs as nat);
    let nanos = decimal(time.nanos as nat);
    let t = stored_time(time);
    let w = s.subrange(pos, pos + t.len());
    let a = 28 + secs.len() as int;
    let b = a + 21;
    let c = b + nanos.len() as int;
    assert(s.subrange(pos, pos + 28) =~= w.subrange(0, 28));
    assert(w.subrange(0, 28) =~= SECS@);
    assert(s.subrange(pos + 28, pos + a) =~= w.subrange(28, a));
    assert(w.subrange(28, a) =~= secs);
    assert(s.subrange(pos + a, pos + b) =~= w.subrange(a, b));
    assert(w.subrange(a, b) =~= NANOS@);
    assert(s[pos + a] == s.subrange(pos + a, pos + b)[0]);
    lemma_parse_decimal_written(s, pos + 28, time.secs as nat, u64::MAX as nat);
    assert(s.subrange(pos + b, pos + c) =~= w.subrange(b, c));
    assert(w.subrange(b, c) =~= nanos);
    lemma_parse_decimal_written(s, pos + b, time.nanos as nat, u32::MAX as nat);
}

#[verifier::rlimit(50)]
proof fn lemma_parse_time_canonical(s: Seq<u8>, pos: int)
    requires
        parse_time(s, pos) is Some,
    ensures
        ({
            let (time, end) = parse_time(s, pos).unwrap();
            pos < end <= s.len() && s.subrange(pos, end) == stored_time(time)
        }),
{
    let (time, end) = parse_time(s, pos).unwrap();
    lemma_parse_decimal_canonical(s, pos + 28, u64::MAX as nat);
    let (secs, mid) = parse_decimal(s, pos + 28, u64::MAX as nat).unwrap();
    lemma_parse_decimal_canonical(s, mid + 21, u32::MAX as nat);
    assert(s.subrange(pos, end) =~= s.subrange(pos, pos + 28) + s.subrange(pos + 28, mid)
        + s.subrange(mid, mid + 21) + s.subrange(mid + 21, end));
}

proof fn lemma_has_at_split(s: Seq<u8>, pos: int, front: Seq<u8>, back: Seq<u8>)
    requires
        has_at(s, pos, front + back),
    ensures
        has_at(s, pos, front),
        has_at(s, pos + front.len(), back),
{
    let w = s.subrange(pos, pos + (front + back).len());
    assert(s.subrange(pos, pos + front.len()) =~= w.subrange(0, front.len() as int));
    assert(w.subrange(0, front.len() as int) =~= front);
    assert(s.subrange(pos + front.len(), pos + front.len() + back.len()) =~= w.subrange(
        front.len() as int,
        w.len() as int,
    ));
    assert(w.subrange(front.len() as int, w.len() as int) =~= back);
}

proof fn lemma_join(s: Seq<u8>, from: int, mid: int, to: int)
    requires
        0 <= from <= mid <= to <= s.len(),
    ensures
        s.subrange(from, mid) + s.subrange(mid, to) == s.subrange(from, to),
{
    assert(s.subrange(from, mid) + s.subrange(mid, to) =~= s.subrange(from, to));
}

#[verifier::rlimit(50)]
proof fn lemma_pieces_of_encode(doc: DocView<Seq<u8>>)
    ensures
        ({
            let s = encode_doc(doc);
            let at_date = 8 + stored_text(doc.etag).len() as int;
            let at_time = at_date + 8 + stored_text(doc.date).len() as int;
            let at_body = at_time + stored_time(doc.time).len() as int;
            let at_close = at_body + 9 + doc.body.len() as int;
            &&& s.len() == at_close + 1
            &&& has_at(s, 0, ETAG@)
            &&& has_at(s, 8, stored_text(doc.etag))
            &&& has_at(s, at_date, DATE@)
            &&& has_at(s, at_date + 8, stored_text(doc.date))
            &&& has_at(s, at_time, stored_time(doc.time))
            &&& has_at(s, at_body, BODY@)
            &&& has_at(s, at_body + 9, doc.body)
            &&& has_at(s, at_close, seq![CLOSE])
        }),
{
    let s = encode_doc(doc);
    let etag = stored_text(doc.etag);
    let date = stored_text(doc.date);
    let time = stored_time(doc.time);
    let x1 = ETAG@ + etag;
    let x2 = x1 + DATE@;
    let x3 = x2 + date;
    let x4 = x3 + time;
    let x5 = x4 + BODY@;
    let x6 = x5 + doc.body;
    assert(s =~= x6 + seq![CLOSE]);
    assert(s.subrange(0, s.len() as int) =~= s);
    lemma_has_at_split(s, 0, x6, seq![CLOSE]);
    lemma_has_at_split(s, 0, x5, doc.body);
    lemma_has_at_split(s, 0, x4, BODY@);
    lemma_has_at_split(s, 0, x3, time);
    lemma_has_at_split(s, 0, x2, date);
    lemma_has_at_split(s, 0, x1, DATE@);
    lemma_has_at_split(s, 0, ETAG@, etag);
}

proof fn lemma_validators_written(
    s: Seq<u8>,
    etag: Option<Seq<char>>,
    date: Option<Seq<char>>,
)
    requires
        has_at(s, 0, ETAG@),
        has_at(s, 8, stored_text(etag)),
        has_at(s, 8 + stored_text(etag).len() as int, DATE@),
        has_at(s, 16 + stored_text(etag).len() as int, stored_text(date)),
    ensures
        parse_validators(s) == Some(
            (etag, date, 16 + stored_text(etag).len() as int + stored_text(date).len() as int),
        ),
{
    lemma_parse_text_written(s, 8, etag);
    lemma_parse_text_written(s, 16 + stored_text(etag).len() as int, date);
}

proof fn lemma_body_written(s: Seq<u8>, pos: int, body: Seq<u8>)
    requires
        has_at(s, pos, BODY@),
        has_at(s, pos + 9, body),
        has_at(s, pos + 9 + body.len(), seq![CLOSE]),
        s.len() == pos + 9 + body.len() + 1,
    ensures
        parse_body(s, pos) == Some(body),
        s[pos] == CLOSE,
{
    let end = pos + 9 + body.len();
    assert(s[end] == s.subrange(end, end + 1)[0]);
    assert(s[pos] == s.subrange(pos, pos + 9)[0]);
}

/// Reading back what was stored gives the document that was stored: its validators,
/// its time and its body, each as it was.
#[verifier::rlimit(50)]
pub proof fn lemma_decode_encode(doc: DocView<Seq<u8>>)
    ensures
        decode_doc(encode_doc(doc)) == Some(doc),
{
    let s = encode_doc(doc);
    let at_time = 16 + stored_text(doc.etag).len() + stored_text(doc.date).len();
    let at_body = at_time + stored_time(doc.time).len();
    lemma_pieces_of_encode(doc);
    lemma_validators_written(s, doc.etag, doc.date);
    lemma_body_written(s, at_body as int, doc.body);
    lemma_parse_time_written(s, at_time as int, doc.time);
}

/// What the reader takes is a stored form: where it finds a document in `s`, `s` is
/// the stored form of that document, byte for byte.
#[verifier::rlimit(50)]
pub proof fn lemma_decode_canonical(s: Seq<u8>)
    requires
        decode_doc(s) is Some,
    ensures
        encode_doc(decode_doc(s).unwrap()) == s,
{
    let doc = decode_doc(s).unwrap();
    let (etag, date, at_time) = parse_validators(s).unwrap();
    let (_, at_date) = parse_text(s, 8).unwrap();
    lemma_parse_text_canonical(s, 8);
    lemma_parse_text_canonical(s, at_date + 8);
    lemma_parse_time_canonical(s, at_time);
    let (time, at_body) = parse_time(s, at_time).unwrap();
    let n = s.len() as int;
    lemma_join(s, 0, 8, at_date);
    lemma_join(s, 0, at_date, at_date + 8);
    lemma_join(s, 0, at_date + 8, at_time);
    assert(s.subrange(0, at_time) == ETAG@ + stored_text(doc.etag) + DATE@ + stored_text(doc.date));
    let secs = decimal(doc.time.secs as nat);
    let nanos = decimal(doc.time.nanos as nat);
    let head = s.subrange(0, at_time);
    assert(head + stored_time(doc.time) =~= head + SECS@ + secs + NANOS@ + nanos);
    lemma_join(s, 0, at_time, at_body);
    lemma_join(s, 0, at_body, at_body + 9);
    lemma_join(s, 0, at_body + 9, n - 1);
    assert(s.subrange(n - 1, n) =~= seq![CLOSE]);
    lemma_join(s, 0, n - 1, n);
    assert(s.subrange(0, n) =~= s);
}

/// The reader is the inverse of the writer: `s` reads as `doc` exactly where `s` is
/// the stored form of `doc`.
pub proof fn theorem_decode_inverts_encode(s: Seq<u8>, doc: DocView<Seq<u8>>)
    ensures
        decode_doc(s) == Some(doc) <==> s == encode_doc(doc),
{
    lemma_decode_encode(doc);
    if decode_doc(s) is Some {
        lemma_decode_canonical(s);
    }
}

} // verus!
