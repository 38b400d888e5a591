//! The stored form of a cache record.
//!
//! A record is kept in the store as one JSON object,
//! `{"url":"…","line_count":N,"at":"…"}`: the URL and the timestamp as
//! strings with `"` and `\` escaped by a backslash, the line count as decimal
//! digits. `encode_record` writes that form; `decode_record` reads it back,
//! and refuses anything else. `lemma_decode_encode` proves that decoding an
//! encoded record always restores it.

use vstd::prelude::*;
use vstd::string::StringSliceAdditionalSpecFns;
use vstd::utf8::encode_utf8;
use vstd::utf8::valid_utf8;
use crate::record::DbRecord;
use crate::text::all_digit_bytes;
use crate::text::is_digit_byte;
use crate::text::lemma_decimal_digits;
use crate::text::lemma_digits_val_of_decimal;
use crate::text::parse_usize;
use crate::text::push_decimal;
use crate::text::spec_decimal;
use crate::text::spec_digits_val;

verus! {

/// How one byte of string content is written: `"` (34) and `\` (92) get a
/// backslash before them, every other byte stands as it is.
pub open spec fn esc_byte(b: u8) -> Seq<u8> {
    if b == 34 || b == 92 {
        seq![92u8, b]
    } else {
        seq![b]
    }
}

/// The escaped form of string content.
pub open spec fn esc(s: Seq<u8>) -> Seq<u8>
    decreases s.len(),
{
    if s.len() == 0 {
        Seq::empty()
    } else {
        esc_byte(s[0]) + esc(s.skip(1))
    }
}

pub proof fn lemma_esc_concat(x: Seq<u8>, y: Seq<u8>)
    ensures
        esc(x + y) == esc(x) + esc(y),
    decreases x.len(),
{
    if x.len() == 0 {
        assert(x + y =~= y);
        assert(esc(x) + esc(y) =~= esc(y));
    } else {
        lemma_esc_concat(x.skip(1), y);
        assert((x + y).skip(1) =~= x.skip(1) + y);
        assert((x + y)[0] == x[0]);
        assert(esc(x + y) =~= esc_byte(x[0]) + (esc(x.skip(1)) + esc(y)));
        assert(esc(x) + esc(y) =~= esc_byte(x[0]) + (esc(x.skip(1)) + esc(y)));
    }
}

/// Reads escaped string content up to and over its closing quote: `Some`
/// holds the content and what follows the quote; `None` means the bytes are
/// not a properly closed escaped string.
pub open spec fn spec_unescape(s: Seq<u8>) -> Option<(Seq<u8>, Seq<u8>)>
    decreases s.len(),
{
    if s.len() == 0 {
        None
    } else if s[0] == 34 {
        Some((Seq::empty(), s.skip(1)))
    } else if s[0] == 92 {
        if s.len() >= 2 && (s[1] == 34 || s[1] == 92) {
            match spec_unescape(s.skip(2)) {
                Some((c, r)) => Some((seq![s[1]] + c, r)),
                None => None,
            }
        } else {
            None
        }
    } else {
        match spec_unescape(s.skip(1)) {
            Some((c, r)) => Some((seq![s[0]] + c, r)),
            None => None,
        }
    }
}

/// Reading back what was escaped, with a closing quote after it, yields the
/// original content and leaves exactly what followed the quote.
pub proof fn lemma_unescape_esc(content: Seq<u8>, rest: Seq<u8>)
    ensures
        spec_unescape(esc(content) + seq![34u8] + rest) == Some((content, rest)),
    decreases content.len(),
{
    let s = esc(content) + seq![34u8] + rest;
    if content.len() == 0 {
        assert(s =~= seq![34u8] + rest);
        assert(s[0] == 34);
        assert(s.skip(1) =~= rest);
    } else {
        let c0 = content[0];
        let tail = content.skip(1);
        lemma_unescape_esc(tail, rest);
        let s2 = esc(tail) + seq![34u8] + rest;
        assert(esc(content) == esc_byte(c0) + esc(tail));
        if c0 == 34 || c0 == 92 {
            assert(s[0] == 92);
            assert(s[1] == c0);
            assert(s.len() >= 2);
            assert(s.skip(2) =~= s2);
            assert(seq![c0] + tail =~= content);
        } else {
            assert(s[0] == c0);
            assert(s.skip(1) =~= s2);
            assert(seq![c0] + tail =~= content);
        }
    }
}

/// How many leading bytes of `s` are decimal digits.
pub open spec fn digit_run(s: Seq<u8>) -> nat
    decreases s.len(),
{
    if s.len() == 0 || !is_digit_byte(s[0]) {
        0
    } else {
        1 + digit_run(s.skip(1))
    }
}

pub proof fn lemma_digit_run_concat(d: Seq<u8>, rest: Seq<u8>)
    requires
        all_digit_bytes(d),
        rest.len() == 0 || !is_digit_byte(rest[0]),
    ensures
        digit_run(d + rest) == d.len(),
    decreases d.len(),
{
    if d.len() == 0 {
        assert(d + rest =~= rest);
    } else {
        assert(is_digit_byte(d[0]));
        lemma_digit_run_concat(d.skip(1), rest);
        assert((d + rest).skip(1) =~= d.skip(1) + rest);
        assert((d + rest)[0] == d[0]);
    }
}

/// Reads a leading run of decimal digits: `Some` holds their value and what
/// follows them; `None` means the bytes do not start with a digit.
pub open spec fn spec_parse_number(s: Seq<u8>) -> Option<(nat, Seq<u8>)> {
    let k = digit_run(s);
    if k == 0 {
        None
    } else {
        Some((spec_digits_val(s.subrange(0, k as int)), s.skip(k as int)))
    }
}

/// Reading back a decimal rendering, with a non-digit after it, yields the
/// rendered number and leaves exactly what followed the digits.
pub proof fn lemma_parse_number_decimal(n: nat, rest: Seq<u8>)
    requires
        rest.len() > 0,
        !is_digit_byte(rest[0]),
    ensures
        spec_parse_number(spec_decimal(n) + rest) == Some((n, rest)),
{
    lemma_decimal_digits(n);
    lemma_digit_run_concat(spec_decimal(n), rest);
    let s = spec_decimal(n) + rest;
    let k = spec_decimal(n).len();
    assert(s.subrange(0, k as int) =~= spec_decimal(n));
    assert(s.skip(k as int) =~= rest);
    lemma_digits_val_of_decimal(n);
}

/// The bytes of `{"url":"`.
pub open spec fn json_open() -> Seq<u8> {
    seq![123u8, 34u8, 117u8, 114u8, 108u8, 34u8, 58u8, 34u8]
}

/// The bytes of `","line_count":` as they stand after the URL's closing
/// quote was consumed: `,"line_count":`.
pub open spec fn json_lc() -> Seq<u8> {
    seq![44u8, 34u8, 108u8, 105u8, 110u8, 101u8, 95u8, 99u8, 111u8, 117u8, 110u8, 116u8, 34u8, 58u8]
}

/// The bytes of `,"at":"`.
pub open spec fn json_at() -> Seq<u8> {
    seq![44u8, 34u8, 97u8, 116u8, 34u8, 58u8, 34u8]
}

/// Whether `s` begins with `{"url":"`.
pub open spec fn has_open(s: Seq<u8>) -> bool {
    s.len() >= 8 && s[0] == 123 && s[1] == 34 && s[2] == 117 && s[3] == 114 && s[4] == 108 && s[5]
        == 34 && s[6] == 58 && s[7] == 34
}

/// Whether `s` begins with `,"line_count":`.
pub open spec fn has_lc(s: Seq<u8>) -> bool {
    s.len() >= 14 && s[0] == 44 && s[1] == 34 && s[2] == 108 && s[3] == 105 && s[4] == 110 && s[5]
        == 101 && s[6] == 95 && s[7] == 99 && s[8] == 111 && s[9] == 117 && s[10] == 110 && s[11]
        == 116 && s[12] == 34 && s[13] == 58
}

/// Whether `s` begins with `,"at":"`.
pub open spec fn has_at(s: Seq<u8>) -> bool {
    s.len() >= 7 && s[0] == 44 && s[1] == 34 && s[2] == 97 && s[3] == 116 && s[4] == 34 && s[5]
        == 58 && s[6] == 34
}

/// The stored form of a record with URL bytes `u`, line count `n` and
/// timestamp bytes `a`.
pub open spec fn spec_encode_record(u: Seq<u8>, n: nat, a: Seq<u8>) -> Seq<u8> {
    json_open() + esc(u) + seq![34u8] + json_lc() + spec_decimal(n) + json_at() + esc(a) + seq![
        34u8,
        125u8,
    ]
}

/// What the stored bytes say: `Some` with URL bytes, line count and timestamp
/// bytes when they have exactly the stored form of a record, `None` otherwise.
pub open spec fn spec_decode_record(s: Seq<u8>) -> Option<(Seq<u8>, nat, Seq<u8>)> {
    if !has_open(s) {
        None
    } else {
        match spec_unescape(s.skip(8)) {
            None => None,
            Some((u, r1)) => {
                if !has_lc(r1) {
                    None
                } else {
                    match spec_parse_number(r1.skip(14)) {
                        None => None,
                        Some((n, r2)) => {
                            if !has_at(r2) {
                                None
                            } else {
                                match spec_unescape(r2.skip(7)) {
                                    None => None,
                                    Some((a, r3)) => {
                                        if r3 == seq![125u8] {
                                            Some((u, n, a))
                                        } else {
                                            None
                                        }
                                    },
                                }
                            }
                        },
                    }
                }
            },
        }
    }
}

/// Law: decoding an encoded record restores its fields, for every URL, line
/// count and timestamp. The stored form loses nothing.
pub proof fn lemma_decode_encode(u: Seq<u8>, n: nat, a: Seq<u8>)
    ensures
        spec_decode_record(spec_encode_record(u, n, a)) == Some((u, n, a)),
{
    let s = spec_encode_record(u, n, a);
    let rest2 = json_at() + esc(a) + seq![34u8, 125u8];
    let rest1 = json_lc() + spec_decimal(n) + rest2;
    assert(has_open(s));
    assert(s.skip(8) =~= esc(u) + seq![34u8] + rest1);
    lemma_unescape_esc(u, rest1);
    assert(spec_unescape(s.skip(8)) == Some((u, rest1)));
    assert(has_lc(rest1));
    assert(rest1.skip(14) =~= spec_decimal(n) + rest2);
    assert(!is_digit_byte(rest2[0]));
    lemma_parse_number_decimal(n, rest2);
    assert(spec_parse_number(rest1.skip(14)) == Some((n, rest2)));
    assert(has_at(rest2));
    assert(rest2.skip(7) =~= esc(a) + seq![34u8] + seq![125u8]);
    lemma_unescape_esc(a, seq![125u8]);
    assert(spec_unescape(rest2.skip(7)) == Some((a, seq![125u8])));
}

/// Appends the escaped form of `s` to `out`.
fn escape_into(out: &mut Vec<u8>, s: &[u8])
    ensures
        final(out)@ == old(out)@ + esc(s@),
{
    let mut i: usize = 0;
    while i < s.len()
        invariant
            i <= s@.len(),
            out@ == old(out)@ + esc(s@.subrange(0, i as int)),
        decreases s@.len() - i,
    {
        let b = s[i];
        proof {
            assert(s@.subrange(0, i + 1) =~= s@.subrange(0, i as int) + seq![s@[i as int]]);
            lemma_esc_concat(s@.subrange(0, i as int), seq![s@[i as int]]);
            let single = seq![s@[i as int]];
            assert(single.skip(1) =~= Seq::<u8>::empty());
            assert(esc(single.skip(1)) =~= Seq::<u8>::empty());
            assert(esc(single) =~= esc_byte(s@[i as int]) + esc(single.skip(1)));
            assert(esc(single) =~= esc_byte(s@[i as int]));
        }
        if b == 34 || b == 92 {
            out.push(92);
            out.push(b);
        } else {
            out.push(b);
        }
        proof {
            assert(out@ =~= old(out)@ + esc(s@.subrange(0, i + 1)));
        }
        i = i + 1;
    }
    proof {
        assert(s@.subrange(0, s@.len() as int) =~= s@);
    }
}

/// Writes a record in its stored form.
pub fn encode_record(rec: &DbRecord) -> (out: Vec<u8>)
    ensures
        out@ == spec_encode_record(encode_utf8(rec.url@), rec.line_count as nat, encode_utf8(rec.at@)),
{
    let mut out: Vec<u8> = Vec::new();
    out.push(123);
    out.push(34);
    out.push(117);
    out.push(114);
    out.push(108);
    out.push(34);
    out.push(58);
    out.push(34);
    escape_into(&mut out, rec.url.as_str().as_bytes());
    out.push(34);
    out.push(44);
    out.push(34);
    out.push(108);
    out.push(105);
    out.push(110);
    out.push(101);
    out.push(95);
    out.push(99);
    out.push(111);
    out.push(117);
    out.push(110);
    out.push(116);
    out.push(34);
    out.push(58);
    push_decimal(&mut out, rec.line_count as u64);
    out.push(44);
    out.push(34);
    out.push(97);
    out.push(116);
    out.push(34);
    out.push(58);
    out.push(34);
    escape_into(&mut out, rec.at.as_str().as_bytes());
    out.push(34);
    out.push(125);
    proof {
        assert(out@ =~= spec_encode_record(
            encode_utf8(rec.url@),
            rec.line_count as nat,
            encode_utf8(rec.at@),
        ));
    }
    out
}

/// Relies on std's `String::from_utf8`: it succeeds exactly on valid UTF-8
/// bytes and returns the string those bytes spell.
#[verifier::external_body]
fn string_from_utf8(v: Vec<u8>) -> (r: Option<String>)
    ensures
        match r {
            Some(s) => valid_utf8(v@) && encode_utf8(s@) == v@,
            None => !valid_utf8(v@),
        },
{
    String::from_utf8(v).ok()
}

/// Reads escaped string content starting at `i`, through its closing quote.
fn scan_string(bytes: &[u8], i: usize) -> (r: Option<(Vec<u8>, usize)>)
    requires
        i <= bytes@.len(),
    ensures
        match r {
            Some(p) => i <= p.1 <= bytes@.len() && spec_unescape(bytes@.skip(i as int)) == Some(
                (p.0@, bytes@.skip(p.1 as int)),
            ),
            None => spec_unescape(bytes@.skip(i as int)) is None,
        },
    decreases bytes@.len() - i,
{
    if i >= bytes.len() {
        return None;
    }
    let b = bytes[i];
    if b == 34 {
        proof {
            assert(bytes@.skip(i as int).skip(1) =~= bytes@.skip(i + 1));
        }
        Some((Vec::new(), i + 1))
    } else if b == 92 {
        if bytes.len() - i >= 2 && (bytes[i + 1] == 34 || bytes[i + 1] == 92) {
            proof {
                assert(bytes@.skip(i as int).skip(2) =~= bytes@.skip(i + 2));
            }
            match scan_string(bytes, i + 2) {
                Some((mut c, j)) => {
                    let e = bytes[i + 1];
                    c.insert(0, e);
                    proof {
                        assert(c@ =~= seq![bytes@.skip(i as int)[1]] + c@.skip(1));
                    }
                    Some((c, j))
                },
                None => None,
            }
        } else {
            None
        }
    } else {
        proof {
            assert(bytes@.skip(i as int).skip(1) =~= bytes@.skip(i + 1));
        }
        match scan_string(bytes, i + 1) {
            Some((mut c, j)) => {
                c.insert(0, b);
                proof {
                    assert(c@ =~= seq![bytes@.skip(i as int)[0]] + c@.skip(1));
                }
                Some((c, j))
            },
            None => None,
        }
    }
}

/// Reads a run of decimal digits starting at `i`.
fn scan_number(bytes: &[u8], i: usize) -> (r: Option<(usize, usize)>)
    requires
        i <= bytes@.len(),
    ensures
        match r {
            Some(p) => i <= p.1 <= bytes@.len() && spec_parse_number(bytes@.skip(i as int))
                == Some((p.0 as nat, bytes@.skip(p.1 as int))),
            None => match spec_parse_number(bytes@.skip(i as int)) {
                None => true,
                Some(q) => q.0 > usize::MAX,
            },
        },
{
    let mut j: usize = i;
    while j < bytes.len() && 48 <= bytes[j] && bytes[j] <= 57
        invariant
            i <= j <= bytes@.len(),
            forall|k: int| i <= k < j ==> is_digit_byte(#[trigger] bytes@[k]),
        decreases bytes@.len() - j,
    {
        j = j + 1;
    }
    let ghost s = bytes@.skip(i as int);
    proof {
        let d = bytes@.subrange(i as int, j as int);
        let rest = bytes@.skip(j as int);
        assert(all_digit_bytes(d));
        assert(rest.len() == 0 || !is_digit_byte(rest[0]));
        lemma_digit_run_concat(d, rest);
        assert(s =~= d + rest);
        assert(digit_run(s) == j - i);
    }
    if j == i {
        return None;
    }
    let digits = vstd::slice::slice_subrange(bytes, i, j);
    proof {
        assert(digits@ =~= s.subrange(0, digit_run(s) as int));
    }
    match parse_usize(digits) {
        Some(v) => Some((v, j)),
        None => None,
    }
}

/// Reads a record back from its stored form. Returns `Some` exactly when the
/// bytes are the stored form of a record whose line count fits in `usize` and
/// whose two strings are valid UTF-8, and then restores that record.
pub fn decode_record(bytes: &[u8]) -> (r: Option<DbRecord>)
    ensures
        match r {
            Some(rec) => spec_decode_record(bytes@) == Some(
                (encode_utf8(rec.url@), rec.line_count as nat, encode_utf8(rec.at@)),
            ),
            None => match spec_decode_record(bytes@) {
                None => true,
                Some(t) => t.1 > usize::MAX || !valid_utf8(t.0) || !valid_utf8(t.2),
            },
        },
{
    if bytes.len() < 8 {
        return None;
    }
    if !(bytes[0] == 123 && bytes[1] == 34 && bytes[2] == 117 && bytes[3] == 114 && bytes[4] == 108
        && bytes[5] == 34 && bytes[6] == 58 && bytes[7] == 34) {
        return None;
    }
    let scanned_url = scan_string(bytes, 8);
    if scanned_url.is_none() {
        return None;
    }
    let (url_bytes, i1) = scanned_url.unwrap();
    if bytes.len() - i1 < 14 {
        return None;
    }
    if !(bytes[i1] == 44 && bytes[i1 + 1] == 34 && bytes[i1 + 2] == 108 && bytes[i1 + 3] == 105
        && bytes[i1 + 4] == 110 && bytes[i1 + 5] == 101 && bytes[i1 + 6] == 95 && bytes[i1 + 7]
        == 99 && bytes[i1 + 8] == 111 && bytes[i1 + 9] == 117 && bytes[i1 + 10] == 110 && bytes[i1
        + 11] == 116 && bytes[i1 + 12] == 34 && bytes[i1 + 13] == 58) {
        return None;
    }
    proof {
        assert(bytes@.skip(i1 as int).skip(14) =~= bytes@.skip(i1 + 14));
    }
    let scanned_n = scan_number(bytes, i1 + 14);
    if scanned_n.is_none() {
        return None;
    }
    let (n, i2) = scanned_n.unwrap();
    if bytes.len() - i2 < 7 {
        return None;
    }
    if !(bytes[i2] == 44 && bytes[i2 + 1] == 34 && bytes[i2 + 2] == 97 && bytes[i2 + 3] == 116
        && bytes[i2 + 4] == 34 && bytes[i2 + 5] == 58 && bytes[i2 + 6] == 34) {
        return None;
    }
    proof {
        assert(bytes@.skip(i2 as int).skip(7) =~= bytes@.skip(i2 + 7));
    }
    let scanned_at = scan_string(bytes, i2 + 7);
    if scanned_at.is_none() {
        return None;
    }
    let (at_bytes, i3) = scanned_at.unwrap();
    if bytes.len() - i3 != 1 || bytes[i3] != 125 {
        proof {
            if bytes@.skip(i3 as int) == seq![125u8] {
                assert(bytes@.skip(i3 as int).len() == 1);
                assert(bytes@.skip(i3 as int)[0] == 125);
                assert(false);
            }
        }
        return None;
    }
    proof {
        assert(bytes@.skip(i3 as int) =~= seq![125u8]);
    }
    let url = string_from_utf8(url_bytes);
    if url.is_none() {
        return None;
    }
    let at = string_from_utf8(at_bytes);
    if at.is_none() {
        return None;
    }
    Some(DbRecord { url: url.unwrap(), line_count: n, at: at.unwrap() })
}

} // verus!
