//! Small text functions: line counting, decimal digits, URL recognition.
//!
//! All specifications are stated over a string's UTF-8 bytes. The characters
//! these functions inspect (newline, digits, `h`/`t`/`p`) are ASCII, so a
//! byte-level reading agrees with a character-level one on any UTF-8 text.

use vstd::prelude::*;
use vstd::string::StringSliceAdditionalSpecFns;

verus! {

/// ASCII code of the newline character.
pub open spec fn newline_byte() -> u8 {
    10
}

/// How many newline bytes a byte sequence holds.
pub open spec fn spec_newline_count(bytes: Seq<u8>) -> nat
    decreases bytes.len(),
{
    if bytes.len() == 0 {
        0
    } else {
        spec_newline_count(bytes.drop_last()) + if bytes.last() == newline_byte() {
            1nat
        } else {
            0nat
        }
    }
}

/// The number of newline-delimited lines in a text: one per line terminator,
/// plus one for a trailing unterminated line. An empty text has no lines.
pub open spec fn spec_line_count(bytes: Seq<u8>) -> nat {
    spec_newline_count(bytes) + if bytes.len() > 0 && bytes.last() != newline_byte() {
        1nat
    } else {
        0nat
    }
}

pub proof fn lemma_newline_count_le(s: Seq<u8>)
    ensures
        spec_newline_count(s) <= s.len(),
    decreases s.len(),
{
    if s.len() > 0 {
        lemma_newline_count_le(s.drop_last());
    }
}

/// Counts the newline-delimited lines of a text: a line ends at each newline
/// byte, and a final fragment not ended by a newline still counts as a line.
pub fn count_lines(s: &str) -> (n: usize)
    ensures
        n == spec_line_count(s.spec_bytes()),
{
    let bytes = s.as_bytes();
    let mut newlines: usize = 0;
    let mut i: usize = 0;
    while i < bytes.len()
        invariant
            i <= bytes@.len(),
            bytes@ == s.spec_bytes(),
            newlines == spec_newline_count(bytes@.subrange(0, i as int)),
            newlines <= i,
        decreases bytes@.len() - i,
    {
        assert(bytes@.subrange(0, i + 1).drop_last() =~= bytes@.subrange(0, i as int));
        if bytes[i] == 10 {
            newlines = newlines + 1;
        }
        i = i + 1;
    }
    assert(bytes@.subrange(0, bytes@.len() as int) =~= bytes@);
    if bytes.len() > 0 && bytes[bytes.len() - 1] != 10 {
        proof {
            lemma_newline_count_le(bytes@.drop_last());
        }
        newlines + 1
    } else {
        newlines
    }
}

/// Whether a byte is an ASCII decimal digit.
pub open spec fn is_digit_byte(b: u8) -> bool {
    48 <= b <= 57
}

/// Whether a byte sequence is all ASCII decimal digits.
pub open spec fn all_digit_bytes(s: Seq<u8>) -> bool {
    forall|i: int| 0 <= i < s.len() ==> is_digit_byte(#[trigger] s[i])
}

/// The value of a sequence of ASCII decimal digits, most significant first.
pub open spec fn spec_digits_val(s: Seq<u8>) -> nat
    decreases s.len(),
{
    if s.len() == 0 {
        0
    } else {
        spec_digits_val(s.drop_last()) * 10 + (if s.last() >= 48 {
            (s.last() - 48) as nat
        } else {
            0nat
        })
    }
}

/// The canonical decimal rendering of a number as ASCII digit bytes.
pub open spec fn spec_decimal(n: nat) -> Seq<u8>
    decreases n,
{
    if n < 10 {
        seq![(48 + n) as u8]
    } else {
        spec_decimal(n / 10).push((48 + n % 10) as u8)
    }
}

pub proof fn lemma_decimal_digits(n: nat)
    ensures
        spec_decimal(n).len() >= 1,
        all_digit_bytes(spec_decimal(n)),
    decreases n,
{
    if n >= 10 {
        lemma_decimal_digits(n / 10);
        assert forall|i: int| 0 <= i < spec_decimal(n).len() implies is_digit_byte(
            #[trigger] spec_decimal(n)[i],
        ) by {
            if i < spec_decimal(n / 10).len() {
                assert(spec_decimal(n)[i] == spec_decimal(n / 10)[i]);
            }
        }
    }
}

/// Rendering a number in decimal and reading the digits back yields the
/// number: the two spec functions are inverses.
pub proof fn lemma_digits_val_of_decimal(n: nat)
    ensures
        spec_digits_val(spec_decimal(n)) == n,
    decreases n,
{
    if n < 10 {
        let s = spec_decimal(n);
        assert(s.drop_last() =~= Seq::<u8>::empty());
        assert(s.last() == (48 + n) as u8);
        assert((48 + n) as u8 as int == 48 + n);
        assert(spec_digits_val(s) == spec_digits_val(s.drop_last()) * 10 + (s.last() - 48) as nat);
        assert(spec_digits_val(s.drop_last()) == 0);
    } else {
        let s = spec_decimal(n);
        lemma_digits_val_of_decimal(n / 10);
        assert(s.drop_last() =~= spec_decimal(n / 10));
        assert(s.last() == (48 + n % 10) as u8);
        assert((48 + n % 10) as u8 as int == 48 + n % 10);
        assert(spec_digits_val(s) == spec_digits_val(s.drop_last()) * 10 + (s.last() - 48) as nat);
        assert(spec_digits_val(s) == (n / 10) * 10 + n % 10);
        vstd::arithmetic::div_mod::lemma_fundamental_div_mod(n as int, 10);
    }
}

/// Appending a digit multiplies the value: digit sequences only grow in value.
pub proof fn lemma_digits_val_monotone(s: Seq<u8>, i: int)
    requires
        0 <= i <= s.len(),
    ensures
        spec_digits_val(s.subrange(0, i)) <= spec_digits_val(s),
    decreases s.len() - i,
{
    if i < s.len() {
        lemma_digits_val_monotone(s, i + 1);
        assert(s.subrange(0, i + 1).drop_last() =~= s.subrange(0, i));
    } else {
        assert(s.subrange(0, i) =~= s);
    }
}

/// Appends the canonical decimal rendering of `n` to `out`.
pub fn push_decimal(out: &mut Vec<u8>, n: u64)
    ensures
        final(out)@ == old(out)@ + spec_decimal(n as nat),
    decreases n,
{
    if n < 10 {
        out.push(48 + n as u8);
        assert(final(out)@ =~= old(out)@ + spec_decimal(n as nat));
    } else {
        push_decimal(out, n / 10);
        out.push(48 + (n % 10) as u8);
        assert(final(out)@ =~= old(out)@ + spec_decimal(n as nat));
    }
}

/// Reads a non-negative decimal number: `Some` exactly when the bytes are one
/// or more ASCII digits whose value fits in `usize`.
pub fn parse_usize(bytes: &[u8]) -> (r: Option<usize>)
    ensures
        match r {
            Some(v) => bytes@.len() > 0 && all_digit_bytes(bytes@) && v == spec_digits_val(
                bytes@,
            ),
            None => bytes@.len() == 0 || !all_digit_bytes(bytes@) || spec_digits_val(bytes@)
                > usize::MAX,
        },
{
    if bytes.len() == 0 {
        return None;
    }
    let mut acc: usize = 0;
    let mut i: usize = 0;
    while i < bytes.len()
        invariant
            i <= bytes@.len(),
            all_digit_bytes(bytes@.subrange(0, i as int)),
            acc == spec_digits_val(bytes@.subrange(0, i as int)),
        decreases bytes@.len() - i,
    {
        let b = bytes[i];
        if b < 48 || b > 57 {
            return None;
        }
        let d = (b - 48) as usize;
        proof {
            assert(bytes@.subrange(0, i + 1).drop_last() =~= bytes@.subrange(0, i as int));
        }
        if acc > (usize::MAX - d) / 10 {
            proof {
                lemma_digits_val_monotone(bytes@, i + 1);
            }
            return None;
        }
        acc = acc * 10 + d;
        i = i + 1;
    }
    proof {
        assert(bytes@.subrange(0, bytes@.len() as int) =~= bytes@);
    }
    Some(acc)
}

/// The decimal digit character for a value below 10.
pub open spec fn digit_char(d: u8) -> char {
    if d == 0 {
        '0'
    } else if d == 1 {
        '1'
    } else if d == 2 {
        '2'
    } else if d == 3 {
        '3'
    } else if d == 4 {
        '4'
    } else if d == 5 {
        '5'
    } else if d == 6 {
        '6'
    } else if d == 7 {
        '7'
    } else if d == 8 {
        '8'
    } else {
        '9'
    }
}

/// The canonical decimal rendering of a number as text.
pub open spec fn spec_decimal_chars(n: nat) -> Seq<char>
    decreases n,
{
    if n < 10 {
        seq![digit_char(n as u8)]
    } else {
        spec_decimal_chars(n / 10).push(digit_char((n % 10) as u8))
    }
}

fn digit_str(d: u64) -> (r: &'static str)
    requires
        d < 10,
    ensures
        r@ == seq![digit_char(d as u8)],
{
    proof {
        reveal_strlit("0");
        reveal_strlit("1");
        reveal_strlit("2");
        reveal_strlit("3");
        reveal_strlit("4");
        reveal_strlit("5");
        reveal_strlit("6");
        reveal_strlit("7");
        reveal_strlit("8");
        reveal_strlit("9");
    }
    let r = match d {
        0 => "0",
        1 => "1",
        2 => "2",
        3 => "3",
        4 => "4",
        5 => "5",
        6 => "6",
        7 => "7",
        8 => "8",
        _ => "9",
    };
    proof {
        assert(r@ =~= seq![digit_char(d as u8)]);
    }
    r
}

/// Appends the decimal rendering of `n` to a piece of text.
pub fn append_decimal(s: &mut String, n: u64)
    ensures
        final(s)@ == old(s)@ + spec_decimal_chars(n as nat),
    decreases n,
{
    if n < 10 {
        s.append(digit_str(n));
        assert(final(s)@ =~= old(s)@ + spec_decimal_chars(n as nat));
    } else {
        append_decimal(s, n / 10);
        s.append(digit_str(n % 10));
        assert(final(s)@ =~= old(s)@ + spec_decimal_chars(n as nat));
    }
}

/// Whether a text begins with the four ASCII bytes `h`, `t`, `t`, `p`.
pub open spec fn spec_is_http(bytes: Seq<u8>) -> bool {
    bytes.len() >= 4 && bytes[0] == 104 && bytes[1] == 116 && bytes[2] == 116 && bytes[3] == 112
}

/// Whether a candidate work item counts as a URL: any string that starts
/// with `http` does.
pub fn is_http_url(s: &str) -> (r: bool)
    ensures
        r == spec_is_http(s.spec_bytes()),
{
    let bytes = s.as_bytes();
    bytes.len() >= 4 && bytes[0] == 104 && bytes[1] == 116 && bytes[2] == 116 && bytes[3] == 112
}

} // verus!
