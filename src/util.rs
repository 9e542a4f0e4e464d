pub mod io;

use vstd::prelude::*;
use crate::timestamp::{ascii_chars, ascii_string, is_ascii_bytes, parse_with_pattern, parsed_as, DateTimeUtc};

verus! {

/// The reading of the first pattern that accepts the whole of `s`: EXIF
/// style, slash and dash delimited, ISO 8601 with a zone, and `ctime` style.
pub open spec fn first_reading(s: Seq<char>) -> Option<DateTimeUtc> {
    if parsed_as(s, "%Y:%m:%d %H:%M:%S"@) is Some {
        parsed_as(s, "%Y:%m:%d %H:%M:%S"@)
    } else if parsed_as(s, "%Y/%m/%d %H:%M:%S"@) is Some {
        parsed_as(s, "%Y/%m/%d %H:%M:%S"@)
    } else if parsed_as(s, "%Y-%m-%d %H:%M:%S"@) is Some {
        parsed_as(s, "%Y-%m-%d %H:%M:%S"@)
    } else if parsed_as(s, "%Y-%m-%dT%H:%M:%S%z"@) is Some {
        parsed_as(s, "%Y-%m-%dT%H:%M:%S%z"@)
    } else {
        parsed_as(s, "%a %b %d %H:%M:%S %Y"@)
    }
}

/// Placeholders that cameras write where no date is known.
pub open spec fn is_placeholder(s: Seq<char>) -> bool {
    s.len() == 0 || s == "0000:00:00 00:00:00"@ || s == ":  :     :  :  "@
}

/// The instant a date string gives: none for a placeholder, else the reading
/// of the first pattern that accepts the whole string.
pub open spec fn date_of_text(s: Seq<char>) -> Option<DateTimeUtc> {
    if is_placeholder(s) {
        None
    } else {
        first_reading(s)
    }
}

pub fn parse_datetime(input: &str) -> (r: Option<DateTimeUtc>)
    ensures
        r == date_of_text(input@),
{
    let owned = input.to_owned();
    if input.is_empty() || owned == String::from_str("0000:00:00 00:00:00") || owned
        == String::from_str(":  :     :  :  ") {
        return None;
    }
    let r0 = parse_with_pattern(input, "%Y:%m:%d %H:%M:%S");
    if r0.is_some() {
        return r0;
    }
    let r1 = parse_with_pattern(input, "%Y/%m/%d %H:%M:%S");
    if r1.is_some() {
        return r1;
    }
    let r2 = parse_with_pattern(input, "%Y-%m-%d %H:%M:%S");
    if r2.is_some() {
        return r2;
    }
    let r3 = parse_with_pattern(input, "%Y-%m-%dT%H:%M:%S%z");
    if r3.is_some() {
        return r3;
    }
    let r4 = parse_with_pattern(input, "%a %b %d %H:%M:%S %Y");
    r4
}

/// The bytes trimmed away around a date string: ASCII white space in a first
/// pass, NUL, CR and LF in a second.
pub open spec fn trimmed_class(c: u8, second_pass: bool) -> bool {
    if second_pass {
        c == 0 || c == 10 || c == 13
    } else {
        c == 32 || (9 <= c <= 13)
    }
}

pub open spec fn strip_front(s: Seq<u8>, second_pass: bool) -> Seq<u8>
    decreases s.len(),
{
    if s.len() > 0 && trimmed_class(s[0], second_pass) {
        strip_front(s.drop_first(), second_pass)
    } else {
        s
    }
}

pub open spec fn strip_back(s: Seq<u8>, second_pass: bool) -> Seq<u8>
    decreases s.len(),
{
    if s.len() > 0 && trimmed_class(s.last(), second_pass) {
        strip_back(s.drop_last(), second_pass)
    } else {
        s
    }
}

/// A date string's bytes with the padding around them removed.
pub open spec fn trimmed_date(b: Seq<u8>) -> Seq<u8> {
    let once = strip_back(strip_front(b, false), false);
    strip_back(strip_front(once, true), true)
}

fn is_trimmed(c: u8, second_pass: bool) -> (r: bool)
    ensures
        r == trimmed_class(c, second_pass),
{
    if second_pass {
        c == 0 || c == 10 || c == 13
    } else {
        c == 32 || (9 <= c && c <= 13)
    }
}

fn trim_pass(b: &Vec<u8>, second_pass: bool) -> (r: Vec<u8>)
    ensures
        r@ == strip_back(strip_front(b@, second_pass), second_pass),
{
    let n = b.len();
    let mut i: usize = 0;
    assert(b@.subrange(0, n as int) =~= b@);
    while i < n && is_trimmed(b[i], second_pass)
        invariant
            n == b@.len(),
            i <= n,
            strip_front(b@.subrange(i as int, n as int), second_pass) == strip_front(b@, second_pass),
        decreases n - i,
    {
        assert(b@.subrange(i as int, n as int).drop_first() =~= b@.subrange(i + 1, n as int));
        i = i + 1;
    }
    assert(strip_front(b@.subrange(i as int, n as int), second_pass) == b@.subrange(i as int, n as int));
    let mut j: usize = n;
    while j > i && is_trimmed(b[j - 1], second_pass)
        invariant
            n == b@.len(),
            i <= j <= n,
            strip_back(b@.subrange(i as int, j as int), second_pass) == strip_back(
                strip_front(b@, second_pass),
                second_pass,
            ),
        decreases j - i,
    {
        assert(b@.subrange(i as int, j as int).drop_last() =~= b@.subrange(i as int, j - 1));
        j = j - 1;
    }
    let mut out: Vec<u8> = Vec::new();
    let mut k: usize = i;
    while k < j
        invariant
            n == b@.len(),
            i <= k <= j <= n,
            out@ == b@.subrange(i as int, k as int),
        decreases j - k,
    {
        out.push(b[k]);
        k = k + 1;
        assert(out@ =~= b@.subrange(i as int, k as int));
    }
    out
}

fn all_ascii(b: &Vec<u8>) -> (r: bool)
    ensures
        r == is_ascii_bytes(b@),
{
    let mut i: usize = 0;
    while i < b.len()
        invariant
            i <= b@.len(),
            forall|k: int| 0 <= k < i ==> #[trigger] b@[k] < 128,
        decreases b@.len() - i,
    {
        if b[i] >= 128 {
            return false;
        }
        i = i + 1;
    }
    true
}

/// The instant that date bytes found in a file give: trimmed, and read only
/// if they are ASCII.
pub open spec fn date_of_bytes(b: Seq<u8>) -> Option<DateTimeUtc> {
    let t = trimmed_date(b);
    if is_ascii_bytes(t) {
        date_of_text(ascii_chars(t))
    } else {
        None
    }
}

pub fn parse_date_bytes(b: &Vec<u8>) -> (r: Option<DateTimeUtc>)
    ensures
        r == date_of_bytes(b@),
{
    let once = trim_pass(b, false);
    let t = trim_pass(&once, true);
    if !all_ascii(&t) {
        return None;
    }
    let s = ascii_string(t);
    parse_datetime(s.as_str())
}

} // verus!
