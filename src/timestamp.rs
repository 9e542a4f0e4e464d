use vstd::prelude::*;
use chrono::{Datelike, NaiveDateTime, TimeDelta, TimeZone, Timelike, Utc};

verus! {

/// A UTC instant to the second, as its calendar fields.
#[derive(Clone, Copy, Debug, PartialEq, Eq, Structural)]
pub struct DateTimeUtc {
    pub year: i32,
    pub month: u32,
    pub day: u32,
    pub hour: u32,
    pub minute: u32,
    pub second: u32,
}

/// What chrono reads from `text` against the strftime-style `pattern`.
pub uninterp spec fn parsed_as(text: Seq<char>, pattern: Seq<char>) -> Option<DateTimeUtc>;

/// The instant `seconds` seconds after 1904-01-01T00:00:00Z, as chrono
/// computes it, or nothing past chrono's range.
pub uninterp spec fn quicktime_instant(seconds: int) -> Option<DateTimeUtc>;

/// Relies on chrono's `NaiveDateTime::parse_from_str`: the whole of `text`
/// read against `pattern`, the result depending on the two strings alone. The
/// naive date-time is taken as UTC, which keeps its fields.
#[verifier::external_body]
pub(crate) fn parse_with_pattern(text: &str, pattern: &str) -> (r: Option<DateTimeUtc>)
    ensures
        r == parsed_as(text@, pattern@),
{
    NaiveDateTime::parse_from_str(text, pattern).ok().map(|t| DateTimeUtc {
        year: t.year(),
        month: t.month(),
        day: t.day(),
        hour: t.hour(),
        minute: t.minute(),
        second: t.second(),
    })
}

/// Relies on chrono's `DateTime::checked_add_signed`, from the QuickTime epoch
/// 1904-01-01T00:00:00Z, by `TimeDelta::seconds(seconds)`; that constructor
/// panics above `i64::MAX / 1000`, which `requires` leaves out.
#[verifier::external_body]
pub(crate) fn after_quicktime_epoch(seconds: u64) -> (r: Option<DateTimeUtc>)
    requires
        seconds <= 9223372036854775,
    ensures
        r == quicktime_instant(seconds as int),
{
    let epoch = Utc.with_ymd_and_hms(1904, 1, 1, 0, 0, 0).single()?;
    epoch.checked_add_signed(TimeDelta::seconds(seconds as i64)).map(|t| DateTimeUtc {
        year: t.year(),
        month: t.month(),
        day: t.day(),
        hour: t.hour(),
        minute: t.minute(),
        second: t.second(),
    })
}

/// The characters that ASCII bytes stand for.
pub open spec fn ascii_chars(b: Seq<u8>) -> Seq<char> {
    b.map_values(|x: u8| x as char)
}

pub open spec fn is_ascii_bytes(b: Seq<u8>) -> bool {
    forall|i: int| 0 <= i < b.len() ==> #[trigger] b[i] < 128
}

/// Relies on `String::from_utf8`: ASCII bytes are valid UTF-8, one character each.
#[verifier::external_body]
pub(crate) fn ascii_string(b: Vec<u8>) -> (r: String)
    requires
        is_ascii_bytes(b@),
    ensures
        r@ == ascii_chars(b@),
{
    String::from_utf8(b).unwrap_or_default()
}

/// The decimal digits of `v`, most significant first, without leading zeros.
pub open spec fn decimal(v: nat) -> Seq<u8>
    decreases v,
{
    if v < 10 {
        seq![(48 + v) as u8]
    } else {
        decimal(v / 10).push((48 + v % 10) as u8)
    }
}

/// The digits of `v`, with zeros in front up to `width` digits.
pub open spec fn zero_padded(v: nat, width: nat) -> Seq<u8> {
    let d = decimal(v);
    if d.len() >= width {
        d
    } else {
        Seq::new((width - d.len()) as nat, |i: int| 48u8) + d
    }
}

/// A year as strftime's `%Y` writes it: four digits from 0 to 9999, and
/// otherwise a sign in front of at least four digits.
pub open spec fn year_text(y: int) -> Seq<u8> {
    if 0 <= y <= 9999 {
        zero_padded(y as nat, 4)
    } else if y < 0 {
        seq![45u8] + zero_padded((-y) as nat, 4)
    } else {
        seq![43u8] + zero_padded(y as nat, 4)
    }
}

/// `%Y%m%d_%H%M%S` of an instant.
pub open spec fn stamp(t: DateTimeUtc) -> Seq<u8> {
    year_text(t.year as int) + zero_padded(t.month as nat, 2) + zero_padded(t.day as nat, 2)
        + seq![95u8] + zero_padded(t.hour as nat, 2) + zero_padded(t.minute as nat, 2)
        + zero_padded(t.second as nat, 2)
}

pub proof fn lemma_decimal_ascii(v: nat)
    ensures
        is_ascii_bytes(decimal(v)),
        decimal(v).len() >= 1,
    decreases v,
{
    if v >= 10 {
        lemma_decimal_ascii(v / 10);
        assert(is_ascii_bytes(decimal(v))) by {
            assert forall|i: int| 0 <= i < decimal(v).len() implies #[trigger] decimal(v)[i] < 128 by {
                if i < decimal(v / 10).len() {
                    assert(decimal(v)[i] == decimal(v / 10)[i]);
                }
            }
        }
    }
}

proof fn lemma_concat_ascii(a: Seq<u8>, b: Seq<u8>)
    requires
        is_ascii_bytes(a),
        is_ascii_bytes(b),
    ensures
        is_ascii_bytes(a + b),
{
    assert forall|i: int| 0 <= i < (a + b).len() implies #[trigger] (a + b)[i] < 128 by {
        if i < a.len() {
            assert((a + b)[i] == a[i]);
        } else {
            assert((a + b)[i] == b[i - a.len()]);
        }
    }
}

proof fn lemma_padded_ascii(v: nat, w: nat)
    ensures
        is_ascii_bytes(zero_padded(v, w)),
{
    lemma_decimal_ascii(v);
    let d = decimal(v);
    if d.len() < w {
        lemma_concat_ascii(Seq::new((w - d.len()) as nat, |i: int| 48u8), d);
    }
}

proof fn lemma_stamp_ascii(t: DateTimeUtc)
    ensures
        is_ascii_bytes(stamp(t)),
{
    let y = t.year as int;
    if 0 <= y <= 9999 {
        lemma_padded_ascii(y as nat, 4);
    } else if y < 0 {
        lemma_padded_ascii((-y) as nat, 4);
        lemma_concat_ascii(seq![45u8], zero_padded((-y) as nat, 4));
    } else {
        lemma_padded_ascii(y as nat, 4);
        lemma_concat_ascii(seq![43u8], zero_padded(y as nat, 4));
    }
    lemma_padded_ascii(t.month as nat, 2);
    lemma_padded_ascii(t.day as nat, 2);
    lemma_padded_ascii(t.hour as nat, 2);
    lemma_padded_ascii(t.minute as nat, 2);
    lemma_padded_ascii(t.second as nat, 2);
    let a1 = year_text(y) + zero_padded(t.month as nat, 2);
    lemma_concat_ascii(year_text(y), zero_padded(t.month as nat, 2));
    let a2 = a1 + zero_padded(t.day as nat, 2);
    lemma_concat_ascii(a1, zero_padded(t.day as nat, 2));
    let a3 = a2 + seq![95u8];
    lemma_concat_ascii(a2, seq![95u8]);
    let a4 = a3 + zero_padded(t.hour as nat, 2);
    lemma_concat_ascii(a3, zero_padded(t.hour as nat, 2));
    let a5 = a4 + zero_padded(t.minute as nat, 2);
    lemma_concat_ascii(a4, zero_padded(t.minute as nat, 2));
    lemma_concat_ascii(a5, zero_padded(t.second as nat, 2));
}

fn digit_count(v: u64) -> (r: u64)
    ensures
        r == decimal(v as nat).len(),
        1 <= r <= v as int + 1,
    decreases v,
{
    if v < 10 {
        1
    } else {
        1 + digit_count(v / 10)
    }
}

fn push_decimal(out: &mut Vec<u8>, v: u64)
    ensures
        final(out)@ == old(out)@ + decimal(v as nat),
    decreases v,
{
    if v >= 10 {
        push_decimal(out, v / 10);
    }
    out.push((48 + v % 10) as u8);
    assert(final(out)@ =~= old(out)@ + decimal(v as nat));
}

fn push_padded(out: &mut Vec<u8>, v: u64, width: u64)
    ensures
        final(out)@ == old(out)@ + zero_padded(v as nat, width as nat),
{
    let n = digit_count(v);
    let ghost start = out@;
    let mut k: u64 = n;
    while k < width
        invariant
            n <= k,
            n == decimal(v as nat).len(),
            n < width ==> k <= width,
            n >= width ==> k == n,
            out@ == start + Seq::new((k - n) as nat, |i: int| 48u8),
        decreases width - k,
    {
        out.push(48u8);
        k = k + 1;
        assert(out@ =~= start + Seq::new((k - n) as nat, |i: int| 48u8));
    }
    push_decimal(out, v);
    if n >= width {
        assert(Seq::new((k - n) as nat, |i: int| 48u8) =~= Seq::<u8>::empty());
        assert(out@ =~= start + zero_padded(v as nat, width as nat));
    } else {
        assert(out@ =~= start + zero_padded(v as nat, width as nat));
    }
}

/// The decimal digits of `v`.
pub fn decimal_text(v: u64) -> (r: String)
    ensures
        r@ == ascii_chars(decimal(v as nat)),
{
    let mut out: Vec<u8> = Vec::new();
    push_decimal(&mut out, v);
    assert(out@ =~= decimal(v as nat));
    proof {
        lemma_decimal_ascii(v as nat);
    }
    ascii_string(out)
}

/// The text `%Y%m%d_%H%M%S` of `t`, the pattern of dated file names.
pub fn stamp_text(t: &DateTimeUtc) -> (r: String)
    ensures
        r@ == ascii_chars(stamp(*t)),
{
    let mut out: Vec<u8> = Vec::new();
    let y = t.year;
    if 0 <= y && y <= 9999 {
        push_padded(&mut out, y as u64, 4);
    } else if y < 0 {
        out.push(45u8);
        push_padded(&mut out, (-(y as i64)) as u64, 4);
    } else {
        out.push(43u8);
        push_padded(&mut out, y as u64, 4);
    }
    push_padded(&mut out, t.month as u64, 2);
    push_padded(&mut out, t.day as u64, 2);
    out.push(95u8);
    push_padded(&mut out, t.hour as u64, 2);
    push_padded(&mut out, t.minute as u64, 2);
    push_padded(&mut out, t.second as u64, 2);
    assert(out@ =~= stamp(*t));
    proof {
        lemma_stamp_ascii(*t);
    }
    ascii_string(out)
}

} // verus!
