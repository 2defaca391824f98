//! Creation-timestamp stamps: the `YYYYMMDD_HHMMSS_` prefix that the renamer
//! puts in front of a file name, and the idempotency check that recognizes a
//! name that already carries one.

use vstd::prelude::*;
use chrono::Datelike;
use chrono::Timelike;

verus! {

/// Calendar fields of a moment in the machine's local time zone, as plain
/// values. Produced from a file's creation time; consumed by the stamp
/// formatter.
#[derive(Clone, Copy, PartialEq, Eq, Structural, Debug)]
pub struct LocalTimeParts {
    pub year: i32,
    pub month: u32,
    pub day: u32,
    pub hour: u32,
    pub minute: u32,
    pub second: u32,
}

/// The field ranges that a calendar conversion yields, with the year bounded
/// to the four digits that a stamp can carry.
pub open spec fn time_parts_in_range(t: LocalTimeParts) -> bool {
    &&& 0 <= t.year <= 9999
    &&& 1 <= t.month <= 12
    &&& 1 <= t.day <= 31
    &&& t.hour <= 23
    &&& t.minute <= 59
    &&& t.second <= 59
}

/// Relies on chrono: `DateTime::from_timestamp` (seconds since the Unix epoch
/// to UTC; `None` when out of chrono's range), `with_timezone(&Local)`, and the
/// `Datelike`/`Timelike` accessors, whose documentation bounds month to 1..=12,
/// day to 1..=31, hour to 0..=23, minute and second to 0..=59. The local
/// calendar fields depend on the machine's time zone, so nothing more is
/// promised of them; in particular callers must still check the year.
#[verifier::external_body]
pub(crate) fn local_time_of_epoch(epoch_secs: i64) -> (r: Option<LocalTimeParts>)
    ensures
        r matches Some(t) ==> 1 <= t.month <= 12 && 1 <= t.day <= 31 && t.hour <= 23
            && t.minute <= 59 && t.second <= 59,
{
    let utc = chrono::DateTime::from_timestamp(epoch_secs, 0)?;
    let local = utc.with_timezone(&chrono::Local);
    Some(LocalTimeParts {
        year: local.year(),
        month: local.month(),
        day: local.day(),
        hour: local.hour(),
        minute: local.minute(),
        second: local.second(),
    })
}

pub open spec fn is_ascii_digit_char(c: char) -> bool {
    '0' <= c <= '9'
}

/// The decimal digit `d` as a character; meaningful for `0 <= d <= 9`.
pub open spec fn digit_char(d: int) -> char {
    if d == 0 {
        '0'
    } else if d == 1 {
        '1'
    } else if d == 2 {
        '2'
    } else if d == 3 {
        '3'
    } else if d == 4 {
        '4'
    } else if d == 5 {
        '5'
    } else if d == 6 {
        '6'
    } else if d == 7 {
        '7'
    } else if d == 8 {
        '8'
    } else {
        '9'
    }
}

pub open spec fn two_digits(n: int) -> Seq<char> {
    seq![digit_char(n / 10 % 10), digit_char(n % 10)]
}

pub open spec fn four_digits(n: int) -> Seq<char> {
    seq![
        digit_char(n / 1000 % 10),
        digit_char(n / 100 % 10),
        digit_char(n / 10 % 10),
        digit_char(n % 10),
    ]
}

/// The sixteen characters `YYYYMMDD_HHMMSS_` of a stamp.
pub open spec fn stamp_chars(t: LocalTimeParts) -> Seq<char> {
    four_digits(t.year as int) + two_digits(t.month as int) + two_digits(t.day as int)
        + seq!['_'] + two_digits(t.hour as int) + two_digits(t.minute as int) + two_digits(
        t.second as int,
    ) + seq!['_']
}

/// A name already carries a stamp: eight digits, an underscore, six digits,
/// an underscore, at its start.
pub open spec fn is_timestamp_prefixed(s: Seq<char>) -> bool {
    &&& s.len() >= 16
    &&& (forall|i: int| 0 <= i < 8 ==> is_ascii_digit_char(#[trigger] s[i]))
    &&& s[8] == '_'
    &&& (forall|i: int| 9 <= i < 15 ==> is_ascii_digit_char(#[trigger] s[i]))
    &&& s[15] == '_'
}

/// A stamp put in front of any name yields a name that the idempotency check
/// recognizes.
pub proof fn lemma_stamp_is_prefix(t: LocalTimeParts, rest: Seq<char>)
    ensures
        is_timestamp_prefixed(stamp_chars(t) + rest),
{
    let s = stamp_chars(t) + rest;
    assert(stamp_chars(t).len() == 16);
    assert forall|i: int| 0 <= i < 8 implies is_ascii_digit_char(#[trigger] s[i]) by {
        assert(is_ascii_digit_char(s[0]) && is_ascii_digit_char(s[1]) && is_ascii_digit_char(
            s[2],
        ) && is_ascii_digit_char(s[3]) && is_ascii_digit_char(s[4]) && is_ascii_digit_char(s[5])
            && is_ascii_digit_char(s[6]) && is_ascii_digit_char(s[7]));
    }
    assert(s[8] == '_');
    assert forall|i: int| 9 <= i < 15 implies is_ascii_digit_char(#[trigger] s[i]) by {
        assert(is_ascii_digit_char(s[9]) && is_ascii_digit_char(s[10]) && is_ascii_digit_char(
            s[11],
        ) && is_ascii_digit_char(s[12]) && is_ascii_digit_char(s[13]) && is_ascii_digit_char(
            s[14],
        ));
    }
    assert(s[15] == '_');
}

/// Appends the decimal digit `d` to `out`.
fn push_digit(out: &mut String, d: u32)
    requires
        d <= 9,
    ensures
        final(out)@ == old(out)@ + seq![digit_char(d as int)],
{
    let digits = "0123456789";
    proof {
        reveal_strlit("0123456789");
    }
    let s = digits.substring_ascii(d as usize, d as usize + 1);
    assert(s@ =~= seq![digit_char(d as int)]);
    out.append(s);
}

/// Appends `n` as two decimal digits (zero-padded) to `out`.
fn push_two_digits(out: &mut String, n: u32)
    requires
        n <= 99,
    ensures
        final(out)@ == old(out)@ + two_digits(n as int),
{
    push_digit(out, n / 10);
    push_digit(out, n % 10);
    assert(n / 10 == n as int / 10 % 10);
    assert(two_digits(n as int) =~= seq![digit_char(n as int / 10 % 10)] + seq![
        digit_char(n as int % 10),
    ]);
}

/// Appends `n` as four decimal digits (zero-padded) to `out`.
fn push_four_digits(out: &mut String, n: u32)
    requires
        n <= 9999,
    ensures
        final(out)@ == old(out)@ + four_digits(n as int),
{
    push_digit(out, n / 1000);
    push_digit(out, n / 100 % 10);
    push_digit(out, n / 10 % 10);
    push_digit(out, n % 10);
    assert(n / 1000 == n as int / 1000 % 10);
    assert(four_digits(n as int) =~= seq![digit_char(n as int / 1000 % 10)] + seq![
        digit_char(n as int / 100 % 10),
    ] + seq![digit_char(n as int / 10 % 10)] + seq![digit_char(n as int % 10)]);
}

/// Renders the stamp `YYYYMMDD_HHMMSS_` for `t`. `None` exactly when a field
/// is out of range — in particular a year that does not fit four digits.
pub fn format_timestamp(t: &LocalTimeParts) -> (r: Option<String>)
    ensures
        r matches Some(s) ==> s@ == stamp_chars(*t),
        r is Some <==> time_parts_in_range(*t),
{
    if !(0 <= t.year && t.year <= 9999 && 1 <= t.month && t.month <= 12 && 1 <= t.day && t.day
        <= 31 && t.hour <= 23 && t.minute <= 59 && t.second <= 59) {
        return None;
    }
    let mut out = String::new();
    push_four_digits(&mut out, t.year as u32);
    push_two_digits(&mut out, t.month);
    push_two_digits(&mut out, t.day);
    proof {
        reveal_strlit("_");
    }
    out.append("_");
    push_two_digits(&mut out, t.hour);
    push_two_digits(&mut out, t.minute);
    push_two_digits(&mut out, t.second);
    out.append("_");
    assert(out@ =~= stamp_chars(*t));
    Some(out)
}

/// Decides whether `name` starts with a stamp.
pub fn has_timestamp_prefix(name: &str) -> (r: bool)
    ensures
        r == is_timestamp_prefixed(name@),
{
    let n = name.unicode_len();
    if n < 16 {
        return false;
    }
    let mut i: usize = 0;
    while i < 16
        invariant
            0 <= i <= 16,
            n == name@.len(),
            n >= 16,
            forall|j: int| 0 <= j < i && 0 <= j < 8 ==> is_ascii_digit_char(#[trigger] name@[j]),
            i > 8 ==> name@[8] == '_',
            forall|j: int| 9 <= j < i && j < 15 ==> is_ascii_digit_char(#[trigger] name@[j]),
            i > 15 ==> name@[15] == '_',
        decreases 16 - i,
    {
        let c = name.get_char(i);
        if i == 8 || i == 15 {
            if c != '_' {
                return false;
            }
        } else {
            if c < '0' || c > '9' {
                return false;
            }
        }
        i = i + 1;
    }
    true
}

} // verus!
