//! Points in time and spans between them, and how a point in time is written
//! for people.

use crate::calendar::{
    civil_from_days, date_of, day_number, is_date, law_every_day_has_one_date,
};
use crate::numerals::{
    digits_value, law_zero_padding_keeps_the_number, lemma_four_digits, lemma_two_digits,
    lemma_zero_padded_injective, zero_padded, zero_padded_chars,
};
use crate::text::string_of;
use vstd::prelude::*;

verus! {

/// How many nanoseconds a second has.
pub const NANOS_PER_SEC: u32 = 1_000_000_000;

/// A point in time: the whole seconds that lie between it and the Unix epoch,
/// rounded down, and the nanoseconds on top of them.
#[derive(Clone, Copy, Debug, PartialEq, Eq, Structural)]
pub struct UnixTime {
    pub secs: i64,
    pub nanos: u32,
}

/// A span of time: whole seconds, and the nanoseconds on top of them.
#[derive(Clone, Copy, Debug, PartialEq, Eq, Structural)]
pub struct Span {
    pub secs: u64,
    pub nanos: u32,
}

impl Span {
    /// The nanoseconds stay below a second.
    pub open spec fn wf(self) -> bool {
        self.nanos < NANOS_PER_SEC
    }

    /// The length of the span in nanoseconds.
    pub open spec fn total(self) -> int {
        self.secs * NANOS_PER_SEC + self.nanos
    }

    /// Whether this span is no longer than `other`.
    pub fn at_most(&self, other: &Span) -> (r: bool)
        requires
            self.wf(),
            other.wf(),
        ensures
            r == (self.total() <= other.total()),
    {
        self.secs < other.secs || (self.secs == other.secs && self.nanos <= other.nanos)
    }

    /// This span less `other`, or the empty span where `other` is longer.
    pub fn saturating_sub(&self, other: &Span) -> (r: Span)
        requires
            self.wf(),
            other.wf(),
        ensures
            r.wf(),
            r.total() == (if self.total() >= other.total() {
                self.total() - other.total()
            } else {
                0
            }),
    {
        if self.at_most(other) {
            Span { secs: 0, nanos: 0 }
        } else if self.nanos >= other.nanos {
            Span { secs: self.secs - other.secs, nanos: self.nanos - other.nanos }
        } else {
            Span {
                secs: self.secs - other.secs - 1,
                nanos: self.nanos + (NANOS_PER_SEC - other.nanos),
            }
        }
    }
}

impl UnixTime {
    /// The nanoseconds stay below a second.
    pub open spec fn wf(self) -> bool {
        self.nanos < NANOS_PER_SEC
    }

    /// The distance from the epoch in nanoseconds, negative before it.
    pub open spec fn total(self) -> int {
        self.secs * NANOS_PER_SEC + self.nanos
    }

    /// The point in time that lies the given span after the epoch, unless it is
    /// out of range.
    pub fn after_epoch(span: &Span) -> (r: Option<UnixTime>)
        requires
            span.wf(),
        ensures
            r is Some <==> span.secs <= i64::MAX,
            r matches Some(t) ==> t.wf() && t.total() == span.total(),
    {
        if span.secs <= i64::MAX as u64 {
            Some(UnixTime { secs: span.secs as i64, nanos: span.nanos })
        } else {
            None
        }
    }

    /// The point in time that lies the given span before the epoch, unless it
    /// is out of range.
    pub fn before_epoch(span: &Span) -> (r: Option<UnixTime>)
        requires
            span.wf(),
        ensures
            r is Some <==> span.total() <= -(i64::MIN * NANOS_PER_SEC),
            r matches Some(t) ==> t.wf() && t.total() == -span.total(),
    {
        if span.secs <= i64::MAX as u64 {
            let secs: i64 = -(span.secs as i64);
            if span.nanos == 0 {
                Some(UnixTime { secs, nanos: 0 })
            } else {
                Some(UnixTime { secs: secs - 1, nanos: NANOS_PER_SEC - span.nanos })
            }
        } else if span.secs == 9_223_372_036_854_775_808 && span.nanos == 0 {
            Some(UnixTime { secs: i64::MIN, nanos: 0 })
        } else {
            None
        }
    }

    /// The span from `earlier` to this point in time, where `earlier` is not
    /// the later of the two.
    pub fn duration_since(&self, earlier: &UnixTime) -> (r: Option<Span>)
        requires
            self.wf(),
            earlier.wf(),
        ensures
            r is Some <==> earlier.total() <= self.total(),
            r matches Some(span) ==> span.wf() && span.total() == self.total() - earlier.total(),
    {
        if self.secs < earlier.secs || (self.secs == earlier.secs && self.nanos < earlier.nanos) {
            return None;
        }
        let secs: u64 = (self.secs as i128 - earlier.secs as i128) as u64;
        if self.nanos >= earlier.nanos {
            Some(Span { secs, nanos: self.nanos - earlier.nanos })
        } else {
            Some(Span { secs: secs - 1, nanos: self.nanos + (NANOS_PER_SEC - earlier.nanos) })
        }
    }

    /// The whole seconds between the epoch and this point in time, with the
    /// part of a second dropped; negative before the epoch.
    pub open spec fn whole_secs(self) -> int {
        if self.secs < 0 && self.nanos > 0 { self.secs + 1 } else { self.secs as int }
    }
}

/// The fields of a timestamp, with what stands between them.
pub open spec fn joined_fields(
    year: Seq<char>,
    month: Seq<char>,
    day: Seq<char>,
    hour: Seq<char>,
    minute: Seq<char>,
    second: Seq<char>,
) -> Seq<char> {
    year + seq!['-'] + month + seq!['-'] + day + seq![' '] + hour + seq![':'] + minute + seq![':']
        + second + seq![' ', 'U', 'T', 'C']
}

/// A calendar date and a second of its day, as `YYYY-MM-DD HH:MM:SS UTC`.
pub open spec fn stamp(date: (int, int, int), second: int) -> Seq<char> {
    joined_fields(
        zero_padded(date.0, 4),
        zero_padded(date.1, 2),
        zero_padded(date.2, 2),
        zero_padded(second / 3600, 2),
        zero_padded(second / 60 % 60, 2),
        zero_padded(second % 60, 2),
    )
}

/// Whole seconds from the epoch, as a UTC timestamp.
pub open spec fn utc_text(secs: int) -> Seq<char> {
    stamp(date_of(secs / 86_400), secs % 86_400)
}

/// Two texts that end in parts of the same length agree on both parts.
proof fn lemma_same_end(a: Seq<char>, b: Seq<char>, c: Seq<char>, d: Seq<char>)
    requires
        a + b == c + d,
        b.len() == d.len(),
    ensures
        a == c,
        b == d,
{
    assert((a + b).len() == (c + d).len());
    assert(a =~= (a + b).take(a.len() as int));
    assert(c =~= (c + d).take(c.len() as int));
    assert(b =~= (a + b).skip(a.len() as int));
    assert(d =~= (c + d).skip(c.len() as int));
}

/// Fields of fixed width can be read off the timestamp that holds them.
proof fn lemma_fields(a: Seq<Seq<char>>, b: Seq<Seq<char>>)
    requires
        a.len() == 6,
        b.len() == 6,
        forall|i: int| 1 <= i < 6 ==> (#[trigger] a[i]).len() == 2,
        forall|i: int| 1 <= i < 6 ==> (#[trigger] b[i]).len() == 2,
        joined_fields(a[0], a[1], a[2], a[3], a[4], a[5]) == joined_fields(
            b[0],
            b[1],
            b[2],
            b[3],
            b[4],
            b[5],
        ),
    ensures
        a =~= b,
{
    let a1 = a[0] + seq!['-'];
    let a2 = a1 + a[1];
    let a3 = a2 + seq!['-'];
    let a4 = a3 + a[2];
    let a5 = a4 + seq![' '];
    let a6 = a5 + a[3];
    let a7 = a6 + seq![':'];
    let a8 = a7 + a[4];
    let a9 = a8 + seq![':'];
    let a10 = a9 + a[5];
    let b1 = b[0] + seq!['-'];
    let b2 = b1 + b[1];
    let b3 = b2 + seq!['-'];
    let b4 = b3 + b[2];
    let b5 = b4 + seq![' '];
    let b6 = b5 + b[3];
    let b7 = b6 + seq![':'];
    let b8 = b7 + b[4];
    let b9 = b8 + seq![':'];
    let b10 = b9 + b[5];
    lemma_same_end(a10, seq![' ', 'U', 'T', 'C'], b10, seq![' ', 'U', 'T', 'C']);
    lemma_same_end(a9, a[5], b9, b[5]);
    lemma_same_end(a8, seq![':'], b8, seq![':']);
    lemma_same_end(a7, a[4], b7, b[4]);
    lemma_same_end(a6, seq![':'], b6, seq![':']);
    lemma_same_end(a5, a[3], b5, b[3]);
    lemma_same_end(a4, seq![' '], b4, seq![' ']);
    lemma_same_end(a3, a[2], b3, b[2]);
    lemma_same_end(a2, seq!['-'], b2, seq!['-']);
    lemma_same_end(a1, a[1], b1, b[1]);
    lemma_same_end(a[0], seq!['-'], b[0], seq!['-']);
}

/// Where the fields of a timestamp end, where each has its usual width.
proof fn lemma_shape(
    year: Seq<char>,
    month: Seq<char>,
    day: Seq<char>,
    hour: Seq<char>,
    minute: Seq<char>,
    second: Seq<char>,
)
    requires
        year.len() == 4,
        month.len() == 2,
        day.len() == 2,
        hour.len() == 2,
        minute.len() == 2,
        second.len() == 2,
    ensures
        ({
            let text = joined_fields(year, month, day, hour, minute, second);
            &&& text.len() == 23
            &&& text[4] == '-'
            &&& text[7] == '-'
            &&& text[10] == ' '
            &&& text[13] == ':'
            &&& text[16] == ':'
            &&& text.skip(19) =~= seq![' ', 'U', 'T', 'C']
        }),
{
}

/// The fields of a timestamp other than the year take two characters.
proof fn lemma_field_widths(date: (int, int, int), second: int)
    requires
        1 <= date.1 <= 12,
        1 <= date.2 <= 31,
        0 <= second < 86_400,
    ensures
        zero_padded(date.1, 2).len() == 2,
        zero_padded(date.2, 2).len() == 2,
        zero_padded(second / 3600, 2).len() == 2,
        zero_padded(second / 60 % 60, 2).len() == 2,
        zero_padded(second % 60, 2).len() == 2,
{
    lemma_two_digits(date.1);
    lemma_two_digits(date.2);
    lemma_two_digits(second / 3600);
    lemma_two_digits(second / 60 % 60);
    lemma_two_digits(second % 60);
}

/// In the years 0 to 9999 a timestamp has the shape that it is named for: four
/// digits of year, and every later field in its fixed place.
pub proof fn law_timestamp_shape(secs: int)
    requires
        0 <= date_of(secs / 86_400).0 <= 9999,
    ensures
        utc_text(secs).len() == 23,
        utc_text(secs)[4] == '-',
        utc_text(secs)[7] == '-',
        utc_text(secs)[10] == ' ',
        utc_text(secs)[13] == ':',
        utc_text(secs)[16] == ':',
        utc_text(secs).skip(19) =~= seq![' ', 'U', 'T', 'C'],
{
    let date = date_of(secs / 86_400);
    let second = secs % 86_400;
    law_every_day_has_one_date(secs / 86_400, date);
    lemma_field_widths(date, second);
    lemma_four_digits(date.0);
    lemma_shape(
        zero_padded(date.0, 4),
        zero_padded(date.1, 2),
        zero_padded(date.2, 2),
        zero_padded(second / 3600, 2),
        zero_padded(second / 60 % 60, 2),
        zero_padded(second % 60, 2),
    );
}

/// The fields of a timestamp, in order.
spec fn fields(date: (int, int, int), second: int) -> Seq<Seq<char>> {
    seq![
        zero_padded(date.0, 4),
        zero_padded(date.1, 2),
        zero_padded(date.2, 2),
        zero_padded(second / 3600, 2),
        zero_padded(second / 60 % 60, 2),
        zero_padded(second % 60, 2),
    ]
}

/// A timestamp tells the second it stands for: no two seconds are written
/// alike.
pub proof fn law_timestamp_tells_the_second(a: int, b: int)
    requires
        utc_text(a) == utc_text(b),
    ensures
        a == b,
{
    let x = date_of(a / 86_400);
    let y = date_of(b / 86_400);
    let s = a % 86_400;
    let t = b % 86_400;
    law_every_day_has_one_date(a / 86_400, x);
    law_every_day_has_one_date(b / 86_400, y);
    lemma_field_widths(x, s);
    lemma_field_widths(y, t);
    let p = fields(x, s);
    let q = fields(y, t);
    lemma_fields(p, q);
    assert(p[0] == q[0] && p[1] == q[1] && p[2] == q[2] && p[3] == q[3] && p[4] == q[4] && p[5]
        == q[5]);
    lemma_zero_padded_injective(x.0, y.0, 4);
    lemma_zero_padded_injective(x.1, y.1, 2);
    lemma_zero_padded_injective(x.2, y.2, 2);
    lemma_zero_padded_injective(s / 3600, t / 3600, 2);
    lemma_zero_padded_injective(s / 60 % 60, t / 60 % 60, 2);
    lemma_zero_padded_injective(s % 60, t % 60, 2);
    assert(s == t);
}

/// Appends one character and a number that takes at least two.
fn push_field(r: &mut Vec<char>, separator: char, n: i64)
    ensures
        final(r)@ == old(r)@ + seq![separator] + zero_padded(n as int, 2),
{
    let ghost before = r@;
    r.push(separator);
    assert(r@ =~= before + seq![separator]);
    let mut field = zero_padded_chars(n, 2);
    r.append(&mut field);
}

/// Renders a point in time as a UTC `YYYY-MM-DD HH:MM:SS UTC` timestamp.
pub fn format_time(t: &UnixTime) -> (text: String)
    requires
        t.wf(),
        t.total() > i64::MIN * NANOS_PER_SEC,
    ensures
        text@ == utc_text(t.whole_secs()),
{
    let secs: i64 = if t.secs < 0 && t.nanos > 0 { t.secs + 1 } else { t.secs };
    let days: i64 = if secs >= 0 { secs / 86_400 } else { (secs + 1) / 86_400 - 1 };
    assert(days == secs as int / 86_400);
    let time_of_day: i64 = if secs >= 0 { secs % 86_400 } else { (secs + 1) % 86_400 + 86_399 };
    assert(time_of_day == secs as int % 86_400);
    let (year, month, day) = civil_from_days(days);
    let mut r = zero_padded_chars(year, 4);
    push_field(&mut r, '-', month as i64);
    push_field(&mut r, '-', day as i64);
    push_field(&mut r, ' ', time_of_day / 3600);
    push_field(&mut r, ':', time_of_day / 60 % 60);
    push_field(&mut r, ':', time_of_day % 60);
    let ghost before = r@;
    r.push(' ');
    r.push('U');
    r.push('T');
    r.push('C');
    assert(r@ =~= before + seq![' ', 'U', 'T', 'C']);
    string_of(r.as_slice())
}

/// The number in two characters of a text, from `i` on.
pub open spec fn two_at(text: Seq<char>, i: int) -> int {
    digits_value(text.subrange(i, i + 2)) as int
}

/// Where the fields of a timestamp stand behind its year.
proof fn lemma_fields_behind_year(
    year: Seq<char>,
    month: Seq<char>,
    day: Seq<char>,
    hour: Seq<char>,
    minute: Seq<char>,
    second: Seq<char>,
)
    requires
        month.len() == 2,
        day.len() == 2,
        hour.len() == 2,
        minute.len() == 2,
        second.len() == 2,
    ensures
        ({
            let text = joined_fields(year, month, day, hour, minute, second);
            let n = year.len() as int;
            &&& text.len() == n + 19
            &&& text.take(n) =~= year
            &&& text[n] == '-'
            &&& text.subrange(n + 1, n + 3) =~= month
            &&& text[n + 3] == '-'
            &&& text.subrange(n + 4, n + 6) =~= day
            &&& text[n + 6] == ' '
            &&& text.subrange(n + 7, n + 9) =~= hour
            &&& text[n + 9] == ':'
            &&& text.subrange(n + 10, n + 12) =~= minute
            &&& text[n + 12] == ':'
            &&& text.subrange(n + 13, n + 15) =~= second
            &&& text.skip(n + 15) =~= seq![' ', 'U', 'T', 'C']
        }),
{
}

/// A timestamp reads back as the second it was written for: behind its year it
/// holds, each in its place, a month, a day, an hour, a minute and a second.
/// They are a date of the calendar and a time of day, and the days up to that
/// date and the seconds up to that time make up the second.
pub proof fn law_timestamp_reads_back(secs: int)
    ensures
        ({
            let text = utc_text(secs);
            let n = text.len() - 19;
            let month = two_at(text, n + 1);
            let day = two_at(text, n + 4);
            let hour = two_at(text, n + 7);
            let minute = two_at(text, n + 10);
            let second = two_at(text, n + 13);
            &&& n >= 4
            &&& text[n] == '-' && text[n + 3] == '-' && text[n + 6] == ' '
            &&& text[n + 9] == ':' && text[n + 12] == ':'
            &&& text.skip(n + 15) == seq![' ', 'U', 'T', 'C']
            &&& 0 <= hour < 24 && 0 <= minute < 60 && 0 <= second < 60
            &&& exists|year: int| #[trigger]
                is_date(year, month, day) && text.take(n) == zero_padded(year, 4) && day_number(
                    year,
                    month,
                    day,
                ) * 86_400 + hour * 3600 + minute * 60 + second == secs
        }),
{
    let date = date_of(secs / 86_400);
    let rest = secs % 86_400;
    law_every_day_has_one_date(secs / 86_400, date);
    lemma_field_widths(date, rest);
    law_zero_padding_keeps_the_number(date.0, 4);
    law_zero_padding_keeps_the_number(date.1, 2);
    law_zero_padding_keeps_the_number(date.2, 2);
    law_zero_padding_keeps_the_number(rest / 3600, 2);
    law_zero_padding_keeps_the_number(rest / 60 % 60, 2);
    law_zero_padding_keeps_the_number(rest % 60, 2);
    lemma_fields_behind_year(
        zero_padded(date.0, 4),
        zero_padded(date.1, 2),
        zero_padded(date.2, 2),
        zero_padded(rest / 3600, 2),
        zero_padded(rest / 60 % 60, 2),
        zero_padded(rest % 60, 2),
    );
    let text = utc_text(secs);
    let n = text.len() - 19;
    assert(two_at(text, n + 1) == date.1);
    assert(two_at(text, n + 4) == date.2);
    assert(two_at(text, n + 7) == rest / 3600);
    assert(two_at(text, n + 10) == rest / 60 % 60);
    assert(two_at(text, n + 13) == rest % 60);
    assert(is_date(date.0, date.1, date.2));
    assert(rest == rest / 3600 * 3600 + rest / 60 % 60 * 60 + rest % 60);
    assert(secs == secs / 86_400 * 86_400 + rest);
}

/// A point in time is counted in nanoseconds, and its whole seconds leave out a
/// part of a second on either side of the epoch.
pub proof fn law_part_of_a_second_is_dropped(t: UnixTime)
    requires
        t.nanos < 1_000_000_000,
    ensures
        ({
            let nanos = t.secs * 1_000_000_000 + t.nanos;
            let whole = t.whole_secs() * 1_000_000_000;
            &&& t.total() == nanos
            &&& nanos >= 0 ==> whole <= nanos < whole + 1_000_000_000
            &&& nanos < 0 ==> whole - 1_000_000_000 < nanos <= whole
        }),
{
}

/// A span is counted in nanoseconds.
pub proof fn law_span_is_counted_in_nanoseconds(span: Span)
    ensures
        span.total() == span.secs * 1_000_000_000 + span.nanos,
        span.wf() <==> span.nanos < 1_000_000_000,
{
}

}
