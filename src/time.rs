//! Timestamps with a fixed UTC offset, times of day and signed durations.
use vstd::prelude::*;
use vstd::arithmetic::div_mod::lemma_hoist_over_denominator;
use chrono::{Datelike, Timelike};
use crate::error::SbbError;
use crate::text::{int_text, lemma_pad2_injective, pad2, pad4, push_pad2, push_signed};

verus! {

#[verifier::external_type_specification]
#[verifier::external_body]
pub struct ExParseError(chrono::ParseError);

/// A calendar date and wall-clock time together with the offset of its zone
/// from UTC, in seconds east.
#[derive(Clone, Copy, Debug, PartialEq, Eq, Structural)]
pub struct Timestamp {
    pub year: i32,
    pub month: u32,
    pub day: u32,
    pub hour: u32,
    pub minute: u32,
    pub second: u32,
    pub offset: i32,
}

/// A wall-clock time of day.
#[derive(Clone, Copy, Debug, PartialEq, Eq, Structural)]
pub struct TimeOfDay {
    pub hour: u32,
    pub minute: u32,
    pub second: u32,
}

/// A signed span of time, in whole seconds.
#[derive(Clone, Copy, Debug, PartialEq, Eq, Structural)]
pub struct Duration {
    pub seconds: i64,
}

pub open spec fn is_leap_year(y: int) -> bool {
    (y % 4 == 0 && y % 100 != 0) || y % 400 == 0
}

pub open spec fn days_in_month(y: int, m: int) -> int {
    if m == 2 {
        if is_leap_year(y) { 29 } else { 28 }
    } else if m == 4 || m == 6 || m == 9 || m == 11 {
        30
    } else {
        31
    }
}

/// Days from 1970-01-01 to the given proleptic Gregorian date.
pub open spec fn days_from_civil(y: int, m: int, d: int) -> int {
    let yy = if m <= 2 { y - 1 } else { y };
    let mp = if m <= 2 { m + 9 } else { m - 3 };
    365 * yy + yy / 4 - yy / 100 + yy / 400 + (153 * mp + 2) / 5 + d - 1 - 719468
}

impl Timestamp {
    /// A date and time that exists, in the range of years that chrono
    /// represents, with an offset of less than a day.
    pub open spec fn wf(self) -> bool {
        &&& -262143 <= self.year <= 262142
        &&& 1 <= self.month <= 12
        &&& 1 <= self.day <= days_in_month(self.year as int, self.month as int)
        &&& self.hour < 24
        &&& self.minute < 60
        &&& self.second < 60
        &&& -86400 < self.offset < 86400
    }

    /// Seconds since 1970-01-01T00:00:00 UTC.
    pub open spec fn instant(self) -> int {
        days_from_civil(self.year as int, self.month as int, self.day as int) * 86400
            + self.hour * 3600 + self.minute * 60 + self.second - self.offset
    }

    pub open spec fn time_of_day(self) -> TimeOfDay {
        TimeOfDay { hour: self.hour, minute: self.minute, second: self.second }
    }

    /// Whether `text` renders this value exactly: a four-digit year and an
    /// offset in whole minutes.
    pub open spec fn has_text(self) -> bool {
        &&& self.wf()
        &&& 0 <= self.year <= 9999
        &&& self.offset % 60 == 0
    }

    /// `YYYY-MM-DDTHH:MM:SS±HHMM`.
    pub open spec fn text(self) -> Seq<char> {
        let mag: nat = if self.offset < 0 { (-self.offset) as nat } else { self.offset as nat };
        pad4(self.year as nat) + seq!['-'] + pad2(self.month as nat) + seq!['-']
            + pad2(self.day as nat) + seq!['T'] + pad2(self.hour as nat) + seq![':']
            + pad2(self.minute as nat) + seq![':'] + pad2(self.second as nat)
            + seq![if self.offset < 0 { '-' } else { '+' }] + pad2(mag / 3600)
            + pad2((mag % 3600) / 60)
    }

    /// Whether `s` writes this value: its `text`, or, for an offset of zero,
    /// that text with the offset written `-0000`.
    pub open spec fn spells(self, s: Seq<char>) -> bool {
        s == self.text() || (self.offset == 0 && s == self.text().update(19, '-'))
    }
}

impl TimeOfDay {
    /// `HH:MM:SS`.
    pub open spec fn text(self) -> Seq<char> {
        pad2(self.hour as nat) + seq![':'] + pad2(self.minute as nat) + seq![':'] + pad2(
            self.second as nat,
        )
    }
}

/// `s` divided by 60, rounded toward zero.
pub open spec fn whole_minutes(s: int) -> int {
    if s >= 0 { s / 60 } else { -((-s) / 60) }
}

impl Duration {
    pub open spec fn minutes(self) -> int {
        whole_minutes(self.seconds as int)
    }

    /// The whole minutes in this span, rounded toward zero.
    pub fn num_minutes(&self) -> (r: i64)
        ensures
            r == self.minutes(),
    {
        if self.seconds >= 0 {
            self.seconds / 60
        } else {
            let m: i128 = -(self.seconds as i128);
            -((m / 60) as i64)
        }
    }

    /// `{N}min`, with `N` the whole minutes of this span.
    pub fn minutes_text(&self) -> (r: String)
        ensures
            r@ == int_text(self.minutes()) + "min"@,
    {
        let mut s = String::new();
        push_signed(&mut s, self.num_minutes());
        proof { reveal_strlit("min"); }
        s.append("min");
        assert(s@ =~= int_text(self.minutes()) + "min"@);
        s
    }
}

/// Days from 1970-01-01 to a date whose year chrono represents.
pub fn days_from_civil_exec(y: i32, m: u32, d: u32) -> (r: i64)
    requires
        -262143 <= y <= 262142,
        1 <= m <= 12,
        1 <= d <= 31,
    ensures
        r == days_from_civil(y as int, m as int, d as int),
{
    let yy: i64 = if m <= 2 { y as i64 - 1 } else { y as i64 };
    let mp: i64 = if m <= 2 { m as i64 + 9 } else { m as i64 - 3 };
    let a: i64 = yy + 400000;
    proof {
        lemma_hoist_over_denominator(yy as int, 100000, 4);
        lemma_hoist_over_denominator(yy as int, 4000, 100);
        lemma_hoist_over_denominator(yy as int, 1000, 400);
    }
    365 * yy + (a / 4 - 100000) - (a / 100 - 4000) + (a / 400 - 1000) + (153 * mp + 2) / 5
        + d as i64 - 1 - 719468
}

impl Timestamp {
    /// Seconds since 1970-01-01T00:00:00 UTC.
    pub fn to_instant(&self) -> (r: i64)
        requires
            self.wf(),
        ensures
            r == self.instant(),
    {
        let days = days_from_civil_exec(self.year, self.month, self.day);
        days * 86400 + self.hour as i64 * 3600 + self.minute as i64 * 60 + self.second as i64
            - self.offset as i64
    }

    /// The wall-clock time of this timestamp, in its own zone.
    pub fn time(&self) -> (r: TimeOfDay)
        ensures
            r == self.time_of_day(),
    {
        TimeOfDay { hour: self.hour, minute: self.minute, second: self.second }
    }

    /// The span from `earlier` to `self`; negative when `self` comes first.
    pub fn signed_duration_since(&self, earlier: &Timestamp) -> (r: Duration)
        requires
            self.wf(),
            earlier.wf(),
        ensures
            r.seconds == self.instant() - earlier.instant(),
    {
        Duration { seconds: self.to_instant() - earlier.to_instant() }
    }
}

/// What chrono reads from a string in the format `%Y-%m-%dT%H:%M:%S%z`, or
/// `None` where it refuses the string.
pub uninterp spec fn parsed_timestamp(s: Seq<char>) -> Option<Timestamp>;

/// Relies on chrono's `DateTime::parse_from_str` with the format
/// `%Y-%m-%dT%H:%M:%S%z`, and on `Datelike`, `Timelike` and
/// `FixedOffset::local_minus_utc` to read the result: the outcome depends on
/// the string alone; a parsed value is a real date of chrono's year range,
/// `second()` is below 60 and an offset is under a day; a string with a
/// four-digit year, two-digit fields and a `±HHMM` offset reads as exactly
/// the fields it spells, `-0000` as an offset of zero.
#[verifier::external_body]
fn chrono_parse(s: &str) -> (r: Result<Timestamp, chrono::ParseError>)
    ensures
        r is Ok <==> parsed_timestamp(s@) is Some,
        r is Ok ==> parsed_timestamp(s@) == Some(r->Ok_0) && r->Ok_0.wf(),
        forall|t: Timestamp| t.has_text() && t.spells(s@) ==> (r is Ok && r->Ok_0 == t),
{
    let d = chrono::DateTime::parse_from_str(s, "%Y-%m-%dT%H:%M:%S%z")?;
    Ok(Timestamp {
        year: d.year(),
        month: d.month(),
        day: d.day(),
        hour: d.hour(),
        minute: d.minute(),
        second: d.second(),
        offset: d.offset().local_minus_utc(),
    })
}

/// Reads a timestamp of the form `YYYY-MM-DDTHH:MM:SS±HHMM`.
pub fn parse_timestamp(s: &str) -> (r: Result<Timestamp, SbbError>)
    ensures
        match parsed_timestamp(s@) {
            Some(t) => r == Ok::<Timestamp, SbbError>(t) && t.wf(),
            None => r == Err::<Timestamp, SbbError>(SbbError::BadTimestamp),
        },
        forall|t: Timestamp| t.has_text() && t.spells(s@) ==> r == Ok::<Timestamp, SbbError>(t),
{
    match chrono_parse(s) {
        Ok(t) => Ok(t),
        Err(_) => Err(SbbError::BadTimestamp),
    }
}

impl TimeOfDay {
    /// `HH:MM:SS`.
    pub fn to_text(&self) -> (r: String)
        requires
            self.hour < 100,
            self.minute < 100,
            self.second < 100,
        ensures
            r@ == self.text(),
    {
        let mut s = String::new();
        proof { reveal_strlit(":"); }
        push_pad2(&mut s, self.hour as u64);
        s.append(":");
        push_pad2(&mut s, self.minute as u64);
        s.append(":");
        push_pad2(&mut s, self.second as u64);
        assert(s@ =~= self.text());
        s
    }
}

impl Timestamp {
    /// `YYYY-MM-DDTHH:MM:SS±HHMM`, the form that `parse_timestamp` reads back.
    pub fn to_text(&self) -> (r: String)
        requires
            self.has_text(),
        ensures
            r@ == self.text(),
    {
        let mut s = String::new();
        proof {
            reveal_strlit("-");
            reveal_strlit("T");
            reveal_strlit(":");
            reveal_strlit("+");
        }
        let y = self.year as u64;
        push_pad2(&mut s, y / 100);
        push_pad2(&mut s, y % 100);
        s.append("-");
        push_pad2(&mut s, self.month as u64);
        s.append("-");
        push_pad2(&mut s, self.day as u64);
        s.append("T");
        push_pad2(&mut s, self.hour as u64);
        s.append(":");
        push_pad2(&mut s, self.minute as u64);
        s.append(":");
        push_pad2(&mut s, self.second as u64);
        let mag: u64 = if self.offset < 0 {
            s.append("-");
            (-(self.offset as i64)) as u64
        } else {
            s.append("+");
            self.offset as u64
        };
        push_pad2(&mut s, mag / 3600);
        push_pad2(&mut s, (mag % 3600) / 60);
        assert(s@ =~= self.text());
        s
    }
}

/// A leg that leaves one day and arrives the next day of the same month, in
/// the same zone, lasts a day less the time already passed on the first day
/// plus the time passed on the second: across midnight its duration is still
/// the difference of the instants, and never negative.
pub proof fn lemma_duration_across_midnight(departure: Timestamp, arrival: Timestamp)
    requires
        departure.wf(),
        arrival.wf(),
        arrival.year == departure.year,
        arrival.month == departure.month,
        arrival.day == departure.day + 1,
        arrival.offset == departure.offset,
    ensures
        arrival.instant() - departure.instant() == 86400 + (arrival.hour * 3600
            + arrival.minute * 60 + arrival.second) - (departure.hour * 3600 + departure.minute
            * 60 + departure.second),
        arrival.instant() - departure.instant() > 0,
        whole_minutes(arrival.instant() - departure.instant()) >= 0,
{
}

/// The text of a timestamp and its pieces at their fixed places.
proof fn lemma_text_pieces(t: Timestamp)
    requires
        t.has_text(),
    ensures
        t.text().len() == 24,
        t.text().subrange(0, 2) == pad2((t.year as nat) / 100),
        t.text().subrange(2, 4) == pad2((t.year as nat) % 100),
        t.text().subrange(5, 7) == pad2(t.month as nat),
        t.text().subrange(8, 10) == pad2(t.day as nat),
        t.text().subrange(11, 13) == pad2(t.hour as nat),
        t.text().subrange(14, 16) == pad2(t.minute as nat),
        t.text().subrange(17, 19) == pad2(t.second as nat),
        t.text()[19] == if t.offset < 0 { '-' } else { '+' },
        t.text().subrange(20, 22) == pad2(
            (if t.offset < 0 { (-t.offset) as nat } else { t.offset as nat }) / 3600,
        ),
        t.text().subrange(22, 24) == pad2(
            ((if t.offset < 0 { (-t.offset) as nat } else { t.offset as nat }) % 3600) / 60,
        ),
{
    let mag: nat = if t.offset < 0 { (-t.offset) as nat } else { t.offset as nat };
    let s = t.text();
    assert(s.subrange(0, 2) =~= pad2((t.year as nat) / 100));
    assert(s.subrange(2, 4) =~= pad2((t.year as nat) % 100));
    assert(s.subrange(5, 7) =~= pad2(t.month as nat));
    assert(s.subrange(8, 10) =~= pad2(t.day as nat));
    assert(s.subrange(11, 13) =~= pad2(t.hour as nat));
    assert(s.subrange(14, 16) =~= pad2(t.minute as nat));
    assert(s.subrange(17, 19) =~= pad2(t.second as nat));
    assert(s.subrange(20, 22) =~= pad2(mag / 3600));
    assert(s.subrange(22, 24) =~= pad2((mag % 3600) / 60));
}

/// Two texts that agree everywhere but at the sign of the offset are those of
/// timestamps with the same fields and offsets of the same size.
proof fn lemma_text_agrees(a: Timestamp, b: Timestamp)
    requires
        a.has_text(),
        b.has_text(),
        forall|i: int| 0 <= i < 24 && i != 19 ==> a.text()[i] == b.text()[i],
    ensures
        a.year == b.year,
        a.month == b.month,
        a.day == b.day,
        a.hour == b.hour,
        a.minute == b.minute,
        a.second == b.second,
        a.offset == b.offset || a.offset == -b.offset,
{
    lemma_text_pieces(a);
    lemma_text_pieces(b);
    let (ta, tb) = (a.text(), b.text());
    assert(ta.subrange(0, 2) =~= tb.subrange(0, 2));
    assert(ta.subrange(2, 4) =~= tb.subrange(2, 4));
    assert(ta.subrange(5, 7) =~= tb.subrange(5, 7));
    assert(ta.subrange(8, 10) =~= tb.subrange(8, 10));
    assert(ta.subrange(11, 13) =~= tb.subrange(11, 13));
    assert(ta.subrange(14, 16) =~= tb.subrange(14, 16));
    assert(ta.subrange(17, 19) =~= tb.subrange(17, 19));
    assert(ta.subrange(20, 22) =~= tb.subrange(20, 22));
    assert(ta.subrange(22, 24) =~= tb.subrange(22, 24));
    let ya = a.year as nat;
    let yb = b.year as nat;
    lemma_pad2_injective(ya / 100, yb / 100);
    lemma_pad2_injective(ya % 100, yb % 100);
    assert(ya == yb) by (nonlinear_arith)
        requires
            ya / 100 == yb / 100,
            ya % 100 == yb % 100,
    {
    }
    lemma_pad2_injective(a.month as nat, b.month as nat);
    lemma_pad2_injective(a.day as nat, b.day as nat);
    lemma_pad2_injective(a.hour as nat, b.hour as nat);
    lemma_pad2_injective(a.minute as nat, b.minute as nat);
    lemma_pad2_injective(a.second as nat, b.second as nat);
    let ma: nat = if a.offset < 0 { (-a.offset) as nat } else { a.offset as nat };
    let mb: nat = if b.offset < 0 { (-b.offset) as nat } else { b.offset as nat };
    assert(ma < 86400 && mb < 86400);
    assert(ma / 3600 < 100 && mb / 3600 < 100) by (nonlinear_arith)
        requires
            ma < 86400,
            mb < 86400,
    {
    }
    assert((ma % 3600) / 60 < 100 && (mb % 3600) / 60 < 100) by (nonlinear_arith)
        requires
            ma < 86400,
            mb < 86400,
    {
    }
    lemma_pad2_injective(ma / 3600, mb / 3600);
    lemma_pad2_injective((ma % 3600) / 60, (mb % 3600) / 60);
    assert(ma % 60 == 0 && mb % 60 == 0) by (nonlinear_arith)
        requires
            a.offset % 60 == 0,
            b.offset % 60 == 0,
            ma == a.offset || ma == -a.offset,
            mb == b.offset || mb == -b.offset,
    {
    }
    assert(ma == mb) by (nonlinear_arith)
        requires
            ma / 3600 == mb / 3600,
            (ma % 3600) / 60 == (mb % 3600) / 60,
            ma % 60 == 0,
            mb % 60 == 0,
    {
    }
}

/// A text spells at most one timestamp, so reading back the text of a
/// timestamp can give only that timestamp.
pub proof fn lemma_spelling_unique(a: Timestamp, b: Timestamp, s: Seq<char>)
    requires
        a.has_text(),
        b.has_text(),
        a.spells(s),
        b.spells(s),
    ensures
        a == b,
{
    lemma_text_pieces(a);
    lemma_text_pieces(b);
    assert forall|i: int| 0 <= i < 24 && i != 19 implies a.text()[i] == b.text()[i] by {
        assert(s[i] == a.text()[i]);
        assert(s[i] == b.text()[i]);
    }
    lemma_text_agrees(a, b);
    if a.offset != 0 {
        assert(s == a.text() && s == b.text());
        assert(a.text()[19] == b.text()[19]);
    }
}

} // verus!
