use vstd::prelude::*;
use chrono::{Datelike, TimeZone, Timelike};
use crate::model::{Recurrence, TimetableEntry};
use crate::text::{
    chars_of, push_all, same_chars, slice_chars, split_chars, split_on, string_of,
    to_upper, trim, trim_chars, trim_end, trim_start, is_white, upper_seq, views, opt_view,
};

verus! {

/// One property line of a calendar event: its name and its value.
pub struct Property {
    pub name: String,
    pub value: Option<String>,
}

pub open spec fn prop_view(p: Property) -> (Seq<char>, Option<Seq<char>>) {
    (p.name@, opt_view(p.value))
}

pub open spec fn props_view(ps: Seq<Property>) -> Seq<(Seq<char>, Option<Seq<char>>)> {
    ps.map_values(|p: Property| prop_view(p))
}

pub open spec fn events_view(es: Seq<Vec<Property>>) -> Seq<Seq<(Seq<char>, Option<Seq<char>>)>> {
    es.map_values(|e: Vec<Property>| props_view(e@))
}

/// The events that the calendar parser reads from a feed, each as its
/// property lines, in feed order.
pub uninterp spec fn events_of(content: Seq<char>) -> Seq<Seq<(Seq<char>, Option<Seq<char>>)>>;

/// Relies on `ical::IcalParser`: the events of every calendar block that
/// parses, in order, each with its properties' names and values; blocks that
/// fail to parse are left out.
#[verifier::external_body]
fn feed_events(content: &str) -> (r: Vec<Vec<Property>>)
    ensures
        events_view(r@) == events_of(content@),
{
    let mut out = Vec::new();
    for calendar in ical::IcalParser::new(std::io::Cursor::new(content.as_bytes())).flatten() {
        for event in calendar.events {
            out.push(event.properties.into_iter().map(|p| Property { name: p.name, value: p.value }).collect());
        }
    }
    out
}

/// A point in local time, as the calendar shows it.
#[derive(Clone, Copy, PartialEq, Eq, Structural)]
pub struct Stamp {
    pub year: i32,
    pub month: u32,
    pub day: u32,
    pub hour: u32,
    pub minute: u32,
    /// Seconds since the Unix epoch.
    pub timestamp: i64,
}

impl Stamp {
    /// The field ranges of a calendar date and a time of day.
    pub open spec fn wf(&self) -> bool {
        1 <= self.month <= 12 && 1 <= self.day <= 31 && self.hour < 24 && self.minute < 60
    }
}

/// What a local wall-clock time stands for in the local time zone.
pub enum LocalChoice {
    Single(Stamp),
    /// A time repeated by a daylight-saving fall-back transition.
    Ambiguous(Stamp, Stamp),
    /// A time skipped by a spring-forward transition.
    Gap,
}

/// A calendar date and time of day as written, without a time zone.
#[derive(Clone, Copy, PartialEq, Eq, Structural)]
pub struct Civil {
    pub year: i32,
    pub month: u32,
    pub day: u32,
    pub hour: u32,
    pub minute: u32,
    pub second: u32,
}

pub open spec fn is_leap(y: int) -> bool {
    y % 4 == 0 && (y % 100 != 0 || y % 400 == 0)
}

pub open spec fn days_in_month(y: int, m: int) -> int {
    if m == 2 {
        if is_leap(y) { 29 } else { 28 }
    } else if m == 4 || m == 6 || m == 9 || m == 11 {
        30
    } else {
        31
    }
}

/// Year, month, day, hour, minute and second.
pub type Fields = (int, int, int, int, int, int);

/// The fields name a day of the calendar and a time of day.
pub open spec fn fields_valid(t: Fields) -> bool {
    1 <= t.1 <= 12 && 1 <= t.2 <= days_in_month(t.0, t.1) && 0 <= t.3 < 24 && 0 <= t.4 < 60 && 0 <= t.5 < 60
}

/// Fields that a date parser refuses: not valid, and no leap second.
pub open spec fn fields_rejected(t: Fields) -> bool {
    !fields_valid(t) && t.5 != 60
}

impl Civil {
    pub open spec fn fields(&self) -> Fields {
        (self.year as int, self.month as int, self.day as int, self.hour as int, self.minute as int, self.second as int)
    }

    pub open spec fn valid(&self) -> bool {
        fields_valid(self.fields())
    }
}

pub open spec fn is_digit(c: char) -> bool {
    '0' <= c && c <= '9'
}

pub open spec fn is_letter(c: char) -> bool {
    ('a' <= c && c <= 'z') || ('A' <= c && c <= 'Z')
}

pub open spec fn digit_value(c: char) -> int {
    (c as u32) as int - 48
}

pub open spec fn all_digits(s: Seq<char>, a: int, b: int) -> bool {
    forall|i: int| a <= i < b ==> is_digit(s[i])
}

/// The number written by the two digits at `i`.
pub open spec fn two_at(s: Seq<char>, i: int) -> int {
    digit_value(s[i]) * 10 + digit_value(s[i + 1])
}

/// `YYYYMMDD`.
pub open spec fn day_shape(s: Seq<char>) -> bool {
    s.len() == 8 && all_digits(s, 0, 8)
}

/// `YYYYMMDDTHHMM`.
pub open spec fn minute_shape(s: Seq<char>) -> bool {
    s.len() == 13 && all_digits(s, 0, 8) && s[8] == 'T' && all_digits(s, 9, 13)
}

/// `YYYYMMDDTHHMMSS`.
pub open spec fn second_shape(s: Seq<char>) -> bool {
    s.len() == 15 && all_digits(s, 0, 8) && s[8] == 'T' && all_digits(s, 9, 15)
}

pub open spec fn shaped(s: Seq<char>) -> bool {
    day_shape(s) || minute_shape(s) || second_shape(s)
}

/// The fields written by a value of one of the three shapes; a missing time
/// of day is midnight, missing seconds are zero.
pub open spec fn fields_of(s: Seq<char>) -> Fields {
    (
        two_at(s, 0) * 100 + two_at(s, 2),
        two_at(s, 4),
        two_at(s, 6),
        if s.len() >= 13 { two_at(s, 9) } else { 0 },
        if s.len() >= 13 { two_at(s, 11) } else { 0 },
        if s.len() >= 15 { two_at(s, 13) } else { 0 },
    )
}

proof fn lemma_year_of_shape(s: Seq<char>)
    requires
        shaped(s),
    ensures
        0 <= fields_of(s).0 <= 9999,
{
    let (a, b, c, d) = (digit_value(s[0]), digit_value(s[1]), digit_value(s[2]), digit_value(s[3]));
    assert(0 <= a <= 9 && 0 <= b <= 9 && 0 <= c <= 9 && 0 <= d <= 9);
    assert(0 <= (a * 10 + b) * 100 + (c * 10 + d) <= 9999) by (nonlinear_arith)
        requires
            0 <= a <= 9,
            0 <= b <= 9,
            0 <= c <= 9,
            0 <= d <= 9,
    ;
}

/// Days from 1970-01-01 to the given day of the proleptic Gregorian calendar.
pub open spec fn days_from_civil(y: int, m: int, d: int) -> int {
    let yy = if m <= 2 { y - 1 } else { y };
    let era = yy / 400;
    let yoe = yy - era * 400;
    let mp = if m > 2 { m - 3 } else { m + 9 };
    let doy = (153 * mp + 2) / 5 + d - 1;
    let doe = yoe * 365 + yoe / 4 - yoe / 100 + doy;
    era * 146097 + doe - 719468
}

/// Seconds since the Unix epoch of the fields read as UTC.
pub open spec fn unix_seconds(t: Fields) -> int {
    days_from_civil(t.0, t.1, t.2) * 86400 + t.3 * 3600 + t.4 * 60 + t.5
}

/// The stamp shows the fields' date, hour and minute.
pub open spec fn shows(s: Stamp, t: Fields) -> bool {
    s.year as int == t.0 && s.month as int == t.1 && s.day as int == t.2 && s.hour as int == t.3 && s.minute as int == t.4
}

/// The fields of an optional civil time.
pub open spec fn civil_view(r: Option<Civil>) -> Option<Fields> {
    match r {
        Some(c) => Some(c.fields()),
        None => None,
    }
}

/// The fields that chrono reads from a value with a date-time format.
pub uninterp spec fn date_time_read(value: Seq<char>, fmt: Seq<char>) -> Option<Fields>;

/// The fields (at midnight) that chrono reads from a value with a date format.
pub uninterp spec fn day_read(value: Seq<char>, fmt: Seq<char>) -> Option<Fields>;

/// The instant, in seconds since the Unix epoch, of an RFC 3339 timestamp.
pub uninterp spec fn rfc3339_instant(value: Seq<char>) -> Option<int>;

/// Relies on `chrono::NaiveDateTime::parse_from_str`. chrono reads `%Y` as up
/// to four digits and the other fields as up to two, refuses out-of-range
/// fields (a second of 60 aside) and days that do not exist, and refuses
/// text left over or missing.
#[verifier::external_body]
fn parse_date_time(value: &str, fmt: &str) -> (r: Option<Civil>)
    requires
        fmt@ == "%Y%m%dT%H%M%S"@ || fmt@ == "%Y%m%dT%H%M"@,
    ensures
        civil_view(r) == date_time_read(value@, fmt@),
        r matches Some(c) ==> c.valid(),
        value@.len() == 0 || is_letter(value@[0]) ==> r is None,
        fmt@ == "%Y%m%dT%H%M%S"@ && second_shape(value@) && fields_valid(fields_of(value@)) ==> r is Some,
        r matches Some(c) ==> (fmt@ == "%Y%m%dT%H%M%S"@ && second_shape(value@) && fields_valid(fields_of(value@)) ==> c.fields() == fields_of(value@)),
        fmt@ == "%Y%m%dT%H%M%S"@ && second_shape(value@) && fields_rejected(fields_of(value@)) ==> r is None,
        fmt@ == "%Y%m%dT%H%M%S"@ && (minute_shape(value@) || day_shape(value@)) ==> r is None,
        fmt@ == "%Y%m%dT%H%M"@ && minute_shape(value@) && fields_valid(fields_of(value@)) ==> r is Some,
        r matches Some(c) ==> (fmt@ == "%Y%m%dT%H%M"@ && minute_shape(value@) && fields_valid(fields_of(value@)) ==> c.fields() == fields_of(value@)),
        fmt@ == "%Y%m%dT%H%M"@ && minute_shape(value@) && fields_rejected(fields_of(value@)) ==> r is None,
        fmt@ == "%Y%m%dT%H%M"@ && (second_shape(value@) || day_shape(value@)) ==> r is None,
{
    let n = chrono::NaiveDateTime::parse_from_str(value, fmt).ok()?;
    Some(Civil { year: n.year(), month: n.month(), day: n.day(), hour: n.hour(), minute: n.minute(), second: n.second() })
}

/// Relies on `chrono::NaiveDate::parse_from_str`, read as midnight of the
/// day: the same reading of the digits as for date-times.
#[verifier::external_body]
fn parse_day(value: &str, fmt: &str) -> (r: Option<Civil>)
    requires
        fmt@ == "%Y%m%d"@,
    ensures
        civil_view(r) == day_read(value@, fmt@),
        r matches Some(c) ==> c.valid() && c.hour == 0 && c.minute == 0 && c.second == 0,
        value@.len() == 0 || is_letter(value@[0]) ==> r is None,
        fmt@ == "%Y%m%d"@ && day_shape(value@) && fields_valid(fields_of(value@)) ==> r is Some,
        r matches Some(c) ==> (fmt@ == "%Y%m%d"@ && day_shape(value@) && fields_valid(fields_of(value@)) ==> c.fields() == fields_of(value@)),
        fmt@ == "%Y%m%d"@ && day_shape(value@) && fields_rejected(fields_of(value@)) ==> r is None,
        fmt@ == "%Y%m%d"@ && (minute_shape(value@) || second_shape(value@)) ==> r is None,
{
    let d = chrono::NaiveDate::parse_from_str(value, fmt).ok()?;
    Some(Civil { year: d.year(), month: d.month(), day: d.day(), hour: 0, minute: 0, second: 0 })
}

/// Relies on `chrono::NaiveDate::from_ymd_opt`, `and_hms_opt`,
/// `Utc.from_utc_datetime` and `with_timezone(&Local)`: the UTC time in the
/// process's local zone, the same instant; chrono keeps the fields in range.
#[verifier::external_body]
fn utc_in_local(c: Civil) -> (r: Option<Stamp>)
    ensures
        c.valid() && 0 <= c.year <= 9999 ==> r is Some,
        r matches Some(s) ==> s.timestamp == unix_seconds(c.fields()),
        r matches Some(s) ==> s.wf(),
{
    let n = chrono::NaiveDate::from_ymd_opt(c.year, c.month, c.day)?.and_hms_opt(c.hour, c.minute, c.second)?;
    let d = chrono::Utc.from_utc_datetime(&n).with_timezone(&chrono::Local);
    Some(Stamp { year: d.year(), month: d.month(), day: d.day(), hour: d.hour(), minute: d.minute(), timestamp: d.timestamp() })
}

/// Relies on `chrono::NaiveDate::from_ymd_opt`, `and_hms_opt` and
/// `Local.from_local_datetime`: the instants that a local wall-clock time
/// stands for, each showing that wall-clock time.
#[verifier::external_body]
fn local_choice(c: Civil) -> (r: Option<LocalChoice>)
    ensures
        c.valid() && 0 <= c.year <= 9999 ==> r is Some,
        r matches Some(LocalChoice::Single(s)) ==> s.wf() && shows(s, c.fields()),
        r matches Some(LocalChoice::Ambiguous(a, b)) ==> a.wf() && b.wf() && shows(a, c.fields()) && shows(b, c.fields()),
{
    let n = chrono::NaiveDate::from_ymd_opt(c.year, c.month, c.day)?.and_hms_opt(c.hour, c.minute, c.second)?;
    let st = |d: chrono::DateTime<chrono::Local>| Stamp { year: d.year(), month: d.month(), day: d.day(), hour: d.hour(), minute: d.minute(), timestamp: d.timestamp() };
    Some(match chrono::Local.from_local_datetime(&n) {
        chrono::LocalResult::Single(d) => LocalChoice::Single(st(d)),
        chrono::LocalResult::Ambiguous(a, b) => LocalChoice::Ambiguous(st(a), st(b)),
        chrono::LocalResult::None => LocalChoice::Gap,
    })
}

/// Relies on `chrono::DateTime::parse_from_rfc3339` and
/// `with_timezone(&Local)`: the instant of the timestamp, `None` where the
/// value is none; an RFC 3339 timestamp starts with a four-digit year and a
/// `-` and holds a time of day with `:`.
#[verifier::external_body]
fn rfc3339_in_local(value: &str) -> (r: Option<Stamp>)
    ensures
        r is Some <==> rfc3339_instant(value@) is Some,
        r matches Some(s) ==> rfc3339_instant(value@) == Some(s.timestamp as int),
        r matches Some(s) ==> s.wf(),
        (forall|i: int| 0 <= i < value@.len() ==> value@[i] != ':') ==> r is None,
        value@.len() == 0 || is_letter(value@[0]) ==> r is None,
        (forall|i: int| 0 <= i < value@.len() ==> value@[i] != '-') ==> r is None,
{
    let d = chrono::DateTime::parse_from_rfc3339(value).ok()?.with_timezone(&chrono::Local);
    Some(Stamp { year: d.year(), month: d.month(), day: d.day(), hour: d.hour(), minute: d.minute(), timestamp: d.timestamp() })
}

/// The policy for local times around daylight-saving transitions: a repeated
/// time takes the earlier instant, a skipped time is read as UTC.
pub fn resolve_local(choice: LocalChoice, as_utc: Stamp) -> (r: Stamp)
    ensures
        r == match choice {
            LocalChoice::Single(s) => s,
            LocalChoice::Ambiguous(a, b) => if a.timestamp <= b.timestamp { a } else { b },
            LocalChoice::Gap => as_utc,
        },
{
    match choice {
        LocalChoice::Single(s) => s,
        LocalChoice::Ambiguous(a, b) => if a.timestamp <= b.timestamp { a } else { b },
        LocalChoice::Gap => as_utc,
    }
}

/// The local reading of a wall-clock time, resolved by `resolve_local`: it
/// shows that wall-clock time, unless the time was skipped and read as UTC.
fn to_local(c: Civil) -> (r: Option<Stamp>)
    ensures
        c.valid() && 0 <= c.year <= 9999 ==> r is Some,
        r matches Some(s) ==> (shows(s, c.fields()) || s.timestamp == unix_seconds(c.fields())),
        r matches Some(s) ==> s.wf(),
{
    match (local_choice(c), utc_in_local(c)) {
        (Some(choice), Some(utc)) => Some(resolve_local(choice, utc)),
        _ => None,
    }
}

/// The position after the last `':'` of `s`, or 0.
pub open spec fn after_last_colon(s: Seq<char>) -> int
    decreases s.len(),
{
    if s.len() == 0 {
        0
    } else if s.last() == ':' {
        s.len() as int
    } else {
        after_last_colon(s.drop_last())
    }
}

/// A date-time value without its parameter prefix: the trimmed text after
/// the last colon.
pub open spec fn date_value(raw: Seq<char>) -> Seq<char> {
    let t = trim(raw);
    trim(t.subrange(after_last_colon(t), t.len() as int))
}

proof fn lemma_after_last_colon_bound(s: Seq<char>)
    ensures
        0 <= after_last_colon(s) <= s.len(),
    decreases s.len(),
{
    if s.len() > 0 {
        lemma_after_last_colon_bound(s.drop_last());
    }
}

/// The value of a date-time property without its parameter prefix.
pub fn strip_params(raw: &Vec<char>) -> (r: Vec<char>)
    ensures
        r@ == date_value(raw@),
{
    let t = trim_chars(raw);
    let mut k: usize = t.len();
    assert(t@.subrange(0, t.len() as int) =~= t@);
    while k > 0 && t[k - 1] != ':'
        invariant
            k <= t.len(),
            after_last_colon(t@) == after_last_colon(t@.subrange(0, k as int)),
        decreases k,
    {
        assert(t@.subrange(0, k as int).drop_last() =~= t@.subrange(0, k - 1));
        k = k - 1;
    }
    assert(t@.subrange(0, t.len() as int) =~= t@);
    proof {
        if k > 0 {
            assert(t@.subrange(0, k as int).last() == ':');
        }
    }
    trim_chars(&slice_chars(&t, k, t.len()))
}

/// The first reading of a value that chrono accepts: with seconds, without
/// seconds, or a bare date at midnight.
pub open spec fn first_reading(v: Seq<char>) -> Option<Fields> {
    if date_time_read(v, "%Y%m%dT%H%M%S"@) is Some {
        date_time_read(v, "%Y%m%dT%H%M%S"@)
    } else if date_time_read(v, "%Y%m%dT%H%M"@) is Some {
        date_time_read(v, "%Y%m%dT%H%M"@)
    } else {
        day_read(v, "%Y%m%d"@)
    }
}

/// A value ending in `Z`, read as UTC without that letter: a value of one of
/// the shapes gives its instant, or nothing where its fields are refused.
pub open spec fn utc_reading(b: Seq<char>, r: Option<Stamp>) -> bool {
    &&& (shaped(b) && fields_valid(fields_of(b)) ==> (r matches Some(s) && s.timestamp == unix_seconds(fields_of(b))))
    &&& (shaped(b) && fields_rejected(fields_of(b)) ==> r is None)
    &&& (b.len() == 0 || is_letter(b[0]) ==> r is None)
    &&& (first_reading(b) is None ==> r is None)
    &&& ((first_reading(b) matches Some(t) && 0 <= t.0 <= 9999) ==> r is Some)
    &&& (r matches Some(s) ==> (first_reading(b) matches Some(t) && s.timestamp == unix_seconds(t)))
}

/// A value read as local time: a value of one of the shapes shows its own
/// date and time (or, for a time that the zone skips, the same time as UTC),
/// and a value that no reading accepts gives nothing. (A value holds no
/// colon, so it is never an RFC 3339 timestamp.)
pub open spec fn local_reading(v: Seq<char>, r: Option<Stamp>) -> bool {
    &&& (shaped(v) && fields_valid(fields_of(v)) ==> (r matches Some(s) && (shows(s, fields_of(v)) || s.timestamp == unix_seconds(fields_of(v)))))
    &&& (shaped(v) && fields_rejected(fields_of(v)) ==> r is None)
    &&& (is_letter(v[0]) ==> r is None)
    &&& (first_reading(v) is None ==> r is None)
    &&& ((first_reading(v) matches Some(t) && 0 <= t.0 <= 9999) ==> r is Some)
    &&& (r matches Some(s) ==> (first_reading(v) matches Some(t) && (shows(s, t) || s.timestamp == unix_seconds(t))))
}

/// `r` is a reading of the date-time property value `raw`.
pub open spec fn date_reading(raw: Seq<char>, r: Option<Stamp>) -> bool {
    let v = date_value(raw);
    &&& (r matches Some(s) ==> s.wf())
    &&& (v.len() == 0 ==> r is None)
    &&& (v.len() > 0 && v.last() == 'Z' ==> utc_reading(v.drop_last(), r))
    &&& (v.len() > 0 && v.last() != 'Z' ==> local_reading(v, r))
}

proof fn lemma_after_colon_free(s: Seq<char>)
    ensures
        forall|i: int| after_last_colon(s) <= i < s.len() ==> s[i] != ':',
    decreases s.len(),
{
    lemma_after_last_colon_bound(s);
    if s.len() > 0 && s.last() != ':' {
        lemma_after_colon_free(s.drop_last());
        assert forall|i: int| after_last_colon(s) <= i < s.len() implies s[i] != ':' by {
            if i < s.len() - 1 {
                assert(s.drop_last()[i] == s[i]);
            }
        };
    }
}

proof fn lemma_trim_start_free(s: Seq<char>)
    requires
        forall|i: int| 0 <= i < s.len() ==> s[i] != ':',
    ensures
        forall|i: int| 0 <= i < trim_start(s).len() ==> trim_start(s)[i] != ':',
    decreases s.len(),
{
    if s.len() > 0 && is_white(s[0]) {
        assert forall|i: int| 0 <= i < s.drop_first().len() implies s.drop_first()[i] != ':' by {
            assert(s.drop_first()[i] == s[i + 1]);
        };
        lemma_trim_start_free(s.drop_first());
        assert(trim_start(s) == trim_start(s.drop_first()));
    } else {
        assert(trim_start(s) == s);
    }
}

proof fn lemma_trim_end_free(s: Seq<char>)
    requires
        forall|i: int| 0 <= i < s.len() ==> s[i] != ':',
    ensures
        forall|i: int| 0 <= i < trim_end(s).len() ==> trim_end(s)[i] != ':',
    decreases s.len(),
{
    if s.len() > 0 && is_white(s.last()) {
        assert forall|i: int| 0 <= i < s.drop_last().len() implies s.drop_last()[i] != ':' by {
            assert(s.drop_last()[i] == s[i]);
        };
        lemma_trim_end_free(s.drop_last());
        assert(trim_end(s) == trim_end(s.drop_last()));
    } else {
        assert(trim_end(s) == s);
    }
}

/// A date-time value holds no colon.
proof fn lemma_date_value_free(raw: Seq<char>)
    ensures
        forall|i: int| 0 <= i < date_value(raw).len() ==> date_value(raw)[i] != ':',
{
    let t = trim(raw);
    lemma_after_last_colon_bound(t);
    lemma_after_colon_free(t);
    let u = t.subrange(after_last_colon(t), t.len() as int);
    assert forall|i: int| 0 <= i < u.len() implies u[i] != ':' by {
        assert(u[i] == t[i + after_last_colon(t)]);
    };
    lemma_trim_start_free(u);
    lemma_trim_end_free(trim_start(u));
}

proof fn lemma_shaped_no_dash(v: Seq<char>)
    requires
        shaped(v),
    ensures
        forall|i: int| 0 <= i < v.len() ==> v[i] != '-',
{
    assert forall|i: int| 0 <= i < v.len() implies v[i] != '-' by {
        if i != 8 {
            assert(is_digit(v[i]));
        }
    };
}

/// Reads the fields of a value: with seconds, without seconds, or a bare date.
fn parse_fields(value: &str) -> (r: Option<Civil>)
    ensures
        civil_view(r) == first_reading(value@),
        r matches Some(c) ==> c.valid(),
        shaped(value@) && fields_valid(fields_of(value@)) ==> (r matches Some(c) && c.fields() == fields_of(value@)),
        shaped(value@) && fields_rejected(fields_of(value@)) ==> r is None,
        value@.len() == 0 || is_letter(value@[0]) ==> r is None,
{
    match parse_date_time(value, "%Y%m%dT%H%M%S") {
        Some(c) => Some(c),
        None => match parse_date_time(value, "%Y%m%dT%H%M") {
            Some(c) => Some(c),
            None => parse_day(value, "%Y%m%d"),
        },
    }
}

/// Reads a calendar date-time value: a bare date, a date-time with or
/// without seconds (a trailing `Z` marks UTC), or an RFC 3339 timestamp,
/// in the local time zone.
pub fn parse_ics_date(raw: &str) -> (r: Option<Stamp>)
    ensures
        date_reading(raw@, r),
{
    let value = strip_params(&chars_of(raw));
    if value.len() == 0 {
        return None;
    }
    if value[value.len() - 1] == 'Z' {
        let bare = string_of(&slice_chars(&value, 0, value.len() - 1));
        assert(bare@ =~= value@.drop_last());
        match parse_fields(bare.as_str()) {
            Some(c) => {
                proof {
                    if shaped(bare@) {
                        lemma_year_of_shape(bare@);
                    }
                }
                utc_in_local(c)
            },
            None => None,
        }
    } else {
        let text = string_of(&value);
        match parse_fields(text.as_str()) {
            Some(c) => {
                proof {
                    if shaped(text@) {
                        lemma_year_of_shape(text@);
                    }
                }
                to_local(c)
            },
            None => {
                proof {
                    if shaped(text@) {
                        lemma_shaped_no_dash(text@);
                    }
                    lemma_date_value_free(raw@);
                }
                rfc3339_in_local(text.as_str())
            },
        }
    }
}

pub open spec fn digit(d: u32) -> char {
    ((d + 48) as u32) as char
}

/// `n` in two decimal digits.
pub open spec fn two_digits(n: u32) -> Seq<char> {
    seq![digit(n / 10), digit(n % 10)]
}

/// `n` in decimal digits.
pub open spec fn decimal(n: nat) -> Seq<char>
    decreases n,
{
    if n < 10 {
        seq![digit(n as u32)]
    } else {
        decimal(n / 10).push(digit((n % 10) as u32))
    }
}

/// `s` with zeros in front up to width `w`.
pub open spec fn pad_to(s: Seq<char>, w: nat) -> Seq<char>
    decreases w - s.len(),
{
    if s.len() >= w {
        s
    } else {
        pad_to(seq!['0'] + s, w)
    }
}

/// A year as `%Y` prints it: four digits at least, with a sign outside 0 to 9999.
pub open spec fn year_spec(y: int) -> Seq<char> {
    if 0 <= y <= 9999 {
        pad_to(decimal(y as nat), 4)
    } else if y < 0 {
        seq!['-'] + pad_to(decimal((-y) as nat), 4)
    } else {
        seq!['+'] + pad_to(decimal(y as nat), 4)
    }
}

/// The date as `YYYY-MM-DD`.
pub open spec fn date_spec(s: Stamp) -> Seq<char> {
    year_spec(s.year as int) + seq!['-'] + two_digits(s.month) + seq!['-'] + two_digits(s.day)
}

/// The time of day as `HH:MM`.
pub open spec fn clock_spec(s: Stamp) -> Seq<char> {
    two_digits(s.hour) + seq![':'] + two_digits(s.minute)
}

/// The date text of an entry: empty where the start is unknown.
pub open spec fn date_text_spec(start: Option<Stamp>) -> Seq<char> {
    match start {
        Some(s) => date_spec(s),
        None => Seq::empty(),
    }
}

/// The time text of an entry: a range where both bounds are known, the start
/// alone where only it is, else empty.
pub open spec fn time_text_spec(start: Option<Stamp>, end: Option<Stamp>) -> Seq<char> {
    match (start, end) {
        (Some(a), Some(b)) => clock_spec(a) + " - "@ + clock_spec(b),
        (Some(a), None) => clock_spec(a),
        _ => Seq::empty(),
    }
}

fn digit_exec(d: u32) -> (r: char)
    requires
        d < 10,
    ensures
        r == digit(d),
{
    ((d as u8) + 48) as char
}

fn push_two(v: &mut Vec<char>, n: u32)
    requires
        n < 100,
    ensures
        final(v)@ == old(v)@ + two_digits(n),
{
    v.push(digit_exec(n / 10));
    v.push(digit_exec(n % 10));
    assert(final(v)@ =~= old(v)@ + two_digits(n));
}

fn year_text(y: i32) -> (r: Vec<char>)
    ensures
        r@ == year_spec(y as int),
{
    let n: u32 = if y < 0 { (-(y as i64)) as u32 } else { y as u32 };
    let mut m: u32 = n;
    let mut v: Vec<char> = Vec::new();
    while m >= 10
        invariant
            decimal(n as nat) == decimal(m as nat) + v@,
        decreases m,
    {
        let ghost before = v@;
        v.insert(0, digit_exec(m % 10));
        assert(decimal(m as nat) == decimal((m / 10) as nat).push(digit(m % 10)));
        assert(decimal(m as nat) + before =~= decimal((m / 10) as nat) + v@);
        m = m / 10;
    }
    v.insert(0, digit_exec(m));
    assert(decimal(n as nat) =~= v@);
    let ghost d = v@;
    while v.len() < 4
        invariant
            pad_to(v@, 4) == pad_to(d, 4),
        decreases 4 - v.len(),
    {
        let ghost before = v@;
        v.insert(0, '0');
        assert(v@ =~= seq!['0'] + before);
    }
    if y < 0 {
        v.insert(0, '-');
    } else if y > 9999 {
        v.insert(0, '+');
    }
    assert(v@ =~= year_spec(y as int));
    v
}

pub fn date_text(s: Stamp) -> (r: String)
    requires
        s.wf(),
    ensures
        r@ == date_spec(s),
{
    let mut v = year_text(s.year);
    v.push('-');
    push_two(&mut v, s.month);
    v.push('-');
    push_two(&mut v, s.day);
    assert(v@ =~= date_spec(s));
    string_of(&v)
}

fn push_clock(v: &mut Vec<char>, s: Stamp)
    requires
        s.wf(),
    ensures
        final(v)@ == old(v)@ + clock_spec(s),
{
    push_two(v, s.hour);
    v.push(':');
    push_two(v, s.minute);
    assert(final(v)@ =~= old(v)@ + clock_spec(s));
}

pub fn time_text(start: Option<Stamp>, end: Option<Stamp>) -> (r: String)
    requires
        start matches Some(s) ==> s.wf(),
        end matches Some(s) ==> s.wf(),
    ensures
        r@ == time_text_spec(start, end),
        start is Some && end is Some ==> r@.len() == 13,
{
    let mut v: Vec<char> = Vec::new();
    match start {
        Some(a) => {
            push_clock(&mut v, a);
            match end {
                Some(b) => {
                    push_all(&mut v, &chars_of(" - "));
                    push_clock(&mut v, b);
                    proof {
                        reveal_strlit(" - ");
                    }
                },
                None => {},
            }
        },
        None => {},
    }
    assert(v@ =~= time_text_spec(start, end));
    string_of(&v)
}

/// The value of the first property in `props` at or after `i` whose name
/// equals `name` in any ASCII case.
pub open spec fn lookup_from(props: Seq<(Seq<char>, Option<Seq<char>>)>, name: Seq<char>, i: int) -> Option<Seq<char>>
    decreases props.len() - i,
{
    if i < 0 || i >= props.len() {
        None
    } else if upper_seq(props[i].0) == upper_seq(name) {
        props[i].1
    } else {
        lookup_from(props, name, i + 1)
    }
}

pub open spec fn lookup(props: Seq<(Seq<char>, Option<Seq<char>>)>, name: Seq<char>) -> Option<Seq<char>> {
    lookup_from(props, name, 0)
}

/// The value of the first property named `name`, in any ASCII case.
pub fn property_value(props: &Vec<Property>, name: &str) -> (r: Option<String>)
    ensures
        opt_view(r) == lookup(props_view(props@), name@),
{
    let target = to_upper(&chars_of(name));
    let mut i: usize = 0;
    while i < props.len()
        invariant
            i <= props.len(),
            target@ == upper_seq(name@),
            lookup(props_view(props@), name@) == lookup_from(props_view(props@), name@, i as int),
        decreases props.len() - i,
    {
        let p = &props[i];
        assert(props_view(props@)[i as int] == prop_view(props@[i as int]));
        if same_chars(&to_upper(&chars_of(p.name.as_str())), &target) {
            return match &p.value {
                Some(v) => Some(string_of(&chars_of(v.as_str()))),
                None => None,
            };
        }
        i = i + 1;
    }
    None
}

/// The key of one `KEY=value` part of a rule: the text before the first
/// `'='`, trimmed, in upper case.
pub open spec fn part_key(part: Seq<char>) -> Seq<char> {
    upper_seq(trim(split_on(part, '=')[0]))
}

/// The value of one `KEY=value` part of a rule: the text after the first
/// `'='`, trimmed; empty where there is no `'='`.
pub open spec fn part_value(part: Seq<char>) -> Seq<char> {
    let k = split_on(part, '=')[0].len() as int;
    if k < part.len() {
        trim(part.subrange(k + 1, part.len() as int))
    } else {
        Seq::empty()
    }
}

/// The value of the first `FREQ` part at or after part `i`.
pub open spec fn freq_from(parts: Seq<Seq<char>>, i: int) -> Option<Seq<char>>
    decreases parts.len() - i,
{
    if i < 0 || i >= parts.len() {
        None
    } else if part_key(parts[i]) == "FREQ"@ {
        Some(part_value(parts[i]))
    } else {
        freq_from(parts, i + 1)
    }
}

/// The value of the first `FREQ` part of a `;`-separated rule.
pub open spec fn rule_freq(rule: Seq<char>) -> Option<Seq<char>> {
    freq_from(split_on(rule, ';'), 0)
}

/// `r` is the recurrence that a rule describes: from the value of its first
/// `FREQ` part, and none where there is no such part.
pub open spec fn rule_recurrence(rule: Seq<char>, r: Option<Recurrence>) -> bool {
    match rule_freq(rule) {
        Some(v) => Recurrence::from_freq_spec(v, r),
        None => r is None,
    }
}

proof fn lemma_split_first_len(s: Seq<char>, sep: char)
    ensures
        split_on(s, sep)[0].len() <= s.len(),
    decreases s.len(),
{
    crate::text::lemma_split_nonempty(s, sep);
    if s.len() > 0 {
        crate::text::lemma_split_nonempty(s.drop_last(), sep);
        lemma_split_first_len(s.drop_last(), sep);
    }
}

pub fn recurrence_from_rule(rule: &str) -> (r: Option<Recurrence>)
    ensures
        rule_recurrence(rule@, r),
{
    let parts = split_chars(&chars_of(rule), ';');
    let mut i: usize = 0;
    while i < parts.len()
        invariant
            i <= parts.len(),
            views(parts@) == split_on(rule@, ';'),
            rule_freq(rule@) == freq_from(views(parts@), i as int),
        decreases parts.len() - i,
    {
        let part = &parts[i];
        assert(views(parts@)[i as int] == part@);
        let halves = split_chars(part, '=');
        let key = to_upper(&trim_chars(&halves[0]));
        assert(halves@[0]@ == split_on(part@, '=')[0]);
        if same_chars(&key, &chars_of("FREQ")) {
            let k = halves[0].len();
            proof {
                lemma_split_first_len(part@, '=');
            }
            let value = if k < part.len() {
                trim_chars(&slice_chars(part, k + 1, part.len()))
            } else {
                Vec::new()
            };
            assert(value@ =~= part_value(part@));
            return Recurrence::from_freq(string_of(&value).as_str());
        }
        i = i + 1;
    }
    None
}

/// A rule none of whose parts has the key `FREQ` describes no recurrence.
pub proof fn lemma_rule_without_freq(rule: Seq<char>, r: Option<Recurrence>)
    requires
        forall|i: int| 0 <= i < split_on(rule, ';').len() ==> part_key(#[trigger] split_on(rule, ';')[i]) != "FREQ"@,
        rule_recurrence(rule, r),
    ensures
        r is None,
{
    lemma_freq_from_none(split_on(rule, ';'), 0);
}

proof fn lemma_freq_from_none(parts: Seq<Seq<char>>, i: int)
    requires
        0 <= i,
        forall|j: int| 0 <= j < parts.len() ==> part_key(#[trigger] parts[j]) != "FREQ"@,
    ensures
        freq_from(parts, i) is None,
    decreases parts.len() - i,
{
    if i < parts.len() {
        lemma_freq_from_none(parts, i + 1);
    }
}

pub open spec fn or_else(a: Option<Seq<char>>, b: Option<Seq<char>>) -> Option<Seq<char>> {
    if a is Some {
        a
    } else {
        b
    }
}

pub open spec fn trimmed_or_empty(v: Option<Seq<char>>) -> Seq<char> {
    match v {
        Some(s) => trim(s),
        None => Seq::empty(),
    }
}

/// `e` is the entry for an event with properties `props` whose start and
/// end were read as `start` and `end`.
pub open spec fn entry_of(
    props: Seq<(Seq<char>, Option<Seq<char>>)>,
    start: Option<Stamp>,
    end: Option<Stamp>,
    e: TimetableEntry,
) -> bool {
    &&& e.date@ == date_text_spec(start)
    &&& e.time@ == time_text_spec(start, end)
    &&& e.title@ == trimmed_or_empty(or_else(lookup(props, "SUMMARY"@), lookup(props, "DESCRIPTION"@)))
    &&& e.location@ == trimmed_or_empty(lookup(props, "LOCATION"@))
    &&& match lookup(props, "RRULE"@) {
        Some(rule) => rule_recurrence(rule, e.recurrence),
        None => e.recurrence is None,
    }
}

fn trimmed_text(v: &Option<String>) -> (r: String)
    ensures
        r@ == trimmed_or_empty(opt_view(*v)),
{
    match v {
        Some(s) => string_of(&trim_chars(&chars_of(s.as_str()))),
        None => String::new(),
    }
}

/// The title of an event: its summary, else its description, trimmed.
pub open spec fn title_of(props: Seq<(Seq<char>, Option<Seq<char>>)>) -> Seq<char> {
    trimmed_or_empty(or_else(lookup(props, "SUMMARY"@), lookup(props, "DESCRIPTION"@)))
}

/// The entry of one event, given its start and end as read; `None` where
/// both its date and its title are empty.
pub fn event_entry(props: &Vec<Property>, start: Option<Stamp>, end: Option<Stamp>) -> (r: Option<TimetableEntry>)
    requires
        start matches Some(s) ==> s.wf(),
        end matches Some(s) ==> s.wf(),
    ensures
        date_text_spec(start).len() == 0 && title_of(props_view(props@)).len() == 0 ==> r is None,
        !(date_text_spec(start).len() == 0 && title_of(props_view(props@)).len() == 0) ==> (r matches Some(e) && entry_of(props_view(props@), start, end, e)),
{
    let date = match start {
        Some(s) => date_text(s),
        None => String::new(),
    };
    let time = time_text(start, end);
    let summary = property_value(props, "SUMMARY");
    let title_raw = match summary {
        Some(v) => Some(v),
        None => property_value(props, "DESCRIPTION"),
    };
    let title = trimmed_text(&title_raw);
    let location = trimmed_text(&property_value(props, "LOCATION"));
    let recurrence = match property_value(props, "RRULE") {
        Some(rule) => recurrence_from_rule(rule.as_str()),
        None => None,
    };
    if date.as_str().unicode_len() == 0 && title.as_str().unicode_len() == 0 {
        return None;
    }
    Some(TimetableEntry::new(date, time, title, location, recurrence))
}

pub type Props = Seq<(Seq<char>, Option<Seq<char>>)>;

/// An event gives an entry: its date or its title is not empty.
pub open spec fn kept(props: Props, start: Option<Stamp>) -> bool {
    !(date_text_spec(start).len() == 0 && title_of(props).len() == 0)
}

/// `s` is how a date-time property reads: nothing where the property is
/// missing or has no value, else a reading of its value.
pub open spec fn stamp_read(v: Option<Seq<char>>, s: Option<Stamp>) -> bool {
    match v {
        Some(raw) => date_reading(raw, s),
        None => s is None,
    }
}

/// `starts` and `ends` are readings of each event's start and end.
pub open spec fn read_all(evs: Seq<Props>, starts: Seq<Option<Stamp>>, ends: Seq<Option<Stamp>>) -> bool {
    &&& starts.len() == evs.len()
    &&& ends.len() == evs.len()
    &&& forall|j: int| 0 <= j < evs.len() ==> stamp_read(lookup(#[trigger] evs[j], "DTSTART"@), starts[j]) && stamp_read(lookup(evs[j], "DTEND"@), ends[j])
}

/// `es` holds, in order, one entry for each kept event, as `entry_of` gives
/// it for that event's start and end.
pub open spec fn entries_match(evs: Seq<Props>, starts: Seq<Option<Stamp>>, ends: Seq<Option<Stamp>>, es: Seq<TimetableEntry>) -> bool
    decreases evs.len(),
{
    if evs.len() == 0 {
        es.len() == 0
    } else {
        let k = evs.len() - 1;
        if kept(evs[k], starts[k]) {
            &&& es.len() > 0
            &&& entry_of(evs[k], starts[k], ends[k], es.last())
            &&& entries_match(evs.drop_last(), starts.drop_last(), ends.drop_last(), es.drop_last())
        } else {
            entries_match(evs.drop_last(), starts.drop_last(), ends.drop_last(), es)
        }
    }
}

/// Reads the schedule entries of a calendar feed, in feed order: one entry
/// for each event whose date or title is not empty, with its date and time
/// from its own start and end. A blank feed gives none; calendar blocks that
/// fail to parse are skipped.
pub fn parse_ics(content: &str) -> (r: Vec<TimetableEntry>)
    ensures
        trim(content@).len() == 0 ==> r@.len() == 0,
        trim(content@).len() > 0 ==> exists|starts: Seq<Option<Stamp>>, ends: Seq<Option<Stamp>>|
            read_all(events_of(content@), starts, ends) && entries_match(events_of(content@), starts, ends, r@),
        forall|i: int| 0 <= i < r@.len() ==> r@[i].date@.len() > 0 || r@[i].title@.len() > 0,
{
    let mut entries: Vec<TimetableEntry> = Vec::new();
    if trim_chars(&chars_of(content)).len() == 0 {
        return entries;
    }
    let events = feed_events(content);
    let ghost evs = events_of(content@);
    let ghost mut starts: Seq<Option<Stamp>> = Seq::empty();
    let ghost mut ends: Seq<Option<Stamp>> = Seq::empty();
    let mut i: usize = 0;
    while i < events.len()
        invariant
            i <= events.len(),
            evs == events_of(content@),
            events_view(events@) == evs,
            starts.len() == i,
            ends.len() == i,
            forall|j: int| 0 <= j < i ==> stamp_read(lookup(#[trigger] evs[j], "DTSTART"@), starts[j]) && stamp_read(lookup(evs[j], "DTEND"@), ends[j]),
            entries_match(evs.subrange(0, i as int), starts, ends, entries@),
            forall|j: int| 0 <= j < entries@.len() ==> entries@[j].date@.len() > 0 || entries@[j].title@.len() > 0,
        decreases events.len() - i,
    {
        let props = &events[i];
        assert(evs[i as int] == props_view(events@[i as int]@));
        let start = match property_value(props, "DTSTART") {
            Some(raw) => parse_ics_date(raw.as_str()),
            None => None,
        };
        let end = match property_value(props, "DTEND") {
            Some(raw) => parse_ics_date(raw.as_str()),
            None => None,
        };
        let ghost before = entries@;
        let made = event_entry(props, start, end);
        assert(kept(evs[i as int], start) <==> made is Some);
        match made {
            Some(e) => {
                proof {
                    if e.date@.len() == 0 {
                        assert(date_text_spec(start).len() == 0);
                    }
                }
                let ghost added = e;
                entries.push(e);
                assert(entries@.last() == added);
                assert(entry_of(evs[i as int], start, end, entries@.last()));
                assert(entries@.drop_last() =~= before);
            },
            None => {},
        }
        proof {
            let pre = evs.subrange(0, i as int);
            let old_starts = starts;
            let old_ends = ends;
            starts = starts.push(start);
            ends = ends.push(end);
            let cur = evs.subrange(0, i + 1);
            assert(cur.drop_last() =~= pre);
            assert(starts.drop_last() =~= old_starts);
            assert(ends.drop_last() =~= old_ends);
            assert(cur[i as int] == evs[i as int]);
            assert(starts[i as int] == start);
            assert(ends[i as int] == end);
            assert(entries_match(cur, starts, ends, entries@));
        }
        i = i + 1;
    }
    assert(evs.len() == events@.len());
    assert(evs.subrange(0, events@.len() as int) =~= evs);
    assert(read_all(evs, starts, ends));
    assert(entries_match(evs, starts, ends, entries@));
    entries
}

} // verus!
