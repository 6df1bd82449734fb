//! Date, time and datetime columns built from managed strings.
use vstd::prelude::*;

use crate::value::{Column, TimeUnit, Value};

verus! {

/// Days from the start of the common era to 1970-01-01.
pub const EPOCH_DAYS_FROM_CE: i32 = 719_163;

/// Days from the common era of the date `s` spells in `%Y-%m-%d`, or the
/// parser's description of why it spells none.
pub uninterp spec fn parsed_date(s: Seq<char>) -> Result<i32, Seq<char>>;

/// Seconds from midnight and nanoseconds of the time `s` spells in
/// `%H:%M:%S%.f`, or the parser's description of why it spells none.
pub uninterp spec fn parsed_time(s: Seq<char>) -> Result<(u32, u32), Seq<char>>;

/// Milliseconds since the epoch of the datetime `s` spells in `%FT%T%.f`,
/// read as UTC, or the parser's description of why it spells none.
pub uninterp spec fn parsed_datetime_millis(s: Seq<char>) -> Result<i64, Seq<char>>;

/// A string that did not parse: the message naming it and the format, and
/// the parser's own description of the cause.
#[derive(Debug, PartialEq)]
pub struct ParseFailure {
    pub message: String,
    pub cause: String,
}

/// Relies on chrono's `NaiveDate::parse_from_str` with `%Y-%m-%d` and
/// `Datelike::num_days_from_ce`; chrono's dates lie between the years
/// -262144 and 262143, under 96 million days either side of the era.
#[verifier::external_body]
fn parse_date(s: &str) -> (r: Result<i32, String>)
    ensures
        match r {
            Ok(d) => parsed_date(s@) == Ok::<i32, Seq<char>>(d) && d >= -100_000_000,
            Err(e) => parsed_date(s@) == Err::<i32, Seq<char>>(e@),
        },
{
    match chrono::NaiveDate::parse_from_str(s, "%Y-%m-%d") {
        Ok(d) => Ok(chrono::Datelike::num_days_from_ce(&d)),
        Err(e) => Err(e.to_string()),
    }
}

/// Relies on chrono's `NaiveTime::parse_from_str` with `%H:%M:%S%.f`, and on
/// `Timelike::num_seconds_from_midnight` and `Timelike::nanosecond`.
#[verifier::external_body]
fn parse_time(s: &str) -> (r: Result<(u32, u32), String>)
    ensures
        match r {
            Ok(t) => parsed_time(s@) == Ok::<(u32, u32), Seq<char>>(t),
            Err(e) => parsed_time(s@) == Err::<(u32, u32), Seq<char>>(e@),
        },
{
    match chrono::NaiveTime::parse_from_str(s, "%H:%M:%S%.f") {
        Ok(t) => Ok(
            (chrono::Timelike::num_seconds_from_midnight(&t), chrono::Timelike::nanosecond(&t)),
        ),
        Err(e) => Err(e.to_string()),
    }
}

/// Relies on chrono's `NaiveDateTime::parse_from_str` with `%FT%T%.f`, read
/// as UTC by `and_utc`, and on `DateTime::timestamp_millis`.
#[verifier::external_body]
fn parse_datetime(s: &str) -> (r: Result<i64, String>)
    ensures
        match r {
            Ok(ms) => parsed_datetime_millis(s@) == Ok::<i64, Seq<char>>(ms),
            Err(e) => parsed_datetime_millis(s@) == Err::<i64, Seq<char>>(e@),
        },
{
    match chrono::NaiveDateTime::parse_from_str(s, "%FT%T%.f") {
        Ok(dt) => Ok(dt.and_utc().timestamp_millis()),
        Err(e) => Err(e.to_string()),
    }
}

/// The date cell for `s`: its epoch day, if `s` spells a date.
pub open spec fn date_cell(s: Seq<char>) -> Option<Value> {
    match parsed_date(s) {
        Ok(days) => Some(Value::Date((days - EPOCH_DAYS_FROM_CE) as i32)),
        Err(_) => None,
    }
}

/// The time cell for `s`: nanoseconds since midnight.
pub open spec fn time_cell(s: Seq<char>) -> Option<Value> {
    match parsed_time(s) {
        Ok((secs, nanos)) => Some(Value::Time((secs * 1_000_000_000 + nanos) as i64)),
        Err(_) => None,
    }
}

/// The error text for a string that does not parse in `format`.
pub open spec fn parse_failure(s: Seq<char>, kind: Seq<char>, format: Seq<char>) -> Seq<char> {
    "Failed to parse value `"@ + s + "` as "@ + kind + " with format `"@ + format + "`"@
}

fn failure_text(s: &str, kind: &str, format: &str) -> (r: String)
    ensures
        r@ == parse_failure(s@, kind@, format@),
{
    let mut r = String::from_str("Failed to parse value `");
    r.append(s);
    r.append("` as ");
    r.append(kind);
    r.append(" with format `");
    r.append(format);
    r.append("`");
    r
}

/// A date column named `name` from strings in `%Y-%m-%d`; the first string
/// that spells no date is reported, with the parser's cause.
pub fn new_date_series(name: String, values: &Vec<String>) -> (r: Result<Column, ParseFailure>)
    ensures
        r is Ok <==> forall|i: int| 0 <= i < values@.len() ==> #[trigger] date_cell(values@[i]@) is Some,
        r matches Ok(c) ==> c.name == name && c.values@.len() == values@.len() && forall|i: int|
            0 <= i < values@.len() ==> Some(#[trigger] c.values@[i]) == date_cell(values@[i]@),
        r matches Err(e) ==> exists|i: int|
            0 <= i < values@.len() && #[trigger] date_cell(values@[i]@) is None && (forall|k: int|
                0 <= k < i ==> date_cell(values@[k]@) is Some) && e.message@ == parse_failure(
                values@[i]@,
                "date"@,
                "%Y-%m-%d"@,
            ) && parsed_date(values@[i]@) == Err::<i32, Seq<char>>(e.cause@),
{
    let mut cells: Vec<Value> = Vec::new();
    let mut i: usize = 0;
    while i < values.len()
        invariant
            i <= values@.len(),
            cells@.len() == i,
            forall|k: int| 0 <= k < i ==> Some(#[trigger] cells@[k]) == date_cell(values@[k]@),
        decreases values@.len() - i,
    {
        let text = values[i].as_str();
        match parse_date(text) {
            Ok(days) => cells.push(Value::Date(days - EPOCH_DAYS_FROM_CE)),
            Err(cause) => {
                assert(date_cell(values@[i as int]@) is None);
                assert forall|k: int| 0 <= k < i implies date_cell(values@[k]@) is Some by {
                    assert(Some(cells@[k]) == date_cell(values@[k]@));
                }
                return Err(ParseFailure { message: failure_text(text, "date", "%Y-%m-%d"), cause });
            },
        }
        i = i + 1;
    }
    assert forall|k: int| 0 <= k < values@.len() implies #[trigger] date_cell(values@[k]@) is Some by {
        assert(Some(cells@[k]) == date_cell(values@[k]@));
    }
    Ok(Column { name, values: cells })
}

/// A time column named `name` from strings in `%H:%M:%S%.f`, as nanoseconds
/// since midnight; the first string that spells no time is reported, with the
/// parser's cause.
pub fn new_time_series(name: String, values: &Vec<String>) -> (r: Result<Column, ParseFailure>)
    ensures
        r is Ok <==> forall|i: int| 0 <= i < values@.len() ==> #[trigger] time_cell(values@[i]@) is Some,
        r matches Ok(c) ==> c.name == name && c.values@.len() == values@.len() && forall|i: int|
            0 <= i < values@.len() ==> Some(#[trigger] c.values@[i]) == time_cell(values@[i]@),
        r matches Err(e) ==> exists|i: int|
            0 <= i < values@.len() && #[trigger] time_cell(values@[i]@) is None && (forall|k: int|
                0 <= k < i ==> time_cell(values@[k]@) is Some) && e.message@ == parse_failure(
                values@[i]@,
                "time"@,
                "%H:%M:%S.f"@,
            ) && parsed_time(values@[i]@) == Err::<(u32, u32), Seq<char>>(e.cause@),
{
    let mut cells: Vec<Value> = Vec::new();
    let mut i: usize = 0;
    while i < values.len()
        invariant
            i <= values@.len(),
            cells@.len() == i,
            forall|k: int| 0 <= k < i ==> Some(#[trigger] cells@[k]) == time_cell(values@[k]@),
        decreases values@.len() - i,
    {
        let text = values[i].as_str();
        match parse_time(text) {
            Ok((secs, nanos)) => {
                let total: i64 = secs as i64 * 1_000_000_000 + nanos as i64;
                cells.push(Value::Time(total));
            },
            Err(cause) => {
                assert(time_cell(values@[i as int]@) is None);
                assert forall|k: int| 0 <= k < i implies time_cell(values@[k]@) is Some by {
                    assert(Some(cells@[k]) == time_cell(values@[k]@));
                }
                return Err(ParseFailure { message: failure_text(text, "time", "%H:%M:%S.f"), cause });
            },
        }
        i = i + 1;
    }
    assert forall|k: int| 0 <= k < values@.len() implies #[trigger] time_cell(values@[k]@) is Some by {
        assert(Some(cells@[k]) == time_cell(values@[k]@));
    }
    Ok(Column { name, values: cells })
}

/// A datetime column named `name`, in milliseconds and without a zone, from
/// strings in `%FT%T%.f`; the first string that spells no datetime is
/// reported, with the parser's cause.
pub fn new_datetime_series(name: String, values: &Vec<String>) -> (r: Result<Column, ParseFailure>)
    ensures
        r is Ok <==> forall|i: int|
            0 <= i < values@.len() ==> #[trigger] parsed_datetime_millis(values@[i]@) is Ok,
        r matches Ok(c) ==> c.name == name && c.values@.len() == values@.len() && forall|i: int|
            0 <= i < values@.len() ==> (#[trigger] c.values@[i] matches Value::Datetime(
                ts,
                unit,
                zone,
            ) && Ok::<i64, Seq<char>>(ts) == parsed_datetime_millis(values@[i]@) && unit
                == TimeUnit::Milliseconds && zone is None),
        r matches Err(e) ==> exists|i: int|
            0 <= i < values@.len() && #[trigger] parsed_datetime_millis(values@[i]@) is Err && (
            forall|k: int| 0 <= k < i ==> parsed_datetime_millis(values@[k]@) is Ok) && e.message@
                == parse_failure(values@[i]@, "datetime"@, "%FT%T%.f"@) && parsed_datetime_millis(
                values@[i]@,
            ) == Err::<i64, Seq<char>>(e.cause@),
{
    let mut cells: Vec<Value> = Vec::new();
    let mut i: usize = 0;
    while i < values.len()
        invariant
            i <= values@.len(),
            cells@.len() == i,
            forall|k: int|
                0 <= k < i ==> (#[trigger] cells@[k] matches Value::Datetime(ts, unit, zone)
                    && Ok::<i64, Seq<char>>(ts) == parsed_datetime_millis(values@[k]@) && unit
                    == TimeUnit::Milliseconds && zone is None),
        decreases values@.len() - i,
    {
        let text = values[i].as_str();
        match parse_datetime(text) {
            Ok(ts) => cells.push(Value::Datetime(ts, TimeUnit::Milliseconds, None)),
            Err(cause) => {
                assert forall|k: int|
                    0 <= k < i implies parsed_datetime_millis(values@[k]@) is Ok by {
                    assert(cells@[k] matches Value::Datetime(ts, _, _) && Ok::<i64, Seq<char>>(ts)
                        == parsed_datetime_millis(values@[k]@));
                }
                return Err(
                    ParseFailure { message: failure_text(text, "datetime", "%FT%T%.f"), cause },
                );
            },
        }
        i = i + 1;
    }
    assert forall|k: int|
        0 <= k < values@.len() implies #[trigger] parsed_datetime_millis(values@[k]@) is Ok by {
        assert(cells@[k] matches Value::Datetime(ts, _, _) && Ok::<i64, Seq<char>>(ts)
            == parsed_datetime_millis(values@[k]@));
    }
    Ok(Column { name, values: cells })
}

} // verus!
