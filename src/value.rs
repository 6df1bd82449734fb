//! One cell of a column, and its conversion into the object that the managed
//! runtime receives for it.
use vstd::prelude::*;

verus! {

/// The unit of a datetime's integer timestamp.
#[derive(Debug, Clone, Copy, PartialEq, Eq)]
pub enum TimeUnit {
    Nanoseconds,
    Microseconds,
    Milliseconds,
}

/// One cell of a column. Floating-point cells hold their IEEE-754 bit
/// patterns.
#[derive(Debug, PartialEq)]
pub enum Value {
    Null,
    Boolean(bool),
    Int8(i8),
    Int16(i16),
    Int32(i32),
    Int64(i64),
    UInt8(u8),
    UInt16(u16),
    UInt32(u32),
    UInt64(u64),
    Float32(u32),
    Float64(u64),
    Str(String),
    Binary(Vec<u8>),
    /// Days since the Unix epoch.
    Date(i32),
    /// Nanoseconds since midnight.
    Time(i64),
    /// Timestamp, its unit, and an optional time zone name.
    Datetime(i64, TimeUnit, Option<String>),
    /// Unscaled integer, precision and scale.
    Decimal(i128, usize, usize),
    List(Vec<Value>),
    /// Elements and the array's fixed width.
    Array(Vec<Value>, usize),
    /// A row offset into a set of named child columns.
    Struct(usize, Vec<Column>),
}

/// A named column of cells.
#[derive(Debug, PartialEq)]
pub struct Column {
    pub name: String,
    pub values: Vec<Value>,
}

/// The object handed to the managed runtime for one cell. Floating-point
/// objects hold their IEEE-754 bit patterns.
#[derive(Debug, PartialEq)]
pub enum Managed {
    Null,
    Integer(i32),
    Long(i64),
    Float(u32),
    Double(u64),
    Boolean(bool),
    /// A date from its epoch day.
    Date(i64),
    /// A time of day from its nanosecond count.
    Time(i64),
    /// An instant from epoch seconds and a nanosecond adjustment.
    Instant(i64, i64),
    /// The instant of `Instant` seen in the named zone.
    Zoned(i64, i64, String),
    /// A decimal (unscaled integer and scale) that the 96-bit decimal type
    /// holds; the managed side receives it as the nearest double.
    DecimalDouble(i128, usize),
    Str(String),
    Bytes(Vec<u8>),
    List(Vec<Managed>),
    /// Entries in the order of the struct's fields.
    Record(Vec<(String, Managed)>),
}

/// The largest scale of the 96-bit decimal type.
pub const DECIMAL_MAX_SCALE: usize = 28;

/// The largest magnitude of an unscaled decimal: 96 bits.
pub const DECIMAL_MAX_UNSCALED: i128 = 0xFFFF_FFFF_FFFF_FFFF_FFFF_FFFF;

/// A decimal cell can be turned into a double: its scale and unscaled
/// magnitude fit the 96-bit decimal type.
pub open spec fn decimal_representable(unscaled: i128, scale: usize) -> bool {
    scale <= DECIMAL_MAX_SCALE && -DECIMAL_MAX_UNSCALED <= unscaled <= DECIMAL_MAX_UNSCALED
}

/// Relies on rust_decimal's `Decimal::try_from_i128_with_scale`: it fails
/// exactly when the scale exceeds 28 or the magnitude exceeds 96 bits.
#[verifier::external_body]
fn decimal_accepts(unscaled: i128, scale: u32) -> (r: bool)
    ensures
        r == (scale <= 28 && -DECIMAL_MAX_UNSCALED <= unscaled <= DECIMAL_MAX_UNSCALED),
{
    rust_decimal::Decimal::try_from_i128_with_scale(unscaled, scale).is_ok()
}

/// Whether a decimal cell can be turned into a double.
pub fn decimal_fits(unscaled: i128, scale: usize) -> (r: bool)
    ensures
        r == decimal_representable(unscaled, scale),
{
    if scale > DECIMAL_MAX_SCALE {
        false
    } else {
        decimal_accepts(unscaled, scale as u32)
    }
}

pub open spec fn unit_nanos(unit: TimeUnit) -> int {
    match unit {
        TimeUnit::Nanoseconds => 1,
        TimeUnit::Microseconds => 1_000,
        TimeUnit::Milliseconds => 1_000_000,
    }
}

/// Quotient rounded toward zero, for a positive divisor.
pub open spec fn trunc_div(a: int, b: int) -> int {
    if a >= 0 {
        a / b
    } else {
        -((-a) / b)
    }
}

/// Remainder with the sign of the dividend, for a positive divisor.
pub open spec fn trunc_rem(a: int, b: int) -> int {
    if a >= 0 {
        a % b
    } else {
        -((-a) % b)
    }
}

/// Whole seconds since the epoch of a timestamp.
pub open spec fn epoch_seconds(timestamp: i64, unit: TimeUnit) -> int {
    trunc_div(timestamp * unit_nanos(unit), 1_000_000_000)
}

/// Nanoseconds beyond `epoch_seconds`, with the timestamp's sign.
pub open spec fn nano_adjustment(timestamp: i64, unit: TimeUnit) -> int {
    trunc_rem(timestamp * unit_nanos(unit), 1_000_000_000)
}

/// `r` is the managed object for the cell `v`.
pub open spec fn converts_to(v: Value, r: Managed) -> bool
    decreases v,
{
    match v {
        Value::Null => r == Managed::Null,
        Value::Boolean(b) => r == Managed::Boolean(b),
        Value::Int8(x) => r == Managed::Integer(x as i32),
        Value::Int16(x) => r == Managed::Integer(x as i32),
        Value::Int32(x) => r == Managed::Integer(x),
        Value::UInt8(x) => r == Managed::Integer(x as i32),
        Value::UInt16(x) => r == Managed::Integer(x as i32),
        Value::UInt32(x) => r == Managed::Integer(#[verifier::truncate] (x as i32)),
        Value::Int64(x) => r == Managed::Long(x),
        Value::UInt64(x) => r == Managed::Long(#[verifier::truncate] (x as i64)),
        Value::Float32(x) => r == Managed::Float(x),
        Value::Float64(x) => r == Managed::Double(x),
        Value::Str(s) => match r {
            Managed::Str(t) => t@ == s@,
            _ => false,
        },
        Value::Binary(b) => match r {
            Managed::Bytes(c) => c@ == b@,
            _ => false,
        },
        Value::Date(d) => r == Managed::Date(d as i64),
        Value::Time(t) => r == Managed::Time(t),
        Value::Datetime(ts, unit, zone) => match zone {
            None => match r {
                Managed::Instant(s, n) => s == epoch_seconds(ts, unit) && n == nano_adjustment(
                    ts,
                    unit,
                ),
                _ => false,
            },
            Some(z) => match r {
                Managed::Zoned(s, n, name) => s == epoch_seconds(ts, unit) && n == nano_adjustment(
                    ts,
                    unit,
                ) && name@ == z@,
                _ => false,
            },
        },
        Value::Decimal(unscaled, _, scale) => if decimal_representable(unscaled, scale) {
            r == Managed::DecimalDouble(unscaled, scale)
        } else {
            r == Managed::Null
        },
        Value::List(vs) => match r {
            Managed::List(rs) => rs@.len() == vs@.len() && forall|i: int|
                0 <= i < vs@.len() ==> converts_to(vs@[i], #[trigger] rs@[i]),
            _ => false,
        },
        Value::Array(vs, _) => match r {
            Managed::List(rs) => rs@.len() == vs@.len() && forall|i: int|
                0 <= i < vs@.len() ==> converts_to(vs@[i], #[trigger] rs@[i]),
            _ => false,
        },
        Value::Struct(row, fields) => match r {
            Managed::Record(entries) => entries@.len() == fields@.len() && forall|j: int|
                0 <= j < fields@.len() ==> {
                    &&& (#[trigger] entries@[j]).0@ == fields@[j].name@
                    &&& row < fields@[j].values@.len() ==> converts_to(
                        fields@[j].values@[row as int],
                        entries@[j].1,
                    )
                    &&& row >= fields@[j].values@.len() ==> entries@[j].1 == Managed::Null
                },
            _ => false,
        },
    }
}

/// Normalizes a timestamp to nanoseconds and splits it into whole epoch
/// seconds and the remaining nanoseconds, both rounded toward zero.
pub fn instant_parts(timestamp: i64, unit: TimeUnit) -> (r: (i64, i64))
    ensures
        r.0 == epoch_seconds(timestamp, unit),
        r.1 == nano_adjustment(timestamp, unit),
{
    let factor: i128 = match unit {
        TimeUnit::Nanoseconds => 1,
        TimeUnit::Microseconds => 1_000,
        TimeUnit::Milliseconds => 1_000_000,
    };
    assert(-0x8000_0000_0000_0000 * 1_000_000 <= timestamp * factor <= 0x7fff_ffff_ffff_ffff
        * 1_000_000) by (nonlinear_arith)
        requires
            1 <= factor <= 1_000_000,
            -0x8000_0000_0000_0000 <= timestamp <= 0x7fff_ffff_ffff_ffff,
    ;
    let total: i128 = (timestamp as i128) * factor;
    let negative = total < 0;
    let magnitude: i128 = if negative {
        -total
    } else {
        total
    };
    let quotient: i128 = magnitude / 1_000_000_000;
    let remainder: i128 = magnitude % 1_000_000_000;
    assert(quotient <= 0x8000_0000_0000_0000) by (nonlinear_arith)
        requires
            0 <= magnitude <= 0x8000_0000_0000_0000 * 1_000_000,
            quotient == magnitude / 1_000_000_000,
    ;
    proof {
        assert(total == timestamp * unit_nanos(unit));
    }
    if negative {
        (-(quotient as i128) as i64, -(remainder as i64))
    } else {
        (quotient as i64, remainder as i64)
    }
}

/// Converts every cell of `cells`, in order.
fn convert_all(cells: Vec<Value>, Ghost(whole): Ghost<Value>) -> (r: Vec<Managed>)
    requires
        forall|i: int| 0 <= i < cells@.len() ==> decreases_to!(whole => #[trigger] cells@[i]),
    ensures
        r@.len() == cells@.len(),
        forall|i: int| 0 <= i < cells@.len() ==> converts_to(cells@[i], #[trigger] r@[i]),
    decreases whole, 0nat,
{
    let ghost initial = cells@;
    let mut cells = cells;
    let mut out: Vec<Managed> = Vec::new();
    let mut i: usize = 0;
    while i < cells.len()
        invariant
            cells@.len() == initial.len(),
            i <= initial.len(),
            forall|k: int| i <= k < initial.len() ==> cells@[k] == initial[k],
            forall|k: int| 0 <= k < initial.len() ==> decreases_to!(whole => #[trigger] initial[k]),
            out@.len() == i,
            forall|k: int| 0 <= k < i ==> converts_to(initial[k], #[trigger] out@[k]),
        decreases initial.len() - i,
    {
        let mut cell = Value::Null;
        std::mem::swap(&mut cell, &mut cells[i]);
        assert(decreases_to!(whole => initial[i as int]));
        out.push(convert(cell));
        i = i + 1;
    }
    out
}

/// Converts one cell into the object that the managed runtime receives for
/// it, recursively for lists, arrays and structs.
pub fn convert(v: Value) -> (r: Managed)
    ensures
        converts_to(v, r),
    decreases v, 1nat,
{
    match v {
        Value::Null => Managed::Null,
        Value::Boolean(b) => Managed::Boolean(b),
        Value::Int8(x) => Managed::Integer(x as i32),
        Value::Int16(x) => Managed::Integer(x as i32),
        Value::Int32(x) => Managed::Integer(x),
        Value::UInt8(x) => Managed::Integer(x as i32),
        Value::UInt16(x) => Managed::Integer(x as i32),
        Value::UInt32(x) => Managed::Integer(#[verifier::truncate] (x as i32)),
        Value::Int64(x) => Managed::Long(x),
        Value::UInt64(x) => Managed::Long(#[verifier::truncate] (x as i64)),
        Value::Float32(x) => Managed::Float(x),
        Value::Float64(x) => Managed::Double(x),
        Value::Str(s) => Managed::Str(s),
        Value::Binary(b) => Managed::Bytes(b),
        Value::Date(d) => Managed::Date(d as i64),
        Value::Time(t) => Managed::Time(t),
        Value::Datetime(ts, unit, zone) => {
            let (seconds, nanos) = instant_parts(ts, unit);
            match zone {
                None => Managed::Instant(seconds, nanos),
                Some(z) => Managed::Zoned(seconds, nanos, z),
            }
        },
        Value::Decimal(unscaled, _, scale) => if decimal_fits(unscaled, scale) {
            Managed::DecimalDouble(unscaled, scale)
        } else {
            Managed::Null
        },
        Value::List(vs) => {
            let ghost whole = Value::List(vs);
            Managed::List(convert_all(vs, Ghost(whole)))
        },
        Value::Array(vs, width) => {
            let ghost whole = Value::Array(vs, width);
            Managed::List(convert_all(vs, Ghost(whole)))
        },
        Value::Struct(row, fields) => {
            let ghost whole = Value::Struct(row, fields);
            Managed::Record(convert_fields(row, fields, Ghost(whole)))
        },
    }
}

/// The entries of a struct cell: each field's name with its converted cell
/// at `row`, or null where the field has no such row.
fn convert_fields(row: usize, fields: Vec<Column>, Ghost(whole): Ghost<Value>) -> (r: Vec<
    (String, Managed),
>)
    requires
        forall|j: int, k: int|
            0 <= j < fields@.len() && 0 <= k < fields@[j].values@.len() ==> decreases_to!(whole => #[trigger] fields@[j].values@[k]),
    ensures
        r@.len() == fields@.len(),
        forall|j: int|
            0 <= j < fields@.len() ==> {
                &&& (#[trigger] r@[j]).0@ == fields@[j].name@
                &&& row < fields@[j].values@.len() ==> converts_to(
                    fields@[j].values@[row as int],
                    r@[j].1,
                )
                &&& row >= fields@[j].values@.len() ==> r@[j].1 == Managed::Null
            },
    decreases whole, 0nat,
{
    let ghost initial = fields@;
    let mut fields = fields;
    let mut out: Vec<(String, Managed)> = Vec::new();
    let mut j: usize = 0;
    while j < fields.len()
        invariant
            fields@.len() == initial.len(),
            j <= initial.len(),
            forall|k: int| j <= k < initial.len() ==> fields@[k] == initial[k],
            forall|a: int, b: int|
                0 <= a < initial.len() && 0 <= b < initial[a].values@.len() ==> decreases_to!(whole => #[trigger] initial[a].values@[b]),
            out@.len() == j,
            forall|k: int|
                0 <= k < j ==> {
                    &&& (#[trigger] out@[k]).0@ == initial[k].name@
                    &&& row < initial[k].values@.len() ==> converts_to(
                        initial[k].values@[row as int],
                        out@[k].1,
                    )
                    &&& row >= initial[k].values@.len() ==> out@[k].1 == Managed::Null
                },
        decreases initial.len() - j,
    {
        let mut field = Column { name: String::new(), values: Vec::new() };
        std::mem::swap(&mut field, &mut fields[j]);
        let Column { name, values } = field;
        let mut values = values;
        let entry = if row < values.len() {
            let mut cell = Value::Null;
            std::mem::swap(&mut cell, &mut values[row]);
            assert(decreases_to!(whole => initial[j as int].values@[row as int]));
            convert(cell)
        } else {
            Managed::Null
        };
        out.push((name, entry));
        j = j + 1;
    }
    out
}

/// Converts the cells of one row, in order, into the managed objects of the
/// array handed back for it.
pub fn convert_row(cells: Vec<Value>) -> (r: Vec<Managed>)
    ensures
        r@.len() == cells@.len(),
        forall|i: int| 0 <= i < cells@.len() ==> converts_to(cells@[i], #[trigger] r@[i]),
{
    let ghost initial = cells@;
    let mut cells = cells;
    let mut out: Vec<Managed> = Vec::new();
    let mut i: usize = 0;
    while i < cells.len()
        invariant
            cells@.len() == initial.len(),
            i <= initial.len(),
            forall|k: int| i <= k < initial.len() ==> cells@[k] == initial[k],
            out@.len() == i,
            forall|k: int| 0 <= k < i ==> converts_to(initial[k], #[trigger] out@[k]),
        decreases initial.len() - i,
    {
        let mut cell = Value::Null;
        std::mem::swap(&mut cell, &mut cells[i]);
        out.push(convert(cell));
        i = i + 1;
    }
    out
}

/// What the managed side reads back from `m` agrees with the cell `v`:
/// integers by value (unsigned 32- and 64-bit cells through the bit pattern
/// of the signed object), floats by bit pattern, instants as nanoseconds
/// since the epoch, decimals by unscaled value and scale (the double itself
/// is a narrowing; a decimal the 96-bit type cannot hold reads as null),
/// containers element by element.
pub open spec fn reads_back(m: Managed, v: Value) -> bool
    decreases v,
{
    match v {
        Value::Null => m is Null,
        Value::Boolean(b) => m matches Managed::Boolean(c) && c == b,
        Value::Int8(x) => m matches Managed::Integer(i) && i as int == x as int,
        Value::Int16(x) => m matches Managed::Integer(i) && i as int == x as int,
        Value::Int32(x) => m matches Managed::Integer(i) && i as int == x as int,
        Value::UInt8(x) => m matches Managed::Integer(i) && i as int == x as int,
        Value::UInt16(x) => m matches Managed::Integer(i) && i as int == x as int,
        Value::UInt32(x) => m matches Managed::Integer(i) && (#[verifier::truncate] (i as u32))
            == x,
        Value::Int64(x) => m matches Managed::Long(l) && l == x,
        Value::UInt64(x) => m matches Managed::Long(l) && (#[verifier::truncate] (l as u64)) == x,
        Value::Float32(x) => m matches Managed::Float(f) && f == x,
        Value::Float64(x) => m matches Managed::Double(f) && f == x,
        Value::Str(s) => m matches Managed::Str(t) && t@ == s@,
        Value::Binary(b) => m matches Managed::Bytes(c) && c@ == b@,
        Value::Date(d) => m matches Managed::Date(e) && e as int == d as int,
        Value::Time(t) => m matches Managed::Time(u) && u == t,
        Value::Datetime(ts, unit, zone) => match zone {
            None => m matches Managed::Instant(s, n) && s * 1_000_000_000 + n == ts * unit_nanos(
                unit,
            ),
            Some(z) => m matches Managed::Zoned(s, n, name) && s * 1_000_000_000 + n == ts
                * unit_nanos(unit) && name@ == z@,
        },
        Value::Decimal(unscaled, _, scale) => if decimal_representable(unscaled, scale) {
            m matches Managed::DecimalDouble(u, k) && u == unscaled && k == scale
        } else {
            m is Null
        },
        Value::List(vs) => m matches Managed::List(rs) && rs@.len() == vs@.len() && forall|i: int|
            0 <= i < vs@.len() ==> reads_back(#[trigger] rs@[i], vs@[i]),
        Value::Array(vs, _) => m matches Managed::List(rs) && rs@.len() == vs@.len() && forall|
            i: int,
        |
            0 <= i < vs@.len() ==> reads_back(#[trigger] rs@[i], vs@[i]),
        Value::Struct(row, fields) => m matches Managed::Record(entries) && entries@.len()
            == fields@.len() && forall|j: int|
            0 <= j < fields@.len() ==> {
                &&& (#[trigger] entries@[j]).0@ == fields@[j].name@
                &&& row < fields@[j].values@.len() ==> reads_back(
                    entries@[j].1,
                    fields@[j].values@[row as int],
                )
                &&& row >= fields@[j].values@.len() ==> entries@[j].1 is Null
            },
    }
}

proof fn lemma_trunc_split(a: int, b: int)
    requires
        b > 0,
    ensures
        trunc_div(a, b) * b + trunc_rem(a, b) == a,
{
    if a >= 0 {
        vstd::arithmetic::div_mod::lemma_fundamental_div_mod(a, b);
        assert(b * (a / b) == (a / b) * b) by (nonlinear_arith);
    } else {
        vstd::arithmetic::div_mod::lemma_fundamental_div_mod(-a, b);
        assert(b * ((-a) / b) == ((-a) / b) * b) by (nonlinear_arith);
        assert(-((-a) / b) * b == -(((-a) / b) * b)) by (nonlinear_arith);
    }
}

/// Converting a cell and reading the managed object back gives the cell
/// again, up to the decimal-to-double narrowing (null for a decimal no double
/// is formed from) and the reinterpretation of
/// unsigned integers as signed ones of the same width.
pub proof fn lemma_round_trip(v: Value, r: Managed)
    requires
        converts_to(v, r),
    ensures
        reads_back(r, v),
    decreases v,
{
    match v {
        Value::UInt32(x) => {
            assert((#[verifier::truncate] ((#[verifier::truncate] (x as i32)) as u32)) == x)
                by (bit_vector);
        },
        Value::UInt64(x) => {
            assert((#[verifier::truncate] ((#[verifier::truncate] (x as i64)) as u64)) == x)
                by (bit_vector);
        },
        Value::Datetime(ts, unit, _) => {
            lemma_trunc_split(ts * unit_nanos(unit), 1_000_000_000);
        },
        Value::List(vs) => {
            if let Managed::List(rs) = r {
                assert forall|i: int| 0 <= i < vs@.len() implies reads_back(
                    #[trigger] rs@[i],
                    vs@[i],
                ) by {
                    lemma_round_trip(vs@[i], rs@[i]);
                }
            }
        },
        Value::Array(vs, _) => {
            if let Managed::List(rs) = r {
                assert forall|i: int| 0 <= i < vs@.len() implies reads_back(
                    #[trigger] rs@[i],
                    vs@[i],
                ) by {
                    lemma_round_trip(vs@[i], rs@[i]);
                }
            }
        },
        Value::Struct(row, fields) => {
            if let Managed::Record(entries) = r {
                assert forall|j: int| 0 <= j < fields@.len() implies {
                    &&& (#[trigger] entries@[j]).0@ == fields@[j].name@
                    &&& row < fields@[j].values@.len() ==> reads_back(
                        entries@[j].1,
                        fields@[j].values@[row as int],
                    )
                    &&& row >= fields@[j].values@.len() ==> entries@[j].1 is Null
                } by {
                    if row < fields@[j].values@.len() {
                        lemma_round_trip(fields@[j].values@[row as int], entries@[j].1);
                    }
                }
            }
        },
        _ => {},
    }
}

} // verus!
