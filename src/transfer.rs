//! Bulk transfer of managed arrays into native columns. The managed side
//! pins a primitive array and hands over its elements as a slice; object
//! arrays arrive already read element by element.
use vstd::prelude::*;

use crate::value::{Column, Value};

verus! {

/// The managed runtime's encoding of `true` in a boolean array.
pub const JNI_TRUE: u8 = 1;

/// Booleans from a pinned managed boolean array: an element is true exactly
/// when it holds `JNI_TRUE`.
pub fn booleans_from_managed(values: &[u8]) -> (r: Vec<bool>)
    ensures
        r@.len() == values@.len(),
        forall|i: int| 0 <= i < values@.len() ==> #[trigger] r@[i] == (values@[i] == JNI_TRUE),
{
    let mut out: Vec<bool> = Vec::new();
    let mut i: usize = 0;
    while i < values.len()
        invariant
            i <= values@.len(),
            out@.len() == i,
            forall|k: int| 0 <= k < i ==> #[trigger] out@[k] == (values@[k] == JNI_TRUE),
        decreases values@.len() - i,
    {
        out.push(values[i] == JNI_TRUE);
        i = i + 1;
    }
    out
}

/// A boolean column named `name`: one cell per element of the pinned managed
/// array, true exactly where the element holds `JNI_TRUE`.
pub fn new_boolean_series(name: String, values: &[u8]) -> (r: Column)
    ensures
        r.name == name,
        r.values@.len() == values@.len(),
        forall|i: int|
            0 <= i < values@.len() ==> #[trigger] r.values@[i] == Value::Boolean(
                values@[i] == JNI_TRUE,
            ),
{
    let flags = booleans_from_managed(values);
    let mut cells: Vec<Value> = Vec::new();
    let mut i: usize = 0;
    while i < flags.len()
        invariant
            flags@.len() == values@.len(),
            forall|k: int| 0 <= k < values@.len() ==> #[trigger] flags@[k] == (values@[k] == JNI_TRUE),
            i <= flags@.len(),
            cells@.len() == i,
            forall|k: int|
                0 <= k < i ==> #[trigger] cells@[k] == Value::Boolean(values@[k] == JNI_TRUE),
        decreases flags@.len() - i,
    {
        cells.push(Value::Boolean(flags[i]));
        i = i + 1;
    }
    Column { name, values: cells }
}

/// A 32-bit integer column named `name`, element for element.
pub fn new_int_series(name: String, values: &[i32]) -> (r: Column)
    ensures
        r.name == name,
        r.values@.len() == values@.len(),
        forall|i: int| 0 <= i < values@.len() ==> #[trigger] r.values@[i] == Value::Int32(values@[i]),
{
    let mut cells: Vec<Value> = Vec::new();
    let mut i: usize = 0;
    while i < values.len()
        invariant
            i <= values@.len(),
            cells@.len() == i,
            forall|k: int| 0 <= k < i ==> #[trigger] cells@[k] == Value::Int32(values@[k]),
        decreases values@.len() - i,
    {
        cells.push(Value::Int32(values[i]));
        i = i + 1;
    }
    Column { name, values: cells }
}

/// A 64-bit integer column named `name`, element for element.
pub fn new_long_series(name: String, values: &[i64]) -> (r: Column)
    ensures
        r.name == name,
        r.values@.len() == values@.len(),
        forall|i: int| 0 <= i < values@.len() ==> #[trigger] r.values@[i] == Value::Int64(values@[i]),
{
    let mut cells: Vec<Value> = Vec::new();
    let mut i: usize = 0;
    while i < values.len()
        invariant
            i <= values@.len(),
            cells@.len() == i,
            forall|k: int| 0 <= k < i ==> #[trigger] cells@[k] == Value::Int64(values@[k]),
        decreases values@.len() - i,
    {
        cells.push(Value::Int64(values[i]));
        i = i + 1;
    }
    Column { name, values: cells }
}

/// A 32-bit float column named `name`, from the elements' bit patterns.
pub fn new_float_series(name: String, bits: &[u32]) -> (r: Column)
    ensures
        r.name == name,
        r.values@.len() == bits@.len(),
        forall|i: int| 0 <= i < bits@.len() ==> #[trigger] r.values@[i] == Value::Float32(bits@[i]),
{
    let mut cells: Vec<Value> = Vec::new();
    let mut i: usize = 0;
    while i < bits.len()
        invariant
            i <= bits@.len(),
            cells@.len() == i,
            forall|k: int| 0 <= k < i ==> #[trigger] cells@[k] == Value::Float32(bits@[k]),
        decreases bits@.len() - i,
    {
        cells.push(Value::Float32(bits[i]));
        i = i + 1;
    }
    Column { name, values: cells }
}

/// A 64-bit float column named `name`, from the elements' bit patterns.
pub fn new_double_series(name: String, bits: &[u64]) -> (r: Column)
    ensures
        r.name == name,
        r.values@.len() == bits@.len(),
        forall|i: int| 0 <= i < bits@.len() ==> #[trigger] r.values@[i] == Value::Float64(bits@[i]),
{
    let mut cells: Vec<Value> = Vec::new();
    let mut i: usize = 0;
    while i < bits.len()
        invariant
            i <= bits@.len(),
            cells@.len() == i,
            forall|k: int| 0 <= k < i ==> #[trigger] cells@[k] == Value::Float64(bits@[k]),
        decreases bits@.len() - i,
    {
        cells.push(Value::Float64(bits[i]));
        i = i + 1;
    }
    Column { name, values: cells }
}

/// A string column named `name`, one cell per string, in order.
pub fn new_str_series(name: String, values: Vec<String>) -> (r: Column)
    ensures
        r.name == name,
        r.values@.len() == values@.len(),
        forall|i: int|
            0 <= i < values@.len() ==> (#[trigger] r.values@[i] matches Value::Str(s) && s@
                == values@[i]@),
{
    let ghost initial = values@;
    let mut values = values;
    let mut cells: Vec<Value> = Vec::new();
    let mut i: usize = 0;
    while i < values.len()
        invariant
            values@.len() == initial.len(),
            i <= initial.len(),
            forall|k: int| i <= k < initial.len() ==> values@[k] == initial[k],
            cells@.len() == i,
            forall|k: int|
                0 <= k < i ==> (#[trigger] cells@[k] matches Value::Str(s) && s@ == initial[k]@),
        decreases initial.len() - i,
    {
        let mut s = String::new();
        std::mem::swap(&mut s, &mut values[i]);
        cells.push(Value::Str(s));
        i = i + 1;
    }
    Column { name, values: cells }
}

/// A list column named `name`: one cell per child column, holding that
/// column's cells in order.
pub fn new_list_series(name: String, children: Vec<Column>) -> (r: Column)
    ensures
        r.name == name,
        r.values@.len() == children@.len(),
        forall|i: int|
            0 <= i < children@.len() ==> (#[trigger] r.values@[i] matches Value::List(vs) && vs@
                == children@[i].values@),
{
    let ghost initial = children@;
    let mut children = children;
    let mut cells: Vec<Value> = Vec::new();
    let mut i: usize = 0;
    while i < children.len()
        invariant
            children@.len() == initial.len(),
            i <= initial.len(),
            forall|k: int| i <= k < initial.len() ==> children@[k] == initial[k],
            cells@.len() == i,
            forall|k: int|
                0 <= k < i ==> (#[trigger] cells@[k] matches Value::List(vs) && vs@
                    == initial[k].values@),
        decreases initial.len() - i,
    {
        let mut child = Column { name: String::new(), values: Vec::new() };
        std::mem::swap(&mut child, &mut children[i]);
        cells.push(Value::List(child.values));
        i = i + 1;
    }
    Column { name, values: cells }
}

} // verus!
