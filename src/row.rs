//! A frame of equal-length columns, and a cursor that yields its rows one at
//! a time.
use vstd::prelude::*;

use crate::value::{Column, Value};

verus! {

/// Named columns of equal length.
#[derive(Debug, PartialEq)]
pub struct Frame {
    pub columns: Vec<Column>,
}

impl Frame {
    pub open spec fn spec_height(&self) -> nat {
        if self.columns@.len() == 0 {
            0
        } else {
            self.columns@[0].values@.len()
        }
    }

    /// Every column has the same length.
    pub open spec fn wf(&self) -> bool {
        forall|c: int|
            0 <= c < self.columns@.len() ==> #[trigger] self.columns@[c].values@.len()
                == self.spec_height()
    }

    /// The cell of column `c` at row `r`.
    pub open spec fn cell(&self, r: int, c: int) -> Value {
        self.columns@[c].values@[r]
    }

    /// A frame of the given columns, or `None` where their lengths differ.
    pub fn from_columns(columns: Vec<Column>) -> (r: Option<Frame>)
        ensures
            r is Some <==> (forall|c: int|
                0 <= c < columns@.len() ==> #[trigger] columns@[c].values@.len()
                    == columns@[0].values@.len()),
            r matches Some(f) ==> f.columns == columns && f.wf(),
    {
        let mut c: usize = 0;
        while c < columns.len()
            invariant
                c <= columns@.len(),
                forall|k: int|
                    0 <= k < c ==> #[trigger] columns@[k].values@.len()
                        == columns@[0].values@.len(),
            decreases columns@.len() - c,
        {
            if columns[c].values.len() != columns[0].values.len() {
                return None;
            }
            c = c + 1;
        }
        Some(Frame { columns })
    }

    pub fn width(&self) -> (r: usize)
        ensures
            r == self.columns@.len(),
    {
        self.columns.len()
    }

    pub fn height(&self) -> (r: usize)
        ensures
            r == self.spec_height(),
    {
        if self.columns.len() == 0 {
            0
        } else {
            self.columns[0].values.len()
        }
    }
}

/// Position of cell `(r, c)` in a row-major buffer of rows `width` wide.
pub open spec fn slot(width: int, r: int, c: int) -> int {
    r * width + c
}

proof fn lemma_slot_bounds(width: int, r: int, c: int, rows: int)
    requires
        0 <= c < width,
        0 <= r < rows,
    ensures
        r * width <= slot(width, r, c) < (r + 1) * width,
        (r + 1) * width <= rows * width,
        slot(width, r, c) < width * rows,
{
    assert((r + 1) * width <= rows * width) by (nonlinear_arith)
        requires
            0 <= r < rows,
            0 < width,
    ;
    assert((r + 1) * width == r * width + width) by (nonlinear_arith);
    assert(rows * width == width * rows) by (nonlinear_arith);
}

proof fn lemma_slot_distinct(width: int, r1: int, c1: int, r2: int, c2: int)
    requires
        0 <= c1 < width,
        0 <= c2 < width,
        0 <= r1,
        0 <= r2,
        r1 != r2 || c1 != c2,
    ensures
        slot(width, r1, c1) != slot(width, r2, c2),
{
    if r1 < r2 {
        assert(r1 * width + width <= r2 * width) by (nonlinear_arith)
            requires
                r1 < r2,
                0 < width,
        ;
    } else if r2 < r1 {
        assert(r2 * width + width <= r1 * width) by (nonlinear_arith)
            requires
                r2 < r1,
                0 < width,
        ;
    }
}

/// The rows still owed by a cursor over `rows` rows, when the limit asked for
/// is `limit`.
pub open spec fn row_limit(rows: nat, limit: Option<usize>) -> nat {
    match limit {
        Some(l) => if l < rows {
            l as nat
        } else {
            rows
        },
        None => rows,
    }
}

/// The row limit a managed caller passes: a positive count limits the rows,
/// anything else asks for all of them.
pub fn get_n_rows(n_rows: i64) -> (r: Option<usize>)
    ensures
        r == if n_rows > 0 && n_rows <= usize::MAX {
            Some(n_rows as usize)
        } else if n_rows > 0 {
            Some(usize::MAX)
        } else {
            None::<usize>
        },
{
    if n_rows > 0 {
        if n_rows as u64 <= usize::MAX as u64 {
            Some(n_rows as usize)
        } else {
            Some(usize::MAX)
        }
    } else {
        None
    }
}

/// A cursor over the rows of a frame, held row-major. It is `Ready` while
/// `start < end` and exhausted after; it never goes back.
pub struct RowIterator {
    vals: Vec<Value>,
    width: usize,
    start: usize,
    end: usize,
    names: Vec<String>,
}

impl RowIterator {
    pub closed spec fn wf(&self) -> bool {
        &&& self.start <= self.end
        &&& self.end * self.width <= self.vals@.len()
    }

    pub closed spec fn spec_width(&self) -> nat {
        self.width as nat
    }

    pub closed spec fn spec_position(&self) -> nat {
        self.start as nat
    }

    pub closed spec fn spec_end(&self) -> nat {
        self.end as nat
    }

    /// The names of the columns, in order.
    pub closed spec fn spec_names(&self) -> Seq<String> {
        self.names@
    }

    /// The rows that later calls of `advance` yield, in order.
    pub closed spec fn remaining(&self) -> Seq<Seq<Value>> {
        Seq::new(
            (self.end - self.start) as nat,
            |k: int|
                Seq::new(
                    self.width as nat,
                    |c: int| self.vals@[slot(self.width as int, self.start + k, c)],
                ),
        )
    }

    /// Forces the columns of `frame` into one row-major buffer and starts at
    /// the first row; at most `limit` rows are yielded.
    pub fn new(frame: Frame, limit: Option<usize>) -> (r: RowIterator)
        requires
            frame.wf(),
            frame.columns@.len() * frame.spec_height() <= usize::MAX,
        ensures
            r.wf(),
            r.spec_position() == 0,
            r.spec_position() <= r.spec_end(),
            r.spec_width() == frame.columns@.len(),
            r.spec_end() == row_limit(frame.spec_height(), limit),
            r.remaining().len() == row_limit(frame.spec_height(), limit),
            forall|k: int, c: int|
                0 <= k < r.remaining().len() && 0 <= c < frame.columns@.len() ==> #[trigger] r.remaining()[k][c]
                    == frame.cell(k, c),
            r.spec_names().len() == frame.columns@.len(),
            forall|c: int|
                0 <= c < frame.columns@.len() ==> #[trigger] r.spec_names()[c]@
                    == frame.columns@[c].name@,
    {
        let width = frame.width();
        let height = frame.height();
        let size = width * height;
        let ghost initial = frame.columns@;
        let mut buf: Vec<Value> = Vec::new();
        while buf.len() < size
            invariant
                buf@.len() <= size,
            decreases size - buf@.len(),
        {
            buf.push(Value::Null);
        }
        let mut names: Vec<String> = Vec::new();
        let mut n: usize = 0;
        while n < width
            invariant
                width == initial.len(),
                n <= width,
                frame.columns@ == initial,
                names@.len() == n,
                forall|c: int| 0 <= c < n ==> #[trigger] names@[c]@ == initial[c].name@,
            decreases width - n,
        {
            names.push(String::from_str(frame.columns[n].name.as_str()));
            n = n + 1;
        }
        let mut cols = frame.columns;
        let mut c: usize = width;
        while c > 0
            invariant
                width == initial.len(),
                height == frame.spec_height(),
                size == width * height,
                frame.wf(),
                initial == frame.columns@,
                c <= width,
                cols@ == initial.subrange(0, c as int),
                buf@.len() == size,
                forall|r: int, d: int|
                    0 <= r < height && c <= d < width ==> #[trigger] buf@[slot(width as int, r, d)]
                        == initial[d].values@[r],
            decreases c,
        {
            c = c - 1;
            let column = cols.pop().unwrap();
            let mut vs = column.values;
            let mut r: usize = height;
            while r > 0
                invariant
                    width == initial.len(),
                    height == frame.spec_height(),
                    size == width * height,
                    c < width,
                    r <= height,
                    initial[c as int].values@.len() == height,
                    vs@ == initial[c as int].values@.subrange(0, r as int),
                    buf@.len() == size,
                    forall|q: int, d: int|
                        0 <= q < height && c < d < width ==> #[trigger] buf@[slot(width as int, q, d)]
                            == initial[d].values@[q],
                    forall|q: int|
                        r <= q < height ==> #[trigger] buf@[slot(width as int, q, c as int)]
                            == initial[c as int].values@[q],
                decreases r,
            {
                r = r - 1;
                let v = vs.pop().unwrap();
                proof {
                    lemma_slot_bounds(width as int, r as int, c as int, height as int);
                }
                let ghost prior = buf@;
                buf[r * width + c] = v;
                assert forall|q: int, d: int|
                    0 <= q < height && c < d < width implies #[trigger] buf@[slot(
                    width as int,
                    q,
                    d,
                )] == initial[d].values@[q] by {
                    lemma_slot_distinct(width as int, q, d, r as int, c as int);
                    lemma_slot_bounds(width as int, q, d, height as int);
                    assert(buf@[slot(width as int, q, d)] == prior[slot(width as int, q, d)]);
                }
                assert forall|q: int|
                    r <= q < height implies #[trigger] buf@[slot(width as int, q, c as int)]
                    == initial[c as int].values@[q] by {
                    if q != r {
                        lemma_slot_distinct(width as int, q, c as int, r as int, c as int);
                        lemma_slot_bounds(width as int, q, c as int, height as int);
                        assert(buf@[slot(width as int, q, c as int)] == prior[slot(
                            width as int,
                            q,
                            c as int,
                        )]);
                    }
                }
            }
        }
        let end = match limit {
            Some(l) => if l < height {
                l
            } else {
                height
            },
            None => height,
        };
        let it = RowIterator { vals: buf, width, start: 0, end, names };
        proof {
            assert forall|k: int, d: int|
                0 <= k < it.remaining().len() && 0 <= d < width implies #[trigger] it.remaining()[k][d]
                == frame.cell(k, d) by {
                assert(it.remaining()[k][d] == buf@[slot(width as int, k, d)]);
            }
            if width > 0 {
                assert(end * width <= width * height) by (nonlinear_arith)
                    requires
                        end <= height,
                ;
            }
        }
        it
    }

    /// The row before which the cursor stops.
    pub fn end(&self) -> (r: usize)
        ensures
            r == self.spec_end(),
    {
        self.end
    }

    /// The names of the frame's columns, in order.
    pub fn names(&self) -> (r: &Vec<String>)
        ensures
            r@ == self.spec_names(),
    {
        &self.names
    }

    /// Yields the next row, one cell per column, and moves past it; once the
    /// rows up to `end` are spent, yields `None` on every call.
    pub fn advance(&mut self) -> (r: Option<Vec<Value>>)
        requires
            old(self).wf(),
        ensures
            advanced(*old(self), r, *final(self)),
    {
        if self.start < self.end {
            let ghost before = *self;
            let width = self.width;
            let total = self.vals.len();
            assert(self.start * width <= self.end * width) by (nonlinear_arith)
                requires
                    self.start < self.end,
            ;
            let base = self.start * width;
            let mut row: Vec<Value> = Vec::new();
            let mut c: usize = 0;
            while c < width
                invariant
                    before.wf(),
                    before.start < before.end,
                    self.width == width,
                    self.start == before.start,
                    self.end == before.end,
                    self.names == before.names,
                    base == before.start * width,
                    before.end * width <= before.vals@.len(),
                    before.vals@.len() == total,
                    c <= width,
                    forall|d: int|
                        c <= d < width ==> #[trigger] self.vals@[slot(
                            width as int,
                            before.start as int,
                            d,
                        )] == before.vals@[slot(width as int, before.start as int, d)],
                    self.vals@.len() == before.vals@.len(),
                    row@.len() == c,
                    forall|d: int|
                        0 <= d < c ==> #[trigger] row@[d] == before.vals@[slot(
                            width as int,
                            before.start as int,
                            d,
                        )],
                    forall|q: int, d: int|
                        before.start < q < before.end && 0 <= d < width ==> #[trigger] self.vals@[slot(
                            width as int,
                            q,
                            d,
                        )] == before.vals@[slot(width as int, q, d)],
                decreases width - c,
            {
                proof {
                    lemma_slot_bounds(width as int, before.start as int, c as int, before.end as int);
                }
                let ghost prior = self.vals@;
                let mut cell = Value::Null;
                std::mem::swap(&mut cell, &mut self.vals[base + c]);
                row.push(cell);
                assert forall|q: int, d: int|
                    before.start < q < before.end && 0 <= d < width implies #[trigger] self.vals@[slot(
                    width as int,
                    q,
                    d,
                )] == before.vals@[slot(width as int, q, d)] by {
                    lemma_slot_distinct(width as int, q, d, before.start as int, c as int);
                    lemma_slot_bounds(width as int, q, d, before.end as int);
                    assert(self.vals@[slot(width as int, q, d)] == prior[slot(width as int, q, d)]);
                }
                assert forall|d: int|
                    c < d < width implies #[trigger] self.vals@[slot(
                    width as int,
                    before.start as int,
                    d,
                )] == before.vals@[slot(width as int, before.start as int, d)] by {
                    lemma_slot_distinct(width as int, before.start as int, d, before.start as int, c as int);
                    lemma_slot_bounds(width as int, before.start as int, d, before.end as int);
                    assert(self.vals@[slot(width as int, before.start as int, d)] == prior[slot(
                        width as int,
                        before.start as int,
                        d,
                    )]);
                }
                c = c + 1;
            }
            self.start = self.start + 1;
            proof {
                assert(row@ =~= before.remaining()[0]);
                assert(self.remaining() =~= before.remaining().drop_first()) by {
                    assert forall|k: int|
                        0 <= k < self.remaining().len() implies #[trigger] self.remaining()[k]
                        =~= before.remaining()[k + 1] by {
                        assert forall|d: int| 0 <= d < width implies #[trigger] self.vals@[slot(
                            width as int,
                            self.start + k,
                            d,
                        )] == before.vals@[slot(width as int, before.start + k + 1, d)] by {}
                    }
                }
            }
            Some(row)
        } else {
            assert(self.remaining().len() == 0);
            None
        }
    }
}

/// One call of `advance` took the cursor from `before` to `after` and
/// returned `r`: the first remaining row when there was one, else `None`
/// with nothing changed.
pub open spec fn advanced(before: RowIterator, r: Option<Vec<Value>>, after: RowIterator) -> bool {
    &&& before.remaining().len() == before.spec_end() - before.spec_position()
    &&& after.remaining().len() == after.spec_end() - after.spec_position()
    &&& (r is Some <==> before.spec_position() < before.spec_end())
    &&& after.spec_position() <= after.spec_end()
    &&& after.wf()
    &&& after.spec_width() == before.spec_width()
    &&& after.spec_end() == before.spec_end()
    &&& after.spec_names() == before.spec_names()
    &&& if before.remaining().len() > 0 {
        &&& r matches Some(row) && row@ == before.remaining()[0]
        &&& after.remaining() == before.remaining().drop_first()
        &&& after.spec_position() == before.spec_position() + 1
    } else {
        &&& r is None
        &&& after.remaining() == before.remaining()
        &&& after.spec_position() == before.spec_position()
    }
}

proof fn lemma_rows_owed(states: Seq<RowIterator>, results: Seq<Option<Vec<Value>>>, n: nat, i: nat)
    requires
        states.len() == results.len() + 1,
        states[0].remaining().len() == n,
        forall|j: int|
            0 <= j < results.len() ==> #[trigger] advanced(states[j], results[j], states[j + 1]),
        i <= results.len(),
    ensures
        states[i as int].remaining().len() == if i < n {
            n - i
        } else {
            0
        },
    decreases i,
{
    if i > 0 {
        lemma_rows_owed(states, results, n, (i - 1) as nat);
        let j: int = i - 1;
        assert(advanced(states[j], results[j], states[j + 1]));
    }
}

/// A cursor over a frame of `height` rows, made with row limit `limit`,
/// yields a row on each of its first `min(height, limit)` calls of `advance`
/// and `None` on every call after those, for good.
pub proof fn lemma_cursor_exhaustion(
    states: Seq<RowIterator>,
    results: Seq<Option<Vec<Value>>>,
    height: nat,
    limit: Option<usize>,
)
    requires
        states.len() == results.len() + 1,
        states[0].remaining().len() == row_limit(height, limit),
        forall|j: int|
            0 <= j < results.len() ==> #[trigger] advanced(states[j], results[j], states[j + 1]),
    ensures
        forall|j: int|
            0 <= j < results.len() ==> (#[trigger] results[j] is Some <==> j < row_limit(
                height,
                limit,
            )),
        forall|j: int|
            0 <= j < states.len() && j >= row_limit(height, limit) ==> (
            #[trigger] states[j]).remaining().len() == 0,
{
    let n = row_limit(height, limit);
    assert forall|j: int| 0 <= j < results.len() implies (#[trigger] results[j] is Some <==> j < n) by {
        lemma_rows_owed(states, results, n, j as nat);
        assert(advanced(states[j], results[j], states[j + 1]));
    }
    assert forall|j: int| 0 <= j < states.len() && j >= n implies (
    #[trigger] states[j]).remaining().len() == 0 by {
        lemma_rows_owed(states, results, n, j as nat);
    }
}

} // verus!
