use vstd::prelude::*;
use crate::batch::{BatchView, RecordBatch};
use crate::column::ColumnView;

verus! {

/// One step of a walk over a batch.
#[derive(Clone, Copy, Debug, PartialEq, Eq)]
pub enum RowEvent {
    /// A column begins: its index, and the bit length of the buffer behind
    /// it, if it has one.
    Column { column: usize, bit_len: Option<usize> },
    /// One row of the column that began last, and whether it is null.
    Row { column: usize, row: usize, is_null: bool },
}

/// The event that opens column `c`.
pub open spec fn column_event(col: ColumnView, c: int) -> RowEvent {
    RowEvent::Column {
        column: c as usize,
        bit_len: match col.bit_len() {
            Some(n) => Some(n as usize),
            None => None,
        },
    }
}

/// The event for row `r` of column `c`.
pub open spec fn row_event(col: ColumnView, c: int, r: int) -> RowEvent {
    RowEvent::Row { column: c as usize, row: r as usize, is_null: col.null_at(r) }
}

/// The row events of column `c` from row `r` to its last row, in row order.
pub open spec fn rows_from(col: ColumnView, c: int, r: int) -> Seq<RowEvent> {
    Seq::new((col.len - r) as nat, |i: int| row_event(col, c, r + i))
}

/// Everything a walk says of column `c`: the opening event, then each row.
pub open spec fn column_trace(col: ColumnView, c: int) -> Seq<RowEvent> {
    seq![column_event(col, c)] + rows_from(col, c, 0)
}

/// The traces of the columns from index `c` on, one after the other.
pub open spec fn trace_from(columns: Seq<ColumnView>, c: int) -> Seq<RowEvent>
    decreases columns.len() - c,
{
    if 0 <= c < columns.len() {
        column_trace(columns[c], c) + trace_from(columns, c + 1)
    } else {
        Seq::empty()
    }
}

/// The whole walk over a batch: column by column in the batch's order, and
/// within a column row by row.
pub open spec fn batch_trace(batch: BatchView) -> Seq<RowEvent> {
    trace_from(batch.columns, 0)
}

/// A walk over a batch that yields one event for each call of `next`, and
/// computes nothing ahead of the call.
pub struct RowWalk<'a> {
    batch: &'a RecordBatch,
    column: usize,
    row: usize,
    announced: bool,
}

impl<'a> RowWalk<'a> {
    /// The walk stands before a column, inside one, or past the last.
    #[verifier::type_invariant]
    pub closed spec fn wf(&self) -> bool {
        &&& self.column <= self.batch@.columns.len()
        &&& self.announced ==> self.column < self.batch@.columns.len() && self.row
            < self.batch@.num_rows
        &&& !self.announced ==> self.row == 0
    }

    /// The batch that is walked.
    pub closed spec fn batch_view(&self) -> BatchView {
        self.batch@
    }

    /// The events still to come, in the order in which `next` yields them.
    pub closed spec fn pending(&self) -> Seq<RowEvent> {
        let columns = self.batch@.columns;
        if self.announced {
            rows_from(columns[self.column as int], self.column as int, self.row as int)
                + trace_from(columns, self.column + 1)
        } else {
            trace_from(columns, self.column as int)
        }
    }

    /// Goes back to the start of the batch.
    pub fn restart(&mut self)
        ensures
            final(self).batch_view() == old(self).batch_view(),
            final(self).pending() == batch_trace(old(self).batch_view()),
    {
        *self = RowWalk { batch: self.batch, column: 0, row: 0, announced: false };
    }

    /// Yields the next event, or `None` once the walk is over; a finished
    /// walk stays finished.
    pub fn next(&mut self) -> (r: Option<RowEvent>)
        ensures
            final(self).batch_view() == old(self).batch_view(),
            old(self).pending().len() == 0 ==> r.is_none(),
            old(self).pending().len() == 0 ==> final(self).pending() == old(self).pending(),
            old(self).pending().len() > 0 ==> r == Some(old(self).pending()[0]),
            old(self).pending().len() > 0 ==> final(self).pending() == old(self).pending().skip(1),
    {
        proof {
            use_type_invariant(&*self);
        }
        let batch = self.batch;
        if self.column >= batch.num_columns() {
            return None;
        }
        let c = self.column;
        let num_rows = batch.num_rows();
        let column = batch.column_at(c);
        let ghost columns = batch@.columns;
        let ghost rest = trace_from(columns, c + 1);
        if !self.announced {
            let event = RowEvent::Column { column: c, bit_len: column.bit_len() };
            if num_rows == 0 {
                *self = RowWalk { batch, column: c + 1, row: 0, announced: false };
                assert(old(self).pending().skip(1) =~= rest);
            } else {
                *self = RowWalk { batch, column: c, row: 0, announced: true };
                assert(old(self).pending().skip(1) =~= rows_from(columns[c as int], c as int, 0)
                    + rest);
            }
            Some(event)
        } else {
            let r = self.row;
            let event = RowEvent::Row { column: c, row: r, is_null: column.null_at(r) };
            assert(old(self).pending()[0] == rows_from(columns[c as int], c as int, r as int)[0]);
            if r + 1 == num_rows {
                *self = RowWalk { batch, column: c + 1, row: 0, announced: false };
                assert(old(self).pending().skip(1) =~= rest);
            } else {
                *self = RowWalk { batch, column: c, row: r + 1, announced: true };
                assert(old(self).pending().skip(1) =~= rows_from(
                    columns[c as int],
                    c as int,
                    r + 1,
                ) + rest);
            }
            Some(event)
        }
    }
}

/// Starts a walk over every column and every row of `batch`: for each
/// column, in the batch's order, first the bit length of its buffer, then
/// the null flag of each of its rows in row order. A new call starts a new
/// walk from the beginning.
pub fn for_each_row<'a>(batch: &'a RecordBatch) -> (walk: RowWalk<'a>)
    ensures
        walk.batch_view() == batch@,
        walk.pending() == batch_trace(batch@),
{
    RowWalk { batch, column: 0, row: 0, announced: false }
}

/// Runs a whole walk over `batch` and records its events in order.
pub fn collect_rows(batch: &RecordBatch) -> (events: Vec<RowEvent>)
    ensures
        events@ == batch_trace(batch@),
{
    let mut walk = for_each_row(batch);
    let mut events: Vec<RowEvent> = Vec::new();
    loop
        invariant
            events@ + walk.pending() == batch_trace(batch@),
        ensures
            events@ == batch_trace(batch@),
        decreases walk.pending().len(),
    {
        let ghost before = walk.pending();
        match walk.next() {
            Some(event) => {
                events.push(event);
                assert(events@ + walk.pending() =~= events@.drop_last() + before);
            },
            None => {
                assert(events@ + walk.pending() =~= events@);
                break ;
            },
        }
    }
    events
}

/// A walk over a sliced batch opens each column with the bit length that
/// the origin reports for it, and reports for row `r` the null flag of row
/// `offset + r` of the origin.
pub proof fn lemma_slice_events(origin: BatchView, offset: nat, len: nat, c: int, r: int)
    requires
        origin.wf(),
        offset + len <= origin.num_rows,
        0 <= c < origin.columns.len(),
        0 <= r < len,
    ensures
        column_event(origin.slice(offset, len).columns[c], c) == column_event(
            origin.columns[c],
            c,
        ),
        row_event(origin.slice(offset, len).columns[c], c, r) == (RowEvent::Row {
            column: c as usize,
            row: r as usize,
            is_null: origin.null_at(c, offset + r),
        }),
{
}

/// A walk over a well-formed batch yields one event more than its rows for
/// each of its columns.
pub proof fn lemma_trace_len(batch: BatchView, c: int)
    requires
        batch.wf(),
        0 <= c <= batch.columns.len(),
    ensures
        trace_from(batch.columns, c).len() == (batch.columns.len() - c) * (batch.num_rows + 1),
        c == 0 ==> batch_trace(batch).len() == batch.columns.len() * (batch.num_rows + 1),
    decreases batch.columns.len() - c,
{
    let m = batch.columns.len() as int;
    let n = batch.num_rows as int;
    if c < m {
        lemma_trace_len(batch, c + 1);
        assert(column_trace(batch.columns[c], c).len() == n + 1);
        assert((m - c) * (n + 1) == (m - (c + 1)) * (n + 1) + (n + 1)) by (nonlinear_arith);
    } else {
        assert((m - c) * (n + 1) == 0) by (nonlinear_arith)
            requires
                m - c == 0,
        ;
    }
}

/// The walk is column-major, then row-major: with `n` rows to a column, the
/// events of column `j` start at index `j * (n + 1)` with the event that
/// opens it, and row `r` of that column follows at distance `1 + r`.
pub proof fn lemma_trace_order(batch: BatchView, j: int, r: int)
    requires
        batch.wf(),
        0 <= j < batch.columns.len(),
        0 <= r < batch.num_rows,
    ensures
        0 <= j * (batch.num_rows + 1),
        j * (batch.num_rows + 1) + 1 + r < batch_trace(batch).len(),
        batch_trace(batch)[j * (batch.num_rows + 1)] == column_event(batch.columns[j], j),
        batch_trace(batch)[j * (batch.num_rows + 1) + 1 + r] == row_event(batch.columns[j], j, r),
{
    lemma_trace_len(batch, 0);
    lemma_trace_order_from(batch, 0, j);
    let n = batch.num_rows as int;
    let m = batch.columns.len() as int;
    assert(0 <= j * (n + 1) && (j + 1) * (n + 1) <= m * (n + 1) && (j + 1) * (n + 1) == j * (n
        + 1) + n + 1) by (nonlinear_arith)
        requires
            0 <= j < m,
            0 <= n,
    ;
}

/// The events of column `j` sit in the walk from column `c` on where the
/// columns between the two leave them.
proof fn lemma_trace_order_from(batch: BatchView, c: int, j: int)
    requires
        batch.wf(),
        0 <= c <= j < batch.columns.len(),
    ensures
        0 <= (j - c) * (batch.num_rows + 1),
        (j - c) * (batch.num_rows + 1) + batch.num_rows < trace_from(batch.columns, c).len(),
        trace_from(batch.columns, c)[(j - c) * (batch.num_rows + 1)] == column_event(
            batch.columns[j],
            j,
        ),
        forall|r: int|
            0 <= r < batch.num_rows ==> trace_from(batch.columns, c)[(j - c) * (batch.num_rows + 1)
                + 1 + r] == #[trigger] row_event(batch.columns[j], j, r),
    decreases j - c,
{
    let n = batch.num_rows as int;
    let m = batch.columns.len() as int;
    let head = column_trace(batch.columns[c], c);
    let tail = trace_from(batch.columns, c + 1);
    assert(head.len() == n + 1);
    lemma_trace_len(batch, c + 1);
    if c == j {
        assert((j - c) * (n + 1) == 0) by (nonlinear_arith)
            requires
                j - c == 0,
        ;
        assert forall|r: int| 0 <= r < n implies trace_from(batch.columns, c)[1 + r]
            == #[trigger] row_event(batch.columns[j], j, r) by {
            assert(head[1 + r] == rows_from(batch.columns[c], c, 0)[r]);
        }
    } else {
        lemma_trace_order_from(batch, c + 1, j);
        let k = (j - (c + 1)) * (n + 1);
        assert((j - c) * (n + 1) == k + (n + 1)) by (nonlinear_arith)
            requires
                k == (j - (c + 1)) * (n + 1),
        ;
        assert(trace_from(batch.columns, c)[k + (n + 1)] == tail[k]);
        assert forall|r: int| 0 <= r < n implies trace_from(batch.columns, c)[(j - c) * (n + 1) + 1
            + r] == #[trigger] row_event(batch.columns[j], j, r) by {
            assert(trace_from(batch.columns, c)[k + (n + 1) + 1 + r] == tail[k + 1 + r]);
        }
    }
}

} // verus!
