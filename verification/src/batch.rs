use vstd::prelude::*;
use crate::bitmap::{bits_of, ValidityBitmap};
use crate::column::{Column, ColumnView};
use crate::error::ValidityError;

verus! {

/// What a record batch is, mathematically: its columns in order, and the
/// number of rows that each of them shows.
pub struct BatchView {
    pub columns: Seq<ColumnView>,
    pub num_rows: nat,
}

impl BatchView {
    /// Every column is well formed and shows `num_rows` rows.
    pub open spec fn wf(self) -> bool {
        forall|c: int|
            0 <= c < self.columns.len() ==> (#[trigger] self.columns[c]).wf()
                && self.columns[c].len == self.num_rows
    }

    /// Whether row `row` of column `column` is null.
    pub open spec fn null_at(self, column: int, row: int) -> bool {
        self.columns[column].null_at(row)
    }

    /// The batch of `len` rows that starts at row `offset` of this one:
    /// every column sliced alike.
    pub open spec fn slice(self, offset: nat, len: nat) -> BatchView {
        BatchView {
            columns: Seq::new(self.columns.len(), |c: int| self.columns[c].slice(offset, len)),
            num_rows: len,
        }
    }
}

/// The views of a run of columns, in order.
pub open spec fn column_views(columns: Seq<Column>) -> Seq<ColumnView> {
    Seq::new(columns.len(), |c: int| columns[c]@)
}

/// The unsliced column of `num_rows` rows over a raw buffer, or over none.
pub open spec fn raw_column(buffer: Option<Vec<u8>>, num_rows: usize) -> ColumnView {
    ColumnView {
        bits: match buffer {
            Some(bytes) => Some(bits_of(bytes@)),
            None => None,
        },
        offset: 0,
        len: num_rows as nat,
    }
}

/// A raw buffer, where there is one, holds a bit for each of `num_rows`
/// rows, and no more bits than `usize` can count.
pub open spec fn buffer_fits(buffer: Option<Vec<u8>>, num_rows: usize) -> bool {
    buffer matches Some(bytes) ==> num_rows <= bytes@.len() * 8 <= usize::MAX
}

/// A batch of columns that all show the same number of rows.
#[derive(Debug)]
pub struct RecordBatch {
    columns: Vec<Column>,
    num_rows: usize,
}

impl View for RecordBatch {
    type V = BatchView;

    closed spec fn view(&self) -> BatchView {
        BatchView { columns: column_views(self.columns@), num_rows: self.num_rows as nat }
    }
}

impl RecordBatch {
    /// The columns agree on the row count, and each keeps its own invariant.
    #[verifier::type_invariant]
    pub closed spec fn wf(&self) -> bool {
        &&& self@.wf()
        &&& forall|c: int| 0 <= c < self.columns@.len() ==> (#[trigger] self.columns@[c]).wf()
    }

    /// A batch declared to hold `num_columns` columns of `num_rows` rows.
    ///
    /// Fails with `MalformedInput` exactly when the declaration disagrees
    /// with what is supplied: another number of columns, or a column that
    /// shows another number of rows.
    pub fn new(num_columns: usize, num_rows: usize, columns: Vec<Column>) -> (r: Result<
        RecordBatch,
        ValidityError,
    >)
        ensures
            Self::matches_declaration(num_columns, num_rows, columns@) ==> r is Ok && r->Ok_0@ == (
            BatchView { columns: column_views(columns@), num_rows: num_rows as nat }),
            !Self::matches_declaration(num_columns, num_rows, columns@) ==> r == Err::<
                RecordBatch,
                ValidityError,
            >(ValidityError::MalformedInput),
    {
        if columns.len() != num_columns {
            return Err(ValidityError::MalformedInput);
        }
        let mut c: usize = 0;
        while c < columns.len()
            invariant
                c <= columns@.len(),
                forall|j: int|
                    0 <= j < c ==> (#[trigger] columns@[j]).wf() && columns@[j]@.len == num_rows,
            decreases columns@.len() - c,
        {
            let column = &columns[c];
            proof {
                use_type_invariant(column);
            }
            if column.len() != num_rows {
                return Err(ValidityError::MalformedInput);
            }
            c = c + 1;
        }
        Ok(RecordBatch { columns, num_rows })
    }

    /// A batch built from raw validity buffers, one for each column and
    /// `None` for a column without nulls, as they come from outside together
    /// with the declared numbers of columns and rows.
    ///
    /// Fails with `MalformedInput` exactly when the declaration disagrees
    /// with the buffers: another number of them, or one that is too short
    /// for the rows or too long for its bits to be counted.
    pub fn from_buffers(num_columns: usize, num_rows: usize, buffers: Vec<Option<Vec<u8>>>) -> (r:
        Result<RecordBatch, ValidityError>)
        ensures
            Self::buffers_match(num_columns, num_rows, buffers@) ==> r is Ok && r->Ok_0@ == (
            BatchView {
                columns: Seq::new(buffers@.len(), |c: int| raw_column(buffers@[c], num_rows)),
                num_rows: num_rows as nat,
            }),
            !Self::buffers_match(num_columns, num_rows, buffers@) ==> r == Err::<
                RecordBatch,
                ValidityError,
            >(ValidityError::MalformedInput),
    {
        if buffers.len() != num_columns {
            return Err(ValidityError::MalformedInput);
        }
        let ghost raw = buffers@;
        let mut columns: Vec<Column> = Vec::new();
        for buffer in it: buffers
            invariant
                it.seq() == raw,
                columns@.len() == it.index(),
                forall|c: int|
                    0 <= c < columns@.len() ==> (#[trigger] columns@[c]).wf() && columns@[c]@
                        == raw_column(raw[c], num_rows) && buffer_fits(raw[c], num_rows),
        {
            let bitmap = match buffer {
                Some(bytes) => match ValidityBitmap::from_bytes(bytes) {
                    Ok(bitmap) => Some(bitmap),
                    Err(e) => {
                        return Err(e);
                    },
                },
                None => None,
            };
            match Column::new(bitmap, num_rows) {
                Ok(column) => {
                    proof {
                        use_type_invariant(&column);
                    }
                    columns.push(column);
                },
                Err(e) => {
                    return Err(e);
                },
            }
        }
        let batch = RecordBatch { columns, num_rows };
        proof {
            assert forall|c: int| 0 <= c < raw.len() implies buffer_fits(
                #[trigger] raw[c],
                num_rows,
            ) by {
                assert(batch.columns@[c].wf());
            }
            assert(batch@.columns =~= Seq::new(raw.len(), |c: int| raw_column(raw[c], num_rows)));
        }
        Ok(batch)
    }

    /// The buffers are as many as declared and each fits the declared rows.
    pub open spec fn buffers_match(
        num_columns: usize,
        num_rows: usize,
        buffers: Seq<Option<Vec<u8>>>,
    ) -> bool {
        &&& buffers.len() == num_columns
        &&& forall|c: int| 0 <= c < buffers.len() ==> buffer_fits(#[trigger] buffers[c], num_rows)
    }

    /// The supplied columns are as many as declared and each shows the
    /// declared number of rows.
    pub open spec fn matches_declaration(
        num_columns: usize,
        num_rows: usize,
        columns: Seq<Column>,
    ) -> bool {
        &&& columns.len() == num_columns
        &&& forall|c: int| 0 <= c < columns.len() ==> (#[trigger] columns[c])@.len == num_rows
    }

    /// The number of rows in every column.
    pub fn num_rows(&self) -> (n: usize)
        ensures
            n == self@.num_rows,
    {
        self.num_rows
    }

    /// The number of columns.
    pub fn num_columns(&self) -> (n: usize)
        ensures
            n == self@.columns.len(),
    {
        self.columns.len()
    }

    /// The column at an index known to be in bounds.
    pub(crate) fn column_at(&self, index: usize) -> (column: &Column)
        requires
            index < self@.columns.len(),
        ensures
            column@ == self@.columns[index as int],
            column@.len == self@.num_rows,
    {
        proof {
            use_type_invariant(self);
            assert(self@.columns[index as int] == self.columns@[index as int]@);
        }
        &self.columns[index]
    }

    /// The column at `index`.
    ///
    /// Fails with `OutOfRange` exactly when `index` is not below the number
    /// of columns.
    pub fn column(&self, index: usize) -> (r: Result<&Column, ValidityError>)
        ensures
            index < self@.columns.len() ==> r is Ok && r->Ok_0@ == self@.columns[index as int]
                && r->Ok_0@.len == self@.num_rows,
            index >= self@.columns.len() ==> r == Err::<&Column, ValidityError>(
                ValidityError::OutOfRange,
            ),
    {
        if index >= self.columns.len() {
            Err(ValidityError::OutOfRange)
        } else {
            Ok(self.column_at(index))
        }
    }

    /// Whether row `row` of column `column` is null.
    ///
    /// Fails with `OutOfRange` exactly when the column index or the row
    /// index is out of bounds.
    pub fn is_null(&self, column: usize, row: usize) -> (r: Result<bool, ValidityError>)
        ensures
            column < self@.columns.len() && row < self@.num_rows ==> r == Ok::<
                bool,
                ValidityError,
            >(self@.null_at(column as int, row as int)),
            column >= self@.columns.len() || row >= self@.num_rows ==> r == Err::<
                bool,
                ValidityError,
            >(ValidityError::OutOfRange),
    {
        if column >= self.columns.len() {
            return Err(ValidityError::OutOfRange);
        }
        self.column_at(column).is_null(row)
    }

    /// The batch of `len` rows starting at row `offset`: each column is
    /// sliced alike and keeps sharing its buffer.
    ///
    /// Fails with `OutOfRange` exactly when `offset + len` exceeds the
    /// number of rows.
    pub fn slice(&self, offset: usize, len: usize) -> (r: Result<RecordBatch, ValidityError>)
        ensures
            offset + len <= self@.num_rows ==> r is Ok && r->Ok_0@ == self@.slice(
                offset as nat,
                len as nat,
            ),
            offset + len > self@.num_rows ==> r == Err::<RecordBatch, ValidityError>(
                ValidityError::OutOfRange,
            ),
    {
        proof {
            use_type_invariant(self);
        }
        if offset > self.num_rows || len > self.num_rows - offset {
            return Err(ValidityError::OutOfRange);
        }
        let mut columns: Vec<Column> = Vec::new();
        let mut c: usize = 0;
        while c < self.columns.len()
            invariant
                self.wf(),
                offset + len <= self@.num_rows,
                c <= self.columns@.len(),
                columns@.len() == c,
                forall|j: int|
                    0 <= j < c ==> (#[trigger] columns@[j]).wf() && columns@[j]@
                        == self.columns@[j]@.slice(offset as nat, len as nat),
            decreases self.columns@.len() - c,
        {
            assert(self@.columns[c as int] == self.columns@[c as int]@);
            let s = self.columns[c].window(offset, len);
            proof {
                use_type_invariant(&s);
            }
            columns.push(s);
            c = c + 1;
        }
        let sliced = RecordBatch { columns, num_rows: len };
        assert(sliced@.columns =~= self@.slice(offset as nat, len as nat).columns);
        Ok(sliced)
    }
}

/// A sliced batch is well formed, has the columns of its origin, and shows
/// the number of rows asked for; the buffer behind each column is as long
/// as it was.
pub proof fn lemma_batch_slice_shape(origin: BatchView, offset: nat, len: nat)
    requires
        origin.wf(),
        offset + len <= origin.num_rows,
    ensures
        origin.slice(offset, len).wf(),
        origin.slice(offset, len).num_rows == len,
        origin.slice(offset, len).columns.len() == origin.columns.len(),
        forall|c: int|
            0 <= c < origin.columns.len() ==> (#[trigger] origin.slice(
                offset,
                len,
            ).columns[c]).bit_len() == origin.columns[c].bit_len(),
{
}

/// Row `r` of a column of a sliced batch is null exactly when row
/// `offset + r` of that column of its origin is.
pub proof fn lemma_batch_slice_null_at(origin: BatchView, offset: nat, len: nat, c: int, r: int)
    requires
        origin.wf(),
        offset + len <= origin.num_rows,
        0 <= c < origin.columns.len(),
        0 <= r < len,
    ensures
        origin.slice(offset, len).null_at(c, r) == origin.null_at(c, offset + r),
{
}

/// Slicing a sliced batch is slicing the origin at the sum of the offsets.
pub proof fn lemma_batch_slice_of_slice(batch: BatchView, a: nat, la: nat, b: nat, lb: nat)
    requires
        batch.wf(),
        a + la <= batch.num_rows,
        b + lb <= la,
    ensures
        a + b + lb <= batch.num_rows,
        batch.slice(a, la).slice(b, lb) == batch.slice(a + b, lb),
{
    assert(batch.slice(a, la).slice(b, lb).columns =~= batch.slice(a + b, lb).columns);
}

} // verus!
