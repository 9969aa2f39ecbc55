use std::sync::Arc;
use vstd::prelude::*;
use crate::bitmap::ValidityBitmap;
use crate::error::ValidityError;

verus! {

/// What a column is, mathematically: the validity bits of the array it was
/// cut from, if that array has any, and the window of rows it shows.
pub struct ColumnView {
    /// The bits of the origin's buffer, `true` meaning present; `None` when
    /// the origin has no buffer because none of its rows is null.
    pub bits: Option<Seq<bool>>,
    /// The origin row that this column's row 0 stands for.
    pub offset: nat,
    /// The number of rows this column shows.
    pub len: nat,
}

impl ColumnView {
    /// The window lies inside the buffer, where there is one.
    pub open spec fn wf(self) -> bool {
        self.bits matches Some(b) ==> self.offset + self.len <= b.len()
    }

    /// The bit length of the origin's buffer, which no window changes.
    pub open spec fn bit_len(self) -> Option<nat> {
        match self.bits {
            Some(b) => Some(b.len()),
            None => None,
        }
    }

    /// Whether row `i` of the window is null: the bit at `offset + i` of the
    /// origin's buffer is clear. Without a buffer no row is null.
    pub open spec fn null_at(self, i: int) -> bool {
        match self.bits {
            Some(b) => !b[self.offset + i],
            None => false,
        }
    }

    /// The null flags of the rows shown, in row order.
    pub open spec fn nulls(self) -> Seq<bool> {
        Seq::new(self.len, |i: int| self.null_at(i))
    }

    /// The window of `len` rows that starts at row `offset` of this one.
    pub open spec fn slice(self, offset: nat, len: nat) -> ColumnView {
        ColumnView { bits: self.bits, offset: self.offset + offset, len }
    }
}

/// A column of values, each present or null, seen through a window
/// `[offset, offset + len)` onto a shared, immutable validity buffer.
#[derive(Debug)]
pub struct Column {
    bitmap: Option<Arc<ValidityBitmap>>,
    offset: usize,
    len: usize,
}

impl View for Column {
    type V = ColumnView;

    closed spec fn view(&self) -> ColumnView {
        ColumnView {
            bits: match self.bitmap {
                Some(b) => Some(b@),
                None => None,
            },
            offset: self.offset as nat,
            len: self.len as nat,
        }
    }
}

impl Clone for Column {
    /// Another handle on the same window of the same buffer.
    fn clone(&self) -> (c: Self)
        ensures
            c@ == self@,
    {
        self.window(0, self.len)
    }
}

impl Column {
    /// The window lies inside the buffer and its end fits in `usize`.
    #[verifier::type_invariant]
    pub open spec fn wf(&self) -> bool {
        &&& self@.wf()
        &&& self@.offset + self@.len <= usize::MAX
    }

    /// An unsliced column of `len` rows over `bitmap`, or over no buffer at
    /// all when every row is present.
    ///
    /// Fails with `MalformedInput` exactly when a buffer is given that holds
    /// fewer than `len` bits.
    pub fn new(bitmap: Option<ValidityBitmap>, len: usize) -> (r: Result<Column, ValidityError>)
        ensures
            match bitmap {
                Some(b) if b@.len() < len => r == Err::<Column, ValidityError>(
                    ValidityError::MalformedInput,
                ),
                Some(b) => r is Ok && r->Ok_0@ == (ColumnView {
                    bits: Some(b@),
                    offset: 0,
                    len: len as nat,
                }),
                None => r is Ok && r->Ok_0@ == (ColumnView { bits: None, offset: 0, len: len as nat }),
            },
    {
        match bitmap {
            Some(b) => {
                if b.bit_len() < len {
                    Err(ValidityError::MalformedInput)
                } else {
                    Ok(Column { bitmap: Some(Arc::new(b)), offset: 0, len })
                }
            },
            None => Ok(Column { bitmap: None, offset: 0, len }),
        }
    }

    /// The number of rows shown.
    pub fn len(&self) -> (n: usize)
        ensures
            n == self@.len,
    {
        self.len
    }

    /// The origin row that row 0 stands for.
    pub fn offset(&self) -> (n: usize)
        ensures
            n == self@.offset,
    {
        self.offset
    }

    /// The shared validity buffer, if the origin has one.
    pub fn validity(&self) -> (r: Option<&ValidityBitmap>)
        ensures
            match r {
                Some(b) => self@.bits == Some(b@),
                None => self@.bits.is_none(),
            },
    {
        match &self.bitmap {
            Some(b) => Some(&**b),
            None => None,
        }
    }

    /// The bit length of the origin's buffer: the same for the origin and
    /// for every slice of it, and never less than the rows shown.
    pub fn bit_len(&self) -> (r: Option<usize>)
        ensures
            match r {
                Some(n) => self@.bit_len() == Some(n as nat) && n >= self@.offset + self@.len,
                None => self@.bit_len().is_none(),
            },
    {
        proof {
            use_type_invariant(self);
        }
        match &self.bitmap {
            Some(b) => Some(b.bit_len()),
            None => None,
        }
    }

    /// Whether row `row` is null.
    ///
    /// Fails with `OutOfRange` exactly when `row` is not below `len`.
    pub fn is_null(&self, row: usize) -> (r: Result<bool, ValidityError>)
        ensures
            row < self@.len ==> r == Ok::<bool, ValidityError>(self@.null_at(row as int)),
            row >= self@.len ==> r == Err::<bool, ValidityError>(ValidityError::OutOfRange),
    {
        if row >= self.len {
            Err(ValidityError::OutOfRange)
        } else {
            Ok(self.null_at(row))
        }
    }

    /// Whether a row known to be shown is null.
    pub(crate) fn null_at(&self, row: usize) -> (flag: bool)
        requires
            row < self@.len,
        ensures
            flag == self@.null_at(row as int),
    {
        proof {
            use_type_invariant(self);
        }
        match &self.bitmap {
            Some(b) => !b.bit_at(self.offset + row),
            None => false,
        }
    }

    /// The window of `len` rows starting at row `offset` of this column. It
    /// shares the buffer: nothing is copied and this column is unchanged.
    ///
    /// Fails with `OutOfRange` exactly when `offset + len` exceeds the rows
    /// shown.
    pub fn slice(&self, offset: usize, len: usize) -> (r: Result<Column, ValidityError>)
        ensures
            offset + len <= self@.len ==> r is Ok && ({
                let s = r->Ok_0;
                &&& s@ == self@.slice(offset as nat, len as nat)
                &&& s@.len == len
                &&& s@.bit_len() == self@.bit_len()
                &&& forall|i: int|
                    0 <= i < len ==> #[trigger] s@.null_at(i) == self@.null_at(offset + i)
            }),
            offset + len > self@.len ==> r == Err::<Column, ValidityError>(
                ValidityError::OutOfRange,
            ),
    {
        if offset > self.len || len > self.len - offset {
            Err(ValidityError::OutOfRange)
        } else {
            Ok(self.window(offset, len))
        }
    }

    /// The window onto a range known to lie inside this column.
    pub(crate) fn window(&self, offset: usize, len: usize) -> (s: Column)
        requires
            offset + len <= self@.len,
        ensures
            s@ == self@.slice(offset as nat, len as nat),
    {
        proof {
            use_type_invariant(self);
        }
        let bitmap = match &self.bitmap {
            Some(b) => Some(b.clone()),
            None => None,
        };
        Column { bitmap, offset: self.offset + offset, len }
    }
}

/// An unsliced column's buffer holds at least one bit for each row, and its
/// bit length is the capacity of the stored bytes: eight bits for each.
pub proof fn lemma_unsliced_bit_len(col: Column, bitmap: ValidityBitmap)
    requires
        col.wf(),
        col@.offset == 0,
        col@.bits == Some(bitmap@),
    ensures
        col@.bit_len() == Some(bitmap@.len()),
        bitmap@.len() >= col@.len,
        bitmap@.len() == bitmap.bytes().len() * 8,
{
}

/// Slicing leaves the bit length of the buffer as it was, whatever the
/// window, and shows exactly the number of rows asked for.
pub proof fn lemma_slice_keeps_bit_len(origin: ColumnView, offset: nat, len: nat)
    requires
        origin.wf(),
        offset + len <= origin.len,
    ensures
        origin.slice(offset, len).wf(),
        origin.slice(offset, len).bit_len() == origin.bit_len(),
        origin.slice(offset, len).len == len,
{
}

/// Row `i` of a slice is null exactly when row `offset + i` of its origin is.
pub proof fn lemma_slice_null_at(origin: ColumnView, offset: nat, len: nat, i: int)
    requires
        origin.wf(),
        offset + len <= origin.len,
        0 <= i < len,
    ensures
        origin.slice(offset, len).null_at(i) == origin.null_at(offset + i),
{
}

/// The null flags of a slice are the matching stretch of its origin's.
pub proof fn lemma_slice_nulls(origin: ColumnView, offset: nat, len: nat)
    requires
        origin.wf(),
        offset + len <= origin.len,
    ensures
        origin.slice(offset, len).nulls() == origin.nulls().subrange(
            offset as int,
            (offset + len) as int,
        ),
{
    let s = origin.slice(offset, len);
    assert forall|i: int| 0 <= i < len implies #[trigger] s.nulls()[i] == origin.nulls()[offset
        + i] by {
        lemma_slice_null_at(origin, offset, len, i);
    }
    assert(s.nulls() =~= origin.nulls().subrange(offset as int, (offset + len) as int));
}

/// Offsets add up: a slice of a slice is the slice of the origin that starts
/// at the sum of the two offsets, and that range is valid in the origin.
pub proof fn lemma_slice_of_slice(col: ColumnView, a: nat, la: nat, b: nat, lb: nat)
    requires
        col.wf(),
        a + la <= col.len,
        b + lb <= la,
    ensures
        a + b + lb <= col.len,
        col.slice(a, la).slice(b, lb) == col.slice(a + b, lb),
{
}

/// A column without a buffer has no null row.
pub proof fn lemma_no_buffer_no_nulls(col: ColumnView, i: int)
    requires
        col.bits.is_none(),
    ensures
        !col.null_at(i),
        col.bit_len().is_none(),
{
}

} // verus!
