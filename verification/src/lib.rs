//! Null-validity bitmaps of columnar data, read correctly through slices.
//!
//! A column shows a window of rows over a shared, bit-packed validity
//! buffer. Whether a row is null is read at the row's position in the
//! buffer, which is the window's offset plus the row; the bit length of the
//! buffer belongs to the array the buffer was allocated for and is the same
//! for every slice of it.

pub mod batch;
pub mod bitmap;
pub mod column;
pub mod error;
pub mod walk;

pub use batch::RecordBatch;
pub use bitmap::ValidityBitmap;
pub use column::Column;
pub use error::ValidityError;
pub use walk::{collect_rows, for_each_row, RowEvent, RowWalk};
