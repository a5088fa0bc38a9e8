//! A growable array over contiguous storage, and the borrowed ranges and
//! views that expose parts of it without copying.
//!
//! A position is an offset, counted in elements, into the storage that a
//! range or a view belongs to. Ranges are plain pairs of positions; views and
//! iterators pair a range with the borrowed storage it points into.

pub mod layout;
pub mod order;
pub mod raw_range;
pub mod sequences;
pub mod slice;
pub mod vector;
pub mod vector_iter;
