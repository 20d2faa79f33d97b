//! Verified building blocks for allocation-free code: one canonical way to take a
//! bounds-checked sub-view of a slice from any kind of range, and concatenation of
//! byte and string slices into one exactly-sized buffer.

pub mod concat;
pub mod mem;
pub mod message;
pub mod result;
pub mod slice;
mod text;
