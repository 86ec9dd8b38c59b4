//! Decoding of plain data and of strings from bytes.

pub mod bytes;
pub mod c_str;
pub mod pod;
pub mod wide_str;

pub use c_str::{CStr, FromBytes};
pub use pod::{Array, Pod};
pub use wide_str::WideStr;
