//! Bounds-checked views and address translation for 64-bit Portable
//! Executable images, both as stored on disk and as mapped by a loader.
//!
//! An image is handed over as bytes. [`pe64::headers::validate_headers`]
//! certifies its headers once; a handle, [`pe64::PeFile`] or
//! [`pe64::PeView`], exists only for bytes that passed. Everything else is
//! a method of [`pe64::Pe`]: conversions between file offsets, relative
//! virtual addresses and virtual addresses; views, which are the longest
//! run of bytes of the image that starts at an address; and typed reads
//! out of views.
//!
//! No operation panics, reads outside the bytes it was given, or lets an
//! integer overflow: a malformed image yields an [`Error`], whatever its
//! header fields hold. What each operation returns is stated over
//! [`pe64::model::Image`], the bytes of an image as a mathematical
//! sequence.

pub mod error;
pub mod pe64;
pub mod util;

pub use error::{Error, Result};
