//! The errors every fallible operation of this crate reports.

use vstd::prelude::*;

verus! {

/// Why an operation on an image failed.
///
/// Every error is a classification of the input bytes; none is transient.
#[derive(Copy, Clone, Debug, PartialEq, Eq, Structural)]
pub enum Error {
    /// A zero address was given where a real one is required.
    Null,
    /// An address, or the view it implies, lies outside the buffer or
    /// outside every region the headers describe.
    OutOfBounds,
    /// The address lies in the part of a section that exists only once
    /// mapped, where the loader supplies zeroes and the file has no bytes.
    ZeroFill,
    /// A derived size or address does not fit its integer type.
    Overflow,
    /// A signature or magic field does not hold its expected constant.
    BadMagic,
    /// An offset or address violates its alignment requirement.
    Misaligned,
    /// A header field is larger than any sane image would have it.
    Insane,
    /// A string does not end within the bytes available to it.
    CStr,
}

/// The result type of this crate.
pub type Result<T> = core::result::Result<T, Error>;

} // verus!
