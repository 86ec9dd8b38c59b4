//! Strings of 16-bit units that a count of units precedes.

use vstd::prelude::*;
use vstd::slice::slice_subrange;

use crate::util::bytes::{le_u16, read_u16};
use crate::util::c_str::FromBytes;
use crate::util::pod::{elements, Array};

verus! {

/// A string of 16-bit units, stored behind a 16-bit count of its units.
/// The handle borrows the units, without the count.
#[derive(Copy, Clone)]
pub struct WideStr<'a> {
    units: Array<'a, u16>,
}

impl<'a> WideStr<'a> {
    /// The units of the string.
    pub closed spec fn view(self) -> Seq<u16> {
        self.units@
    }

    /// The units of the string.
    pub fn units(&self) -> (r: Array<'a, u16>)
        ensures
            r@ == self@,
    {
        self.units
    }

    /// The number of units of the string.
    pub fn len(&self) -> (n: usize)
        ensures
            n == self@.len(),
    {
        self.units.len()
    }

    /// Whether the string has no unit.
    pub fn is_empty(&self) -> (b: bool)
        ensures
            b == (self@.len() == 0),
    {
        self.units.is_empty()
    }
}

impl<'a> FromBytes<'a> for WideStr<'a> {
    open spec fn spec_min_size_of() -> nat {
        2
    }

    open spec fn spec_align_of() -> nat {
        2
    }

    open spec fn well_formed(bytes: Seq<u8>) -> bool {
        bytes.len() >= 2 && 2 + 2 * le_u16(bytes, 0) <= bytes.len()
    }

    open spec fn decodes_to(bytes: Seq<u8>, string: WideStr<'a>) -> bool {
        string@ == elements::<u16>(
            bytes.subrange(2, bytes.len() as int),
            le_u16(bytes, 0) as nat,
        )
    }

    fn min_size_of() -> (n: usize) {
        2
    }

    fn align_of() -> (n: usize) {
        2
    }

    fn from_bytes(bytes: &'a [u8]) -> (r: Option<WideStr<'a>>) {
        if bytes.len() < 2 {
            return None;
        }
        let len = read_u16(bytes, 0) as usize;
        let rest = slice_subrange(bytes, 2, bytes.len());
        if rest.len() / 2 < len {
            return None;
        }
        Some(WideStr { units: Array::prefix(rest, len) })
    }
}

} // verus!
