//! Strings that know where they end.

use vstd::prelude::*;
use vstd::slice::slice_subrange;

verus! {

/// A string decoded from the front of a run of bytes that reaches at
/// least as far as the string does.
pub trait FromBytes<'a>: Sized {
    /// The least number of bytes any string of this kind occupies.
    spec fn spec_min_size_of() -> nat;

    /// The alignment reads of this kind of string ask for.
    spec fn spec_align_of() -> nat;

    /// `bytes` start with a string of this kind that ends within them.
    spec fn well_formed(bytes: Seq<u8>) -> bool;

    /// `string` is the string that `bytes` start with.
    spec fn decodes_to(bytes: Seq<u8>, string: Self) -> bool;

    /// The least number of bytes any string of this kind occupies.
    fn min_size_of() -> (n: usize)
        ensures
            n == Self::spec_min_size_of(),
    ;

    /// The alignment reads of this kind of string ask for; never zero.
    fn align_of() -> (n: usize)
        ensures
            n == Self::spec_align_of(),
            n >= 1,
    ;

    /// The string that `bytes` start with, or `None` if no string of this
    /// kind ends within `bytes`.
    fn from_bytes(bytes: &'a [u8]) -> (r: Option<Self>)
        ensures
            r is Some <==> Self::well_formed(bytes@),
            r matches Some(string) ==> Self::decodes_to(bytes@, string),
    ;
}

/// The first zero byte of `bytes` is at index `n`.
pub open spec fn nul_at(bytes: Seq<u8>, n: int) -> bool {
    &&& 0 <= n < bytes.len()
    &&& bytes[n] == 0
    &&& forall|i: int| 0 <= i < n ==> bytes[i] != 0
}

/// A string that a zero byte terminates. The handle borrows the bytes
/// before the terminator.
#[derive(Copy, Clone, Debug)]
pub struct CStr<'a> {
    bytes: &'a [u8],
}

impl<'a> CStr<'a> {
    /// The bytes of the string, without the terminator.
    pub closed spec fn view(self) -> Seq<u8> {
        self.bytes@
    }

    /// The bytes of the string, without the terminator.
    pub fn as_bytes(&self) -> (r: &'a [u8])
        ensures
            r@ == self@,
    {
        self.bytes
    }

    /// The number of bytes of the string, without the terminator.
    pub fn len(&self) -> (n: usize)
        ensures
            n == self@.len(),
    {
        self.bytes.len()
    }

    /// Whether the string has no byte but its terminator.
    pub fn is_empty(&self) -> (b: bool)
        ensures
            b == (self@.len() == 0),
    {
        self.bytes.len() == 0
    }
}

impl<'a> FromBytes<'a> for CStr<'a> {
    open spec fn spec_min_size_of() -> nat {
        1
    }

    open spec fn spec_align_of() -> nat {
        1
    }

    open spec fn well_formed(bytes: Seq<u8>) -> bool {
        exists|n: int| nul_at(bytes, n)
    }

    open spec fn decodes_to(bytes: Seq<u8>, string: CStr<'a>) -> bool {
        nul_at(bytes, string@.len() as int) && string@ == bytes.subrange(0, string@.len() as int)
    }

    fn min_size_of() -> (n: usize) {
        1
    }

    fn align_of() -> (n: usize) {
        1
    }

    fn from_bytes(bytes: &'a [u8]) -> (r: Option<CStr<'a>>) {
        let mut i: usize = 0;
        while i < bytes.len()
            invariant
                i <= bytes@.len(),
                forall|j: int| 0 <= j < i ==> bytes@[j] != 0,
            decreases bytes@.len() - i,
        {
            if bytes[i] == 0 {
                assert(nul_at(bytes@, i as int));
                return Some(CStr { bytes: slice_subrange(bytes, 0, i) });
            }
            i = i + 1;
        }
        assert forall|n: int| !nul_at(bytes@, n) by {
            if 0 <= n < bytes@.len() {
                assert(bytes@[n] != 0);
            }
        }
        None
    }
}

} // verus!
