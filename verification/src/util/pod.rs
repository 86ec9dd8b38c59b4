//! Plain data: fixed-size values decoded from bytes at fixed offsets, and
//! borrowed arrays of them.

use core::marker::PhantomData;
use vstd::prelude::*;
use vstd::slice::slice_subrange;

use crate::error::{Error, Result};
use crate::util::bytes::{le_u16, le_u32, le_u64, read_u16, read_u32, read_u64};

verus! {

/// A fixed-layout value that any sequence of `size_of()` bytes decodes to.
///
/// A value is never obtained by reinterpreting memory: `from_bytes` reads
/// each field from its offset, in little-endian order.
pub trait Pod: Sized {
    /// The number of bytes one value occupies.
    spec fn spec_size_of() -> nat;

    /// The alignment typed reads of this type ask for.
    spec fn spec_align_of() -> nat;

    /// The value that `bytes` holds, for `bytes` of length `spec_size_of()`.
    spec fn spec_from_bytes(bytes: Seq<u8>) -> Self;

    /// The number of bytes one value occupies; never zero.
    fn size_of() -> (n: usize)
        ensures
            n == Self::spec_size_of(),
            n >= 1,
    ;

    /// The alignment typed reads of this type ask for; never zero.
    fn align_of() -> (n: usize)
        ensures
            n == Self::spec_align_of(),
            n >= 1,
    ;

    /// Decodes the value that `bytes` holds.
    fn from_bytes(bytes: &[u8]) -> (v: Self)
        requires
            bytes@.len() == Self::spec_size_of(),
        ensures
            v == Self::spec_from_bytes(bytes@),
    ;

    /// Whether two values are the same: whether all their fields are equal.
    fn same(&self, other: &Self) -> (b: bool)
        ensures
            b == (*self == *other),
    ;
}

impl Pod for u8 {
    open spec fn spec_size_of() -> nat {
        1
    }

    open spec fn spec_align_of() -> nat {
        1
    }

    open spec fn spec_from_bytes(bytes: Seq<u8>) -> u8 {
        bytes[0]
    }

    fn size_of() -> (n: usize) {
        1
    }

    fn align_of() -> (n: usize) {
        1
    }

    fn from_bytes(bytes: &[u8]) -> (v: u8) {
        bytes[0]
    }

    fn same(&self, other: &u8) -> (b: bool) {
        *self == *other
    }
}

impl Pod for u16 {
    open spec fn spec_size_of() -> nat {
        2
    }

    open spec fn spec_align_of() -> nat {
        2
    }

    open spec fn spec_from_bytes(bytes: Seq<u8>) -> u16 {
        le_u16(bytes, 0)
    }

    fn size_of() -> (n: usize) {
        2
    }

    fn align_of() -> (n: usize) {
        2
    }

    fn from_bytes(bytes: &[u8]) -> (v: u16) {
        read_u16(bytes, 0)
    }

    fn same(&self, other: &u16) -> (b: bool) {
        *self == *other
    }
}

impl Pod for u32 {
    open spec fn spec_size_of() -> nat {
        4
    }

    open spec fn spec_align_of() -> nat {
        4
    }

    open spec fn spec_from_bytes(bytes: Seq<u8>) -> u32 {
        le_u32(bytes, 0)
    }

    fn size_of() -> (n: usize) {
        4
    }

    fn align_of() -> (n: usize) {
        4
    }

    fn from_bytes(bytes: &[u8]) -> (v: u32) {
        read_u32(bytes, 0)
    }

    fn same(&self, other: &u32) -> (b: bool) {
        *self == *other
    }
}

impl Pod for u64 {
    open spec fn spec_size_of() -> nat {
        8
    }

    open spec fn spec_align_of() -> nat {
        8
    }

    open spec fn spec_from_bytes(bytes: Seq<u8>) -> u64 {
        le_u64(bytes, 0)
    }

    fn size_of() -> (n: usize) {
        8
    }

    fn align_of() -> (n: usize) {
        8
    }

    fn from_bytes(bytes: &[u8]) -> (v: u64) {
        read_u64(bytes, 0)
    }

    fn same(&self, other: &u64) -> (b: bool) {
        *self == *other
    }
}

/// The `i`-th value of type `T` that `bytes` holds, counting from zero.
pub open spec fn element<T: Pod>(bytes: Seq<u8>, i: int) -> T {
    T::spec_from_bytes(bytes.subrange(i * T::spec_size_of(), (i + 1) * T::spec_size_of()))
}

/// The first `n` values of type `T` that `bytes` holds.
pub open spec fn elements<T: Pod>(bytes: Seq<u8>, n: nat) -> Seq<T> {
    Seq::new(n, |i: int| element::<T>(bytes, i))
}

/// Element `i` of `n` elements of `size` bytes each ends within them.
pub proof fn lemma_element_bounds(i: int, n: int, size: int)
    by (nonlinear_arith)
    requires
        0 <= i < n,
        0 <= size,
    ensures
        0 <= i * size <= (i + 1) * size <= n * size,
        (i + 1) * size == i * size + size,
{
}

/// An element of a prefix of `bytes` is the same element of `bytes`.
pub proof fn lemma_element_of_prefix<T: Pod>(bytes: Seq<u8>, end: int, i: int)
    requires
        0 <= i,
        (i + 1) * T::spec_size_of() <= end <= bytes.len(),
    ensures
        element::<T>(bytes.subrange(0, end), i) == element::<T>(bytes, i),
{
    let size = T::spec_size_of() as int;
    assert(0 <= i * size <= (i + 1) * size) by (nonlinear_arith)
        requires
            0 <= i,
            0 <= size,
    ;
    assert(bytes.subrange(0, end).subrange(i * size, (i + 1) * size) =~= bytes.subrange(
        i * size,
        (i + 1) * size,
    ));
}

/// A borrowed array of plain data: `len()` values of type `T`, decoded on
/// access from the bytes they occupy in the image.
pub struct Array<'a, T: Pod> {
    bytes: &'a [u8],
    len: usize,
    marker: PhantomData<T>,
}

impl<'a, T: Pod> Array<'a, T> {
    #[verifier::type_invariant]
    spec fn inv(self) -> bool {
        self.bytes@.len() == self.len * T::spec_size_of()
    }

    /// The bytes the array occupies.
    pub closed spec fn spec_bytes(self) -> Seq<u8> {
        self.bytes@
    }

    /// The number of elements.
    pub closed spec fn spec_len(self) -> nat {
        self.len as nat
    }

    /// The elements, decoded.
    pub open spec fn view(self) -> Seq<T> {
        elements::<T>(self.spec_bytes(), self.spec_len())
    }

    /// The array of `len` elements that occupies exactly `bytes`, or `None`
    /// if `bytes` is not `len` times the element size long.
    pub fn new(bytes: &'a [u8], len: usize) -> (r: Option<Self>)
        ensures
            r is Some <==> bytes@.len() == len * T::spec_size_of(),
            r matches Some(a) ==> a.spec_bytes() == bytes@ && a.spec_len() == len,
    {
        let size = T::size_of();
        proof {
            vstd::slice::axiom_spec_len(bytes);
            assert(size * len == len * size) by (nonlinear_arith);
        }
        match size.checked_mul(len) {
            Some(total) => {
                if total == bytes.len() {
                    Some(Array { bytes, len, marker: PhantomData })
                } else {
                    None
                }
            },
            None => None,
        }
    }

    /// The first `len` elements of `bytes`, as an array.
    pub fn prefix(bytes: &'a [u8], len: usize) -> (r: Self)
        requires
            len * T::spec_size_of() <= bytes@.len(),
        ensures
            r@ == elements::<T>(bytes@, len as nat),
            r.spec_bytes() == bytes@.subrange(0, len * T::spec_size_of()),
    {
        let size = T::size_of();
        proof {
            vstd::slice::axiom_spec_len(bytes);
            assert(len * size == size * len) by (nonlinear_arith);
        }
        let r = Array { bytes: slice_subrange(bytes, 0, size * len), len, marker: PhantomData };
        proof {
            assert forall|i: int| 0 <= i < len implies element::<T>(
                bytes@.subrange(0, size * len),
                i,
            ) == element::<T>(bytes@, i) by {
                lemma_element_bounds(i, len as int, size as int);
                lemma_element_of_prefix::<T>(bytes@, size * len, i);
            }
            assert(r@ =~= elements::<T>(bytes@, len as nat));
        }
        r
    }

    /// The number of elements.
    pub fn len(&self) -> (n: usize)
        ensures
            n == self@.len(),
            n == self.spec_len(),
            self.spec_bytes().len() == n * T::spec_size_of(),
    {
        proof {
            use_type_invariant(self);
        }
        self.len
    }

    /// Whether the array has no element.
    pub fn is_empty(&self) -> (b: bool)
        ensures
            b == (self@.len() == 0),
    {
        self.len == 0
    }

    /// The bytes the array occupies.
    pub fn as_bytes(&self) -> (r: &'a [u8])
        ensures
            r@ == self.spec_bytes(),
            r@.len() == self.spec_len() * T::spec_size_of(),
    {
        proof {
            use_type_invariant(self);
        }
        self.bytes
    }

    /// Element `i` of an array that has one.
    pub fn at(&self, i: usize) -> (v: T)
        requires
            i < self@.len(),
        ensures
            v == self@[i as int],
    {
        let size = T::size_of();
        proof {
            use_type_invariant(self);
            vstd::slice::axiom_spec_len(self.bytes);
            lemma_element_bounds(i as int, self.len as int, size as int);
        }
        let start = i * size;
        T::from_bytes(slice_subrange(self.bytes, start, start + size))
    }

    /// Element `i`, or `None` if the array has no such element.
    pub fn get(&self, i: usize) -> (r: Option<T>)
        ensures
            r == (if i < self@.len() {
                Some(self@[i as int])
            } else {
                None
            }),
    {
        if i < self.len {
            Some(self.at(i))
        } else {
            None
        }
    }

    /// The elements, decoded into a vector.
    pub fn to_vec(&self) -> (v: Vec<T>)
        ensures
            v@ == self@,
    {
        let mut v: Vec<T> = Vec::new();
        let mut i: usize = 0;
        let n = self.len();
        while i < n
            invariant
                i <= n,
                n == self@.len(),
                v@ == self@.subrange(0, i as int),
            decreases n - i,
        {
            v.push(self.at(i));
            i = i + 1;
            assert(v@ =~= self@.subrange(0, i as int));
        }
        assert(v@ =~= self@);
        v
    }
}

impl<'a, T: Pod> Clone for Array<'a, T> {
    fn clone(&self) -> (r: Array<'a, T>)
        ensures
            r.spec_bytes() == self.spec_bytes(),
            r.spec_len() == self.spec_len(),
    {
        proof {
            use_type_invariant(self);
        }
        Array { bytes: self.bytes, len: self.len, marker: PhantomData }
    }
}

impl<'a, T: Pod> Copy for Array<'a, T> {

}

/// The elements of an array, or the error.
pub open spec fn seq_of<'a, T: Pod>(r: Result<Array<'a, T>>) -> Result<Seq<T>> {
    match r {
        Ok(a) => Ok(a@),
        Err(e) => Err(e),
    }
}

/// Element `i` lies within `bytes`.
pub open spec fn has_element<T: Pod>(bytes: Seq<u8>, i: int) -> bool {
    0 <= i && (i + 1) * T::spec_size_of() <= bytes.len()
}

/// `f` may be called on every element that lies within `bytes`.
pub open spec fn accepts_elements<T: Pod, F: Fn(&T) -> bool>(bytes: Seq<u8>, f: F) -> bool {
    forall|i: int|
        has_element::<T>(bytes, i) ==> f.requires((&#[trigger] element::<T>(bytes, i),))
}

/// A scan of the elements of `bytes`, from the first on, stops at element
/// `n`: `f` accepts it and has rejected every element before it.
pub open spec fn stops_at<T: Pod, F: Fn(&T) -> bool>(bytes: Seq<u8>, f: F, n: int) -> bool {
    &&& has_element::<T>(bytes, n)
    &&& f.ensures((&element::<T>(bytes, n),), true)
    &&& forall|i: int| 0 <= i < n ==> f.ensures((&#[trigger] element::<T>(bytes, i),), false)
}

/// A scan of the elements of `bytes` runs off their end: `f` has rejected
/// every element that lies within `bytes`.
pub open spec fn never_stops<T: Pod, F: Fn(&T) -> bool>(bytes: Seq<u8>, f: F) -> bool {
    forall|i: int|
        has_element::<T>(bytes, i) ==> f.ensures((&#[trigger] element::<T>(bytes, i),), false)
}

/// `r` is what a scan of `bytes` by `f` returns: the elements before the
/// first that `f` accepts, or `OutOfBounds` if `f` accepts none.
pub open spec fn scanned<'a, T: Pod, F: Fn(&T) -> bool>(
    bytes: Seq<u8>,
    f: F,
    r: Result<Array<'a, T>>,
) -> bool {
    match r {
        Ok(a) => stops_at::<T, F>(bytes, f, a@.len() as int) && a@ == elements::<T>(
            bytes,
            a@.len(),
        ),
        Err(e) => e == Error::OutOfBounds && never_stops::<T, F>(bytes, f),
    }
}

/// Element `n` of `bytes` is the first that equals `sentinel`.
pub open spec fn ends_at<T: Pod>(bytes: Seq<u8>, sentinel: T, n: int) -> bool {
    &&& has_element::<T>(bytes, n)
    &&& element::<T>(bytes, n) == sentinel
    &&& forall|i: int| 0 <= i < n ==> #[trigger] element::<T>(bytes, i) != sentinel
}

/// No element that lies within `bytes` equals `sentinel`.
pub open spec fn lacks<T: Pod>(bytes: Seq<u8>, sentinel: T) -> bool {
    forall|i: int| has_element::<T>(bytes, i) ==> #[trigger] element::<T>(bytes, i) != sentinel
}

/// The elements of `bytes` before the first that equals `sentinel`, or
/// `OutOfBounds` if no element within `bytes` does.
pub open spec fn until_sentinel<T: Pod>(bytes: Seq<u8>, sentinel: T) -> Result<Seq<T>> {
    if exists|n: int| ends_at::<T>(bytes, sentinel, n) {
        Ok(elements::<T>(bytes, (choose|n: int| ends_at::<T>(bytes, sentinel, n)) as nat))
    } else {
        Err(Error::OutOfBounds)
    }
}

/// Where no element of `bytes` equals `sentinel`, `until_sentinel` is
/// `OutOfBounds`.
pub proof fn lemma_lacks_sentinel<T: Pod>(bytes: Seq<u8>, sentinel: T)
    requires
        lacks::<T>(bytes, sentinel),
    ensures
        until_sentinel::<T>(bytes, sentinel) == Err::<Seq<T>, Error>(Error::OutOfBounds),
{
}

/// Where element `n` of `bytes` is the first to equal `sentinel`,
/// `until_sentinel` is the `n` elements before it.
pub proof fn lemma_ends_at_sentinel<T: Pod>(bytes: Seq<u8>, sentinel: T, n: int)
    requires
        ends_at::<T>(bytes, sentinel, n),
    ensures
        until_sentinel::<T>(bytes, sentinel) == Ok::<Seq<T>, Error>(
            elements::<T>(bytes, n as nat),
        ),
{
    let k = choose|k: int| ends_at::<T>(bytes, sentinel, k);
    assert(ends_at::<T>(bytes, sentinel, k));
    if k < n {
        assert(element::<T>(bytes, k) != sentinel);
    } else if n < k {
        assert(element::<T>(bytes, n) != sentinel);
    }
}

/// Reads elements of `bytes`, from the first on, until `f` accepts one, and
/// returns those before it.
///
/// Before each element is read, it is checked to lie within `bytes`; a scan
/// that reaches the end of `bytes` fails with `OutOfBounds`.
pub fn scan<'a, T: Pod, F: Fn(&T) -> bool>(bytes: &'a [u8], f: F) -> (r: Result<Array<'a, T>>)
    requires
        accepts_elements::<T, F>(bytes@, f),
    ensures
        scanned::<T, F>(bytes@, f, r),
{
    let size = T::size_of();
    let mut len: usize = 0;
    let mut offset: usize = 0;
    loop
        invariant
            size == T::spec_size_of(),
            size >= 1,
            offset == len * size,
            len <= offset <= bytes@.len(),
            accepts_elements::<T, F>(bytes@, f),
            forall|i: int| 0 <= i < len ==> f.ensures((&#[trigger] element::<T>(bytes@, i),), false),
        decreases bytes@.len() - offset,
    {
        assert((len + 1) * size == len * size + size) by (nonlinear_arith);
        if bytes.len() - offset < size {
            proof {
                assert forall|i: int| has_element::<T>(bytes@, i) implies f.ensures(
                    (&#[trigger] element::<T>(bytes@, i),),
                    false,
                ) by {
                    if i >= len {
                        assert((i + 1) * size >= (len + 1) * size) by (nonlinear_arith)
                            requires
                                i >= len,
                                size >= 1,
                        ;
                    }
                }
            }
            return Err(Error::OutOfBounds);
        }
        assert(has_element::<T>(bytes@, len as int));
        let value = T::from_bytes(slice_subrange(bytes, offset, offset + size));
        if f(&value) {
            return Ok(Array::prefix(bytes, len));
        }
        offset = offset + size;
        len = len + 1;
    }
}

/// Reads elements of `bytes`, from the first on, until one equals
/// `sentinel`, and returns those before it.
///
/// A scan that reaches the end of `bytes` without meeting the sentinel
/// fails with `OutOfBounds`.
pub fn scan_sentinel<'a, T: Pod>(bytes: &'a [u8], sentinel: T) -> (r: Result<Array<'a, T>>)
    ensures
        seq_of(r) == until_sentinel::<T>(bytes@, sentinel),
        lacks::<T>(bytes@, sentinel) ==> (r matches Err(e) && e == Error::OutOfBounds),
{
    let end: &T = &sentinel;
    let f = |tee: &T| -> (b: bool)
        ensures
            b == (*tee == *end),
        { tee.same(end) };
    let r = scan(bytes, f);
    proof {
        match seq_of(r) {
            Ok(found) => {
                assert(ends_at::<T>(bytes@, sentinel, found.len() as int));
                lemma_ends_at_sentinel::<T>(bytes@, sentinel, found.len() as int);
            },
            Err(e) => {
                assert(lacks::<T>(bytes@, sentinel));
                lemma_lacks_sentinel::<T>(bytes@, sentinel);
            },
        }
    }
    r
}

} // verus!
