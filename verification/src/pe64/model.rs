//! What an image handle stands for, and what every operation on it
//! returns, as functions of the bytes of the image.

use vstd::prelude::*;

use crate::error::{Error, Result};
use crate::pe64::address::{
    first_claims_offset, first_claims_rva, lemma_first_claims_rva, lemma_section_of_offset,
    lemma_section_of_rva, section_of_rva, spec_file_offset_to_rva, spec_rva_to_file_offset,
    spec_rva_to_va, spec_va_to_rva,
};
use crate::pe64::headers;
use crate::pe64::image::{
    DataDirectory, DosHeader, FileHeader, NtHeaders, OptionalHeader, Rva, SectionHeader, Va,
};
use crate::pe64::pe::Align;
use crate::util::c_str::FromBytes;
use crate::util::pod::{elements, scanned, until_sentinel, Array, Pod};

verus! {

/// What an image handle stands for: the bytes, how they are laid out, and
/// whether alignment is checked. Every operation of [`Pe`] is a function of
/// these three.
pub struct Image {
    /// The bytes of the image.
    pub bytes: Seq<u8>,
    /// How the sections are laid out in `bytes`.
    pub align: Align,
    /// Views are handed out whatever their alignment.
    pub unsafe_alignment: bool,
}

impl Image {
    /// The headers pass validation and the bytes are at least as long as
    /// the image size that the headers announce. Every handle's image is
    /// valid.
    pub open spec fn valid(self) -> bool {
        headers::spec_validate_headers(self.bytes) matches Ok(size) && size <= self.bytes.len()
    }

    /// The DOS header.
    pub open spec fn dos_header(self) -> DosHeader {
        headers::dos_header(self.bytes)
    }

    /// The NT headers.
    pub open spec fn nt_headers(self) -> NtHeaders {
        headers::nt_headers(self.bytes)
    }

    /// The file header.
    pub open spec fn file_header(self) -> FileHeader {
        self.nt_headers().file_header
    }

    /// The optional header.
    pub open spec fn optional_header(self) -> OptionalHeader {
        self.nt_headers().optional_header
    }

    /// The section headers, in the order of the table.
    pub open spec fn section_headers(self) -> Seq<SectionHeader> {
        headers::section_headers(self.bytes)
    }

    /// The data directory.
    pub open spec fn data_directory(self) -> Seq<DataDirectory> {
        headers::data_directory(self.bytes)
    }

    /// The file offset of the byte that `rva` addresses.
    pub open spec fn rva_to_file_offset(self, rva: Rva) -> Result<usize> {
        spec_rva_to_file_offset(
            self.section_headers(),
            self.optional_header().size_of_headers,
            rva,
        )
    }

    /// The relative virtual address of the byte at `file_offset`.
    pub open spec fn file_offset_to_rva(self, file_offset: usize) -> Result<Rva> {
        spec_file_offset_to_rva(
            self.section_headers(),
            self.optional_header().size_of_headers,
            file_offset,
        )
    }

    /// The virtual address of `rva`.
    pub open spec fn rva_to_va(self, rva: Rva) -> Result<Va> {
        spec_rva_to_va(self.optional_header().image_base, self.optional_header().size_of_image, rva)
    }

    /// The relative virtual address of `va`.
    pub open spec fn va_to_rva(self, va: Va) -> Result<Rva> {
        spec_va_to_rva(self.optional_header().image_base, self.optional_header().size_of_image, va)
    }

    /// Where in `bytes` the byte that `rva` addresses lies, and where the
    /// region that contains it ends.
    ///
    /// In a file, the region is the raw data of the first section that
    /// holds `rva`, which must lie within the bytes, or else the headers.
    /// In a mapped image, the region is all the bytes from `rva` on.
    pub open spec fn locate(self, rva: Rva) -> Result<(int, int)> {
        match self.align {
            Align::File => match section_of_rva(self.section_headers(), rva) {
                Some(i) => {
                    let it = self.section_headers()[i];
                    if !it.backs_rva(rva) {
                        Err(Error::ZeroFill)
                    } else if it.raw_end() > self.bytes.len() {
                        Err(Error::OutOfBounds)
                    } else {
                        Ok((rva - it.virtual_address + it.pointer_to_raw_data, it.raw_end()))
                    }
                },
                None => {
                    if rva < self.optional_header().size_of_headers {
                        Ok((rva as int, self.optional_header().size_of_headers as int))
                    } else {
                        Err(Error::OutOfBounds)
                    }
                },
            },
            Align::Section => {
                if rva < self.bytes.len() {
                    Ok((rva as int, self.bytes.len() as int))
                } else {
                    Err(Error::OutOfBounds)
                }
            },
        }
    }

    /// The view at `rva`, which may be zero: the bytes from where `rva`
    /// lies to the end of its region, if they start at a multiple of
    /// `align` and are at least `min_size_of` many.
    pub open spec fn view_at(self, rva: Rva, min_size_of: usize, align: usize) -> Result<Seq<u8>> {
        match self.locate(rva) {
            Ok((start, end)) => spec_window(
                self.bytes,
                start,
                end,
                min_size_of,
                align,
                self.unsafe_alignment,
            ),
            Err(e) => Err(e),
        }
    }

    /// The view at a relative virtual address: `Null` for zero, else
    /// `view_at`.
    pub open spec fn slice(self, rva: Rva, min_size_of: usize, align: usize) -> Result<Seq<u8>> {
        if rva == 0 {
            Err(Error::Null)
        } else {
            self.view_at(rva, min_size_of, align)
        }
    }

    /// The view at a virtual address: `Null` for zero, `OutOfBounds`
    /// outside the image, else `view_at` its relative virtual address.
    pub open spec fn read(self, va: Va, min_size_of: usize, align: usize) -> Result<Seq<u8>> {
        match self.va_to_rva(va) {
            Ok(rva) => self.view_at(rva, min_size_of, align),
            Err(e) => Err(e),
        }
    }

    /// In a valid image, the region that holds an address lies within the
    /// bytes and the address within the region, so every view is a run of
    /// bytes of the image, of at least the size asked for.
    pub proof fn lemma_view_in_bounds(self, rva: Rva, min_size_of: usize, align: usize)
        requires
            self.valid(),
        ensures
            self.locate(rva) matches Ok((start, end)) ==> 0 <= start < end <= self.bytes.len(),
            self.view_at(rva, min_size_of, align) matches Ok(bytes) ==> min_size_of <= bytes.len()
                <= self.bytes.len(),
    {
        headers::lemma_valid_headers(self.bytes);
        let sections = self.section_headers();
        if self.align == Align::File {
            if let Some(i) = section_of_rva(sections, rva) {
                assert(first_claims_rva(sections, rva, i));
            }
        }
    }

    /// Every relative virtual address of the image but zero converts to a
    /// virtual address that converts back to it, provided the image base is
    /// low enough for the virtual address to fit 64 bits.
    pub proof fn lemma_rva_va_round_trip(self, rva: Rva)
        requires
            0 < rva < self.optional_header().size_of_image,
            self.optional_header().image_base + rva <= u64::MAX,
        ensures
            self.rva_to_va(rva) == Ok::<Va, Error>(
                (self.optional_header().image_base + rva) as u64,
            ),
            self.va_to_rva((self.optional_header().image_base + rva) as u64) == Ok::<Rva, Error>(
                rva,
            ),
    {
    }

    /// Every virtual address of the image but the image base converts to a
    /// relative virtual address that converts back to it. (The image base
    /// converts to the relative address zero, which stands for "absent".)
    pub proof fn lemma_va_rva_round_trip(self, va: Va)
        requires
            self.optional_header().image_base < va < self.optional_header().image_base
                + self.optional_header().size_of_image,
        ensures
            self.va_to_rva(va) == Ok::<Rva, Error>(
                (va - self.optional_header().image_base) as u32,
            ),
            self.rva_to_va((va - self.optional_header().image_base) as u32) == Ok::<Va, Error>(va),
    {
    }

    /// A relative virtual address in the zero-filled tail of section `i`
    /// converts to `ZeroFill`, unless a section before `i` that overlaps
    /// it is the first to hold the address and backs it with raw data.
    pub proof fn lemma_zero_fill(self, rva: Rva, i: int)
        requires
            0 <= i < self.section_headers().len(),
            self.section_headers()[i].zero_fills_rva(rva),
            forall|k: int|
                0 <= k < i && first_claims_rva(self.section_headers(), rva, k) ==> !(
                #[trigger] self.section_headers()[k]).backs_rva(rva),
        ensures
            self.rva_to_file_offset(rva) == Err::<usize, Error>(Error::ZeroFill),
    {
        let sections = self.section_headers();
        assert(sections[i].claims_rva(rva));
        let k = lemma_first_claims_rva(sections, rva, i);
        lemma_section_of_rva(sections, rva, k);
        if k < i {
            assert(!sections[k].backs_rva(rva));
        }
    }

    /// A relative virtual address that section `i` is the first to hold,
    /// within both its raw data and its virtual size, converts to a file
    /// offset that converts back to the address, unless the raw data of a
    /// section before `i` overlaps that of `i` and holds the file offset.
    pub proof fn lemma_rva_file_offset_round_trip(self, rva: Rva, i: int)
        requires
            first_claims_rva(self.section_headers(), rva, i),
            self.section_headers()[i].backs_rva(rva),
            rva < self.section_headers()[i].virtual_address
                + self.section_headers()[i].virtual_size,
            self.rva_to_file_offset(rva) is Ok,
            forall|j: int|
                0 <= j < i ==> !(#[trigger] self.section_headers()[j]).claims_offset(
                    self.rva_to_file_offset(rva)->Ok_0 as int,
                ),
        ensures
            self.file_offset_to_rva(self.rva_to_file_offset(rva)->Ok_0) == Ok::<Rva, Error>(rva),
            self.rva_to_file_offset(rva)->Ok_0 == rva - self.section_headers()[i].virtual_address
                + self.section_headers()[i].pointer_to_raw_data,
    {
        let sections = self.section_headers();
        let offset = rva - sections[i].virtual_address + sections[i].pointer_to_raw_data;
        lemma_section_of_rva(sections, rva, i);
        assert(first_claims_offset(sections, offset, i));
        lemma_section_of_offset(sections, offset, i);
    }

    /// The alignment that a typed read of a `T` asks for: that of `T`, or
    /// 1 where alignment goes unchecked.
    pub open spec fn align_of<T: Pod>(self) -> usize {
        if self.unsafe_alignment {
            1
        } else {
            T::spec_align_of() as usize
        }
    }

    /// The `T` at `rva`, aligned.
    pub open spec fn derva<T: Pod>(self, rva: Rva) -> Result<T> {
        value_of::<T>(self.slice(rva, T::spec_size_of() as usize, self.align_of::<T>()))
    }

    /// The `T` at `rva`, at any alignment.
    pub open spec fn derva_copy<T: Pod>(self, rva: Rva) -> Result<T> {
        value_of::<T>(self.slice(rva, T::spec_size_of() as usize, 1))
    }

    /// The `len` values of type `T` at `rva`: `Overflow` if their size in
    /// bytes does not fit `usize`, whatever `rva` is.
    pub open spec fn derva_slice<T: Pod>(self, rva: Rva, len: usize) -> Result<Seq<T>> {
        if T::spec_size_of() * len > usize::MAX {
            Err(Error::Overflow)
        } else {
            array_of::<T>(
                self.slice(rva, (T::spec_size_of() * len) as usize, self.align_of::<T>()),
                len as nat,
            )
        }
    }

    /// The values of type `T` at `rva`, up to the first that equals
    /// `sentinel`.
    pub open spec fn derva_slice_s<T: Pod>(self, rva: Rva, sentinel: T) -> Result<Seq<T>> {
        match self.slice(rva, 0, self.align_of::<T>()) {
            Ok(bytes) => until_sentinel::<T>(bytes, sentinel),
            Err(e) => Err(e),
        }
    }

    /// The `T` at `va`, aligned.
    pub open spec fn deref<T: Pod>(self, va: Va) -> Result<T> {
        value_of::<T>(self.read(va, T::spec_size_of() as usize, self.align_of::<T>()))
    }

    /// The `T` at `va`, at any alignment.
    pub open spec fn deref_copy<T: Pod>(self, va: Va) -> Result<T> {
        value_of::<T>(self.read(va, T::spec_size_of() as usize, 1))
    }

    /// The `len` values of type `T` at `va`: `Overflow` if their size in
    /// bytes does not fit `usize`, whatever `va` is.
    pub open spec fn deref_slice<T: Pod>(self, va: Va, len: usize) -> Result<Seq<T>> {
        if T::spec_size_of() * len > usize::MAX {
            Err(Error::Overflow)
        } else {
            array_of::<T>(
                self.read(va, (T::spec_size_of() * len) as usize, self.align_of::<T>()),
                len as nat,
            )
        }
    }

    /// The values of type `T` at `va`, up to the first that equals
    /// `sentinel`.
    pub open spec fn deref_slice_s<T: Pod>(self, va: Va, sentinel: T) -> Result<Seq<T>> {
        match self.read(va, 0, self.align_of::<T>()) {
            Ok(bytes) => until_sentinel::<T>(bytes, sentinel),
            Err(e) => Err(e),
        }
    }
}

/// The value of type `T` at the start of a view, or the view's error.
pub open spec fn value_of<T: Pod>(view: Result<Seq<u8>>) -> Result<T> {
    match view {
        Ok(bytes) => Ok(T::spec_from_bytes(bytes.subrange(0, T::spec_size_of() as int))),
        Err(e) => Err(e),
    }
}

/// The first `len` values of type `T` of a view, or the view's error.
pub open spec fn array_of<T: Pod>(view: Result<Seq<u8>>, len: nat) -> Result<Seq<T>> {
    match view {
        Ok(bytes) => Ok(elements::<T>(bytes, len)),
        Err(e) => Err(e),
    }
}

/// `r` is what a scan by `f` of the elements of a view returns, or the
/// view's error.
pub open spec fn scanned_view<'a, T: Pod, F: Fn(&T) -> bool>(
    view: Result<Seq<u8>>,
    f: F,
    r: Result<Array<'a, T>>,
) -> bool {
    match view {
        Ok(bytes) => scanned::<T, F>(bytes, f, r),
        Err(e) => r matches Err(x) && x == e,
    }
}

/// `r` is the string of kind `T` at the start of a view: the view's error,
/// or `CStr` if no string ends within the view.
pub open spec fn string_of<'a, T: FromBytes<'a>>(view: Result<Seq<u8>>, r: Result<T>) -> bool {
    match view {
        Ok(bytes) => if T::well_formed(bytes) {
            r matches Ok(string) && T::decodes_to(bytes, string)
        } else {
            r matches Err(e) && e == Error::CStr
        },
        Err(e) => r matches Err(x) && x == e,
    }
}

/// The bytes `start..end` of `bytes`: `Misaligned` unless `start` is a
/// multiple of `align` or alignment goes unchecked, `OutOfBounds` if they
/// are fewer than `min_size_of`.
pub open spec fn spec_window(
    bytes: Seq<u8>,
    start: int,
    end: int,
    min_size_of: usize,
    align: usize,
    unsafe_alignment: bool,
) -> Result<Seq<u8>> {
    if !unsafe_alignment && start % (align as int) != 0 {
        Err(Error::Misaligned)
    } else if end - start < min_size_of {
        Err(Error::OutOfBounds)
    } else {
        Ok(bytes.subrange(start, end))
    }
}

/// What a view holds: the bytes of the slice, or the error.
pub open spec fn bytes_of(r: Result<&[u8]>) -> Result<Seq<u8>> {
    match r {
        Ok(bytes) => Ok(bytes@),
        Err(e) => Err(e),
    }
}

} // verus!
