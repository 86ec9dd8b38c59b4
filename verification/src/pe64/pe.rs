//! One interface over images on disk and images mapped into memory.

use vstd::prelude::*;
use vstd::slice::slice_subrange;

use crate::error::{Error, Result};
use crate::pe64::address::{
    lemma_no_section_of_offset, lemma_no_section_of_rva, lemma_section_of_offset,
    lemma_section_of_rva,
};
use crate::pe64::image::{
    DataDirectory, DosHeader, FileHeader, NtHeaders, OptionalHeader, Rva, SectionHeader, Va,
    DOS_HEADER_SIZE, IMAGE_NUMBEROF_DIRECTORY_ENTRIES, NT_HEADERS_SIZE, OPTIONAL_HEADER_SIZE,
};
use crate::pe64::model::{bytes_of, scanned_view, spec_window, string_of, Image};
use crate::pe64::ptr::Ptr;
use crate::util::c_str::{CStr, FromBytes};
use crate::util::pod::{accepts_elements, lacks, scan, scan_sentinel, seq_of, Array, Pod};

verus! {

/// How the sections of an image are laid out in its bytes.
#[derive(Copy, Clone, Debug, Eq, PartialEq, Structural)]
pub enum Align {
    /// As in a file: each section's raw data at its `pointer_to_raw_data`.
    File,
    /// As mapped by a loader: each section at its `virtual_address`.
    Section,
}

/// The bytes `start..end` of `image` as a view, after the checks on
/// alignment and size that every view undergoes.
pub(crate) fn window<'a>(
    image: &'a [u8],
    start: usize,
    end: usize,
    min_size_of: usize,
    align: usize,
    unsafe_alignment: bool,
) -> (r: Result<&'a [u8]>)
    requires
        start <= end <= image@.len(),
        align > 0,
    ensures
        bytes_of(r) == spec_window(
            image@,
            start as int,
            end as int,
            min_size_of,
            align,
            unsafe_alignment,
        ),
        r matches Ok(bytes) ==> bytes@.len() >= min_size_of,
{
    if !unsafe_alignment && start % align != 0 {
        Err(Error::Misaligned)
    } else if end - start < min_size_of {
        Err(Error::OutOfBounds)
    } else {
        Ok(slice_subrange(image, start, end))
    }
}

/// An image, on disk or mapped, with its headers validated.
///
/// A handle borrows the bytes of the image and never changes them. Its
/// image is always valid: the headers have passed validation, and the bytes
/// are at least as many as the image size that the headers announce. The
/// two kinds of handle differ in where they find the bytes of an address,
/// which `slice` and `read` decide; everything else is built on those two
/// and on the headers.
pub trait Pe<'a>: Copy {
    /// What this handle stands for.
    spec fn view(&self) -> Image;

    /// The bytes of the image.
    fn image(&self) -> (r: &'a [u8])
        ensures
            r@ == self@.bytes,
            self@.valid(),
    ;

    /// How the sections are laid out in the bytes.
    fn align(&self) -> (r: Align)
        ensures
            r == self@.align,
    ;

    /// Whether views are handed out whatever their alignment.
    fn unsafe_alignment(&self) -> (r: bool)
        ensures
            r == self@.unsafe_alignment,
    ;

    /// The view at a relative virtual address: all the bytes from there to
    /// the end of the region that contains them.
    ///
    /// `Null` for zero. Then the address is located: in a file, in the raw
    /// data of the first section that holds it, or in the headers; in a
    /// mapped image, in the bytes as they are. An address that lies nowhere
    /// is `OutOfBounds`, one in the zero-filled tail of a section of a
    /// file is `ZeroFill`. The view starts at a multiple of `align` bytes
    /// from the start of the image, else the result is `Misaligned`,
    /// unless alignment goes unchecked. It holds at least `min_size_of`
    /// bytes, else the result is `OutOfBounds`.
    fn slice(&self, rva: Rva, min_size_of: usize, align: usize) -> (r: Result<&'a [u8]>)
        requires
            align > 0,
        ensures
            bytes_of(r) == self@.slice(rva, min_size_of, align),
            r matches Ok(bytes) ==> bytes@.len() >= min_size_of,
    ;

    /// The view at a virtual address: as `slice`, at the relative virtual
    /// address of `va`, but `OutOfBounds` for a `va` outside the image,
    /// and with a view for the image base itself.
    fn read(&self, va: Va, min_size_of: usize, align: usize) -> (r: Result<&'a [u8]>)
        requires
            align > 0,
        ensures
            bytes_of(r) == self@.read(va, min_size_of, align),
            r matches Ok(bytes) ==> bytes@.len() >= min_size_of,
    ;

    /// The view at a relative virtual address, of any size and alignment.
    fn slice_bytes(self, rva: Rva) -> (r: Result<&'a [u8]>)
        ensures
            bytes_of(r) == self@.slice(rva, 0, 1),
    {
        self.slice(rva, 0, 1)
    }

    /// The view at a virtual address, of any size and alignment.
    fn read_bytes(self, va: Va) -> (r: Result<&'a [u8]>)
        ensures
            bytes_of(r) == self@.read(va, 0, 1),
    {
        self.read(va, 0, 1)
    }

    /// The DOS header.
    fn dos_header(self) -> (r: DosHeader)
        ensures
            r == self@.dos_header(),
    {
        let image = self.image();
        DosHeader::from_bytes(slice_subrange(image, 0, DOS_HEADER_SIZE))
    }

    /// The NT headers.
    fn nt_headers(self) -> (r: NtHeaders)
        ensures
            r == self@.nt_headers(),
    {
        let image = self.image();
        let start = self.dos_header().e_lfanew as usize;
        NtHeaders::from_bytes(slice_subrange(image, start, start + NT_HEADERS_SIZE))
    }

    /// The file header.
    fn file_header(self) -> (r: FileHeader)
        ensures
            r == self@.file_header(),
    {
        self.nt_headers().file_header
    }

    /// The optional header.
    fn optional_header(self) -> (r: OptionalHeader)
        ensures
            r == self@.optional_header(),
    {
        self.nt_headers().optional_header
    }

    /// The section headers, in the order of the table.
    fn section_headers(self) -> (r: Array<'a, SectionHeader>)
        ensures
            r@ == self@.section_headers(),
    {
        let image = self.image();
        let nt = self.nt_headers();
        let start = self.dos_header().e_lfanew as usize + (NT_HEADERS_SIZE - OPTIONAL_HEADER_SIZE)
            + nt.file_header.size_of_optional_header as usize;
        let len = nt.file_header.number_of_sections as usize;
        Array::prefix(slice_subrange(image, start, image.len()), len)
    }

    /// The data directory: as many entries as the optional header
    /// announces, but never more than a full directory.
    fn data_directory(self) -> (r: Array<'a, DataDirectory>)
        ensures
            r@ == self@.data_directory(),
    {
        let image = self.image();
        let opt = self.optional_header();
        let announced = opt.number_of_rva_and_sizes as usize;
        let len = if announced <= IMAGE_NUMBEROF_DIRECTORY_ENTRIES {
            announced
        } else {
            IMAGE_NUMBEROF_DIRECTORY_ENTRIES
        };
        let start = self.dos_header().e_lfanew as usize + NT_HEADERS_SIZE;
        Array::prefix(slice_subrange(image, start, image.len()), len)
    }

    /// Converts a relative virtual address to the file offset of its byte.
    ///
    /// The first section that holds `rva` once mapped decides: the offset
    /// lies in its raw data, or the result is `ZeroFill` where the raw data
    /// is shorter than the section and ends before `rva`. Outside every
    /// section, an `rva` within the headers is its own offset, and any
    /// other is `OutOfBounds`. An offset that does not fit `usize` is
    /// `Overflow`.
    fn rva_to_file_offset(self, rva: Rva) -> (r: Result<usize>)
        ensures
            r == self@.rva_to_file_offset(rva),
    {
        let sections = self.section_headers();
        let n = sections.len();
        let mut i: usize = 0;
        while i < n
            invariant
                i <= n,
                n == sections@.len(),
                sections@ == self@.section_headers(),
                forall|j: int| 0 <= j < i ==> !(#[trigger] sections@[j]).claims_rva(rva),
            decreases n - i,
        {
            let it = sections.at(i);
            if it.contains_rva(rva) {
                proof {
                    lemma_section_of_rva(sections@, rva, i as int);
                }
                if it.has_raw_data_at(rva) {
                    let offset: u64 = (rva - it.virtual_address) as u64
                        + it.pointer_to_raw_data as u64;
                    if offset > usize::MAX as u64 {
                        return Err(Error::Overflow);
                    }
                    return Ok(offset as usize);
                }
                return Err(Error::ZeroFill);
            }
            i = i + 1;
        }
        proof {
            lemma_no_section_of_rva(sections@, rva);
        }
        if rva < self.optional_header().size_of_headers {
            Ok(rva as usize)
        } else {
            Err(Error::OutOfBounds)
        }
    }

    /// Converts a file offset to the relative virtual address of its byte.
    ///
    /// The first section whose raw data holds the offset decides: the
    /// address lies in the section, or the result is `OutOfBounds` where
    /// the section is shorter than its raw data and ends before the byte.
    /// Outside every section's raw data, an offset within the headers is
    /// its own address, and any other is `OutOfBounds`. An address that
    /// does not fit 32 bits is `Overflow`.
    fn file_offset_to_rva(self, file_offset: usize) -> (r: Result<Rva>)
        ensures
            r == self@.file_offset_to_rva(file_offset),
    {
        let sections = self.section_headers();
        let n = sections.len();
        let mut i: usize = 0;
        while i < n
            invariant
                i <= n,
                n == sections@.len(),
                sections@ == self@.section_headers(),
                forall|j: int|
                    0 <= j < i ==> !(#[trigger] sections@[j]).claims_offset(file_offset as int),
            decreases n - i,
        {
            let it = sections.at(i);
            if it.contains_offset(file_offset) {
                proof {
                    lemma_section_of_offset(sections@, file_offset as int, i as int);
                }
                if it.is_mapped_at(file_offset) {
                    let rva: u64 = (file_offset - it.pointer_to_raw_data as usize) as u64
                        + it.virtual_address as u64;
                    if rva > u32::MAX as u64 {
                        return Err(Error::Overflow);
                    }
                    return Ok(rva as u32);
                }
                return Err(Error::OutOfBounds);
            }
            i = i + 1;
        }
        proof {
            lemma_no_section_of_offset(sections@, file_offset as int);
        }
        if file_offset < self.optional_header().size_of_headers as usize {
            Ok(file_offset as u32)
        } else {
            Err(Error::OutOfBounds)
        }
    }

    /// Converts a relative virtual address to a virtual address.
    ///
    /// `Null` for zero, `OutOfBounds` at or past the size of the image,
    /// else the image base plus `rva`, or `Overflow` where that sum does
    /// not fit 64 bits.
    fn rva_to_va(self, rva: Rva) -> (r: Result<Va>)
        ensures
            r == self@.rva_to_va(rva),
    {
        if rva == 0 {
            Err(Error::Null)
        } else {
            let optional_header = self.optional_header();
            let image_base = optional_header.image_base;
            let size_of_image = optional_header.size_of_image;
            if rva < size_of_image {
                match image_base.checked_add(rva as Va) {
                    Some(va) => Ok(va),
                    None => Err(Error::Overflow),
                }
            } else {
                Err(Error::OutOfBounds)
            }
        }
    }

    /// Converts a virtual address to a relative virtual address.
    ///
    /// `Null` for zero, `OutOfBounds` below the image base and at or past
    /// the end of the image, else `va` minus the image base.
    fn va_to_rva(self, va: Va) -> (r: Result<Rva>)
        ensures
            r == self@.va_to_rva(va),
    {
        if va == 0 {
            Err(Error::Null)
        } else {
            let optional_header = self.optional_header();
            let image_base = optional_header.image_base;
            let size_of_image = optional_header.size_of_image;
            if va < image_base || va - image_base >= size_of_image as Va {
                Err(Error::OutOfBounds)
            } else {
                Ok((va - image_base) as Rva)
            }
        }
    }

    /// The alignment that a typed read of a `T` asks for: that of `T`, or
    /// 1 where alignment goes unchecked.
    fn align_of<T: Pod>(self) -> (r: usize)
        ensures
            r == self@.align_of::<T>(),
            r >= 1,
    {
        if self.unsafe_alignment() {
            1
        } else {
            T::align_of()
        }
    }

    /// Reads the `T` at `rva`, which must be aligned as `T` asks.
    fn derva<T: Pod>(self, rva: Rva) -> (r: Result<T>)
        ensures
            r == self@.derva::<T>(rva),
    {
        let bytes = self.slice(rva, T::size_of(), self.align_of::<T>())?;
        Ok(T::from_bytes(slice_subrange(bytes, 0, T::size_of())))
    }

    /// Reads the `T` at `rva`, at any alignment.
    fn derva_copy<T: Pod>(self, rva: Rva) -> (r: Result<T>)
        ensures
            r == self@.derva_copy::<T>(rva),
    {
        let bytes = self.slice(rva, T::size_of(), 1)?;
        Ok(T::from_bytes(slice_subrange(bytes, 0, T::size_of())))
    }

    /// Reads the array of `len` values of type `T` at `rva`.
    ///
    /// A `len` whose size in bytes does not fit `usize` is `Overflow`,
    /// before anything is read.
    fn derva_slice<T: Pod>(self, rva: Rva, len: usize) -> (r: Result<Array<'a, T>>)
        ensures
            seq_of(r) == self@.derva_slice::<T>(rva, len),
            T::spec_size_of() * len > usize::MAX ==> (r matches Err(e) && e == Error::Overflow),
    {
        let min_size_of = match T::size_of().checked_mul(len) {
            Some(size) => size,
            None => {
                return Err(Error::Overflow);
            },
        };
        let bytes = self.slice(rva, min_size_of, self.align_of::<T>())?;
        proof {
            assert(len * T::spec_size_of() == T::spec_size_of() * len) by (nonlinear_arith);
        }
        Ok(Array::prefix(bytes, len))
    }

    /// Reads the array of values of type `T` at `rva` that ends before the
    /// first element that `f` accepts.
    ///
    /// `f` is called on each element in turn, from the first on. Each
    /// element is checked to lie within the view at `rva` before it is
    /// read; if the view ends before `f` accepts an element, the result
    /// is `OutOfBounds`.
    fn derva_slice_f<T: Pod, F: Fn(&T) -> bool>(self, rva: Rva, f: F) -> (r: Result<Array<'a, T>>)
        requires
            self@.slice(rva, 0, self@.align_of::<T>()) matches Ok(bytes) ==> accepts_elements::<
                T,
                F,
            >(bytes, f),
        ensures
            scanned_view::<T, F>(self@.slice(rva, 0, self@.align_of::<T>()), f, r),
    {
        let bytes = self.slice(rva, 0, self.align_of::<T>())?;
        assert(self@.slice(rva, 0, self@.align_of::<T>()) == Ok::<Seq<u8>, Error>(bytes@));
        assert(accepts_elements::<T, F>(bytes@, f));
        scan(bytes, f)
    }

    /// Reads the array of values of type `T` at `rva` that ends before the
    /// first element equal to `sentinel`.
    ///
    /// If the view at `rva` ends before the sentinel is met, the result is
    /// `OutOfBounds`.
    fn derva_slice_s<T: Pod>(self, rva: Rva, sentinel: T) -> (r: Result<Array<'a, T>>)
        ensures
            seq_of(r) == self@.derva_slice_s::<T>(rva, sentinel),
            self@.slice(rva, 0, self@.align_of::<T>()) matches Ok(bytes) && lacks::<T>(
                bytes,
                sentinel,
            ) ==> (r matches Err(e) && e == Error::OutOfBounds),
    {
        let bytes = self.slice(rva, 0, self.align_of::<T>())?;
        scan_sentinel(bytes, sentinel)
    }

    /// Reads the zero-terminated string at `rva`.
    fn derva_c_str(self, rva: Rva) -> (r: Result<CStr<'a>>)
        ensures
            string_of::<CStr<'a>>(self@.slice(rva, 1, 1), r),
    {
        self.derva_string::<CStr<'a>>(rva)
    }

    /// Reads the string of kind `T` at `rva`.
    ///
    /// The view must hold the least size and have the alignment that `T`
    /// asks for. A string that does not end within the view is `CStr`.
    fn derva_string<T: FromBytes<'a>>(self, rva: Rva) -> (r: Result<T>)
        ensures
            string_of::<T>(
                self@.slice(rva, T::spec_min_size_of() as usize, T::spec_align_of() as usize),
                r,
            ),
    {
        let bytes = self.slice(rva, T::min_size_of(), T::align_of())?;
        match T::from_bytes(bytes) {
            Some(string) => Ok(string),
            None => Err(Error::CStr),
        }
    }

    /// Reads the `T` that `ptr` points to, which must be aligned as `T`
    /// asks.
    fn deref<T: Pod>(self, ptr: Ptr<T>) -> (r: Result<T>)
        ensures
            r == self@.deref::<T>(ptr@),
    {
        let bytes = self.read(ptr.into(), T::size_of(), self.align_of::<T>())?;
        Ok(T::from_bytes(slice_subrange(bytes, 0, T::size_of())))
    }

    /// Reads the `T` that `ptr` points to, at any alignment.
    fn deref_copy<T: Pod>(self, ptr: Ptr<T>) -> (r: Result<T>)
        ensures
            r == self@.deref_copy::<T>(ptr@),
    {
        let bytes = self.read(ptr.into(), T::size_of(), 1)?;
        Ok(T::from_bytes(slice_subrange(bytes, 0, T::size_of())))
    }

    /// Reads the array of `len` values of type `T` that `ptr` points to.
    ///
    /// A `len` whose size in bytes does not fit `usize` is `Overflow`,
    /// before anything is read.
    fn deref_slice<T: Pod>(self, ptr: Ptr<T>, len: usize) -> (r: Result<Array<'a, T>>)
        ensures
            seq_of(r) == self@.deref_slice::<T>(ptr@, len),
            T::spec_size_of() * len > usize::MAX ==> (r matches Err(e) && e == Error::Overflow),
    {
        let min_size_of = match T::size_of().checked_mul(len) {
            Some(size) => size,
            None => {
                return Err(Error::Overflow);
            },
        };
        let bytes = self.read(ptr.into(), min_size_of, self.align_of::<T>())?;
        proof {
            assert(len * T::spec_size_of() == T::spec_size_of() * len) by (nonlinear_arith);
        }
        Ok(Array::prefix(bytes, len))
    }

    /// Reads the array of values of type `T` that `ptr` points to and that
    /// ends before the first element that `f` accepts.
    ///
    /// `f` is called on each element in turn, from the first on. Each
    /// element is checked to lie within the view at `ptr` before it is
    /// read; if the view ends before `f` accepts an element, the result
    /// is `OutOfBounds`.
    fn deref_slice_f<T: Pod, F: Fn(&T) -> bool>(self, ptr: Ptr<T>, f: F) -> (r: Result<
        Array<'a, T>,
    >)
        requires
            self@.read(ptr@, 0, self@.align_of::<T>()) matches Ok(bytes) ==> accepts_elements::<
                T,
                F,
            >(bytes, f),
        ensures
            scanned_view::<T, F>(self@.read(ptr@, 0, self@.align_of::<T>()), f, r),
    {
        let bytes = self.read(ptr.into(), 0, self.align_of::<T>())?;
        assert(self@.read(ptr@, 0, self@.align_of::<T>()) == Ok::<Seq<u8>, Error>(bytes@));
        assert(accepts_elements::<T, F>(bytes@, f));
        scan(bytes, f)
    }

    /// Reads the array of values of type `T` that `ptr` points to and that
    /// ends before the first element equal to `sentinel`.
    ///
    /// If the view at `ptr` ends before the sentinel is met, the result is
    /// `OutOfBounds`.
    fn deref_slice_s<T: Pod>(self, ptr: Ptr<T>, sentinel: T) -> (r: Result<Array<'a, T>>)
        ensures
            seq_of(r) == self@.deref_slice_s::<T>(ptr@, sentinel),
            self@.read(ptr@, 0, self@.align_of::<T>()) matches Ok(bytes) && lacks::<T>(
                bytes,
                sentinel,
            ) ==> (r matches Err(e) && e == Error::OutOfBounds),
    {
        let bytes = self.read(ptr.into(), 0, self.align_of::<T>())?;
        scan_sentinel(bytes, sentinel)
    }

    /// Reads the zero-terminated string that `ptr` points to.
    fn deref_c_str(self, ptr: Ptr<CStr<'a>>) -> (r: Result<CStr<'a>>)
        ensures
            string_of::<CStr<'a>>(self@.read(ptr@, 1, 1), r),
    {
        self.deref_string::<CStr<'a>>(ptr)
    }

    /// Reads the string of kind `T` that `ptr` points to.
    ///
    /// The view must hold the least size and have the alignment that `T`
    /// asks for. A string that does not end within the view is `CStr`.
    fn deref_string<T: FromBytes<'a>>(self, ptr: Ptr<T>) -> (r: Result<T>)
        ensures
            string_of::<T>(
                self@.read(ptr@, T::spec_min_size_of() as usize, T::spec_align_of() as usize),
                r,
            ),
    {
        let bytes = self.read(ptr.into(), T::min_size_of(), T::align_of())?;
        match T::from_bytes(bytes) {
            Some(string) => Ok(string),
            None => Err(Error::CStr),
        }
    }
}

/// A reference to an image is an image.
impl<'s, 'a, P: Pe<'a>> Pe<'a> for &'s P {
    open spec fn view(&self) -> Image {
        (**self).view()
    }

    fn image(&self) -> (r: &'a [u8]) {
        P::image(*self)
    }

    fn align(&self) -> (r: Align) {
        P::align(*self)
    }

    fn unsafe_alignment(&self) -> (r: bool) {
        P::unsafe_alignment(*self)
    }

    fn slice(&self, rva: Rva, min_size_of: usize, align: usize) -> (r: Result<&'a [u8]>) {
        P::slice(*self, rva, min_size_of, align)
    }

    fn read(&self, va: Va, min_size_of: usize, align: usize) -> (r: Result<&'a [u8]>) {
        P::read(*self, va, min_size_of, align)
    }
}

} // verus!
