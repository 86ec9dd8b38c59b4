//! Images as stored in a file.

use vstd::prelude::*;

use crate::error::{Error, Result};
use crate::pe64::address::{lemma_no_section_of_rva, lemma_section_of_rva};
use crate::pe64::headers::{spec_validate_headers, validate_headers};
use crate::pe64::image::{Rva, Va};
use crate::pe64::model::{bytes_of, Image};
use crate::pe64::pe::{window, Align, Pe};

verus! {

/// An image laid out as in a file: the raw data of each section lies at its
/// `pointer_to_raw_data`, and a section's zero-filled tail is absent.
#[derive(Copy, Clone)]
pub struct PeFile<'a> {
    image: &'a [u8],
    unsafe_alignment: bool,
}

impl<'a> PeFile<'a> {
    #[verifier::type_invariant]
    spec fn inv(self) -> bool {
        (Image {
            bytes: self.image@,
            align: Align::File,
            unsafe_alignment: self.unsafe_alignment,
        }).valid()
    }

    /// The handle for the file image `image`, with alignment checked.
    ///
    /// Fails as validation of the headers fails, and with `OutOfBounds`
    /// if `image` is shorter than the image size the headers announce.
    pub fn from_bytes(image: &'a [u8]) -> (r: Result<PeFile<'a>>)
        ensures
            match spec_validate_headers(image@) {
                Ok(size) => if size <= image@.len() {
                    r matches Ok(pe) && pe@ == (Image {
                        bytes: image@,
                        align: Align::File,
                        unsafe_alignment: false,
                    })
                } else {
                    r matches Err(e) && e == Error::OutOfBounds
                },
                Err(e) => r matches Err(x) && x == e,
            },
    {
        let size_of_image = validate_headers(image)?;
        if size_of_image as usize > image.len() {
            return Err(Error::OutOfBounds);
        }
        Ok(PeFile { image, unsafe_alignment: false })
    }

    /// The same image, with alignment unchecked if `unchecked` and checked
    /// if not. Unchecked, no view is ever `Misaligned`.
    pub fn with_unsafe_alignment(self, unchecked: bool) -> (r: PeFile<'a>)
        ensures
            r@ == (Image { unsafe_alignment: unchecked, ..self@ }),
    {
        proof {
            use_type_invariant(self);
        }
        PeFile { image: self.image, unsafe_alignment: unchecked }
    }

    /// The view at `rva`, which may be zero.
    #[verifier::loop_isolation(false)]
    fn view_at(self, rva: Rva, min_size_of: usize, align: usize) -> (r: Result<&'a [u8]>)
        requires
            align > 0,
        ensures
            bytes_of(r) == self@.view_at(rva, min_size_of, align),
            r matches Ok(bytes) ==> bytes@.len() >= min_size_of,
    {
        let image = self.image();
        let sections = self.section_headers();
        let n = sections.len();
        let mut i: usize = 0;
        while i < n
            invariant
                i <= n,
                n == sections@.len(),
                sections@ == self@.section_headers(),
                forall|j: int| 0 <= j < i ==> !(#[trigger] sections@[j]).claims_rva(rva),
            decreases n - i,
        {
            let it = sections.at(i);
            if it.contains_rva(rva) {
                proof {
                    lemma_section_of_rva(sections@, rva, i as int);
                }
                if !it.has_raw_data_at(rva) {
                    return Err(Error::ZeroFill);
                }
                let end: u64 = it.pointer_to_raw_data as u64 + it.size_of_raw_data as u64;
                if end > image.len() as u64 {
                    return Err(Error::OutOfBounds);
                }
                let start: u64 = (rva - it.virtual_address) as u64 + it.pointer_to_raw_data as u64;
                return window(
                    image,
                    start as usize,
                    end as usize,
                    min_size_of,
                    align,
                    self.unsafe_alignment,
                );
            }
            i = i + 1;
        }
        proof {
            lemma_no_section_of_rva(sections@, rva);
        }
        let size_of_headers = self.optional_header().size_of_headers;
        if rva < size_of_headers {
            window(
                image,
                rva as usize,
                size_of_headers as usize,
                min_size_of,
                align,
                self.unsafe_alignment,
            )
        } else {
            Err(Error::OutOfBounds)
        }
    }
}

impl<'a> Pe<'a> for PeFile<'a> {
    closed spec fn view(&self) -> Image {
        Image { bytes: self.image@, align: Align::File, unsafe_alignment: self.unsafe_alignment }
    }

    fn image(&self) -> (r: &'a [u8]) {
        proof {
            use_type_invariant(self);
        }
        self.image
    }

    fn align(&self) -> (r: Align) {
        Align::File
    }

    fn unsafe_alignment(&self) -> (r: bool) {
        self.unsafe_alignment
    }

    fn slice(&self, rva: Rva, min_size_of: usize, align: usize) -> (r: Result<&'a [u8]>) {
        if rva == 0 {
            Err(Error::Null)
        } else {
            self.view_at(rva, min_size_of, align)
        }
    }

    fn read(&self, va: Va, min_size_of: usize, align: usize) -> (r: Result<&'a [u8]>) {
        match (*self).va_to_rva(va) {
            Ok(rva) => self.view_at(rva, min_size_of, align),
            Err(e) => Err(e),
        }
    }
}

} // verus!
