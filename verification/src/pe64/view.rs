//! Images as mapped into memory by a loader.

use vstd::prelude::*;

use crate::error::{Error, Result};
use crate::pe64::headers::{spec_validate_headers, validate_headers};
use crate::pe64::image::{Rva, Va};
use crate::pe64::model::{bytes_of, Image};
use crate::pe64::pe::{window, Align, Pe};

verus! {

/// An image laid out as mapped: each section lies at its `virtual_address`,
/// and the whole image is one contiguous run of bytes.
#[derive(Copy, Clone)]
pub struct PeView<'a> {
    image: &'a [u8],
    unsafe_alignment: bool,
}

impl<'a> PeView<'a> {
    #[verifier::type_invariant]
    spec fn inv(self) -> bool {
        (Image {
            bytes: self.image@,
            align: Align::Section,
            unsafe_alignment: self.unsafe_alignment,
        }).valid()
    }

    /// The handle for the mapped image `image`, with alignment checked.
    ///
    /// Fails as validation of the headers fails, and with `OutOfBounds`
    /// if `image` is shorter than the image size the headers announce.
    pub fn from_bytes(image: &'a [u8]) -> (r: Result<PeView<'a>>)
        ensures
            match spec_validate_headers(image@) {
                Ok(size) => if size <= image@.len() {
                    r matches Ok(pe) && pe@ == (Image {
                        bytes: image@,
                        align: Align::Section,
                        unsafe_alignment: false,
                    })
                } else {
                    r matches Err(e) && e == Error::OutOfBounds
                },
                Err(e) => r matches Err(x) && x == e,
            },
    {
        let size_of_image = validate_headers(image)?;
        if size_of_image as usize > image.len() {
            return Err(Error::OutOfBounds);
        }
        Ok(PeView { image, unsafe_alignment: false })
    }

    /// The same image, with alignment unchecked if `unchecked` and checked
    /// if not. Unchecked, no view is ever `Misaligned`.
    pub fn with_unsafe_alignment(self, unchecked: bool) -> (r: PeView<'a>)
        ensures
            r@ == (Image { unsafe_alignment: unchecked, ..self@ }),
    {
        proof {
            use_type_invariant(self);
        }
        PeView { image: self.image, unsafe_alignment: unchecked }
    }

    /// The view at `rva`, which may be zero.
    fn view_at(self, rva: Rva, min_size_of: usize, align: usize) -> (r: Result<&'a [u8]>)
        requires
            align > 0,
        ensures
            bytes_of(r) == self@.view_at(rva, min_size_of, align),
            r matches Ok(bytes) ==> bytes@.len() >= min_size_of,
    {
        let image = self.image();
        let start = rva as usize;
        if start < image.len() {
            window(image, start, image.len(), min_size_of, align, self.unsafe_alignment)
        } else {
            Err(Error::OutOfBounds)
        }
    }
}

impl<'a> Pe<'a> for PeView<'a> {
    closed spec fn view(&self) -> Image {
        Image {
            bytes: self.image@,
            align: Align::Section,
            unsafe_alignment: self.unsafe_alignment,
        }
    }

    fn image(&self) -> (r: &'a [u8]) {
        proof {
            use_type_invariant(self);
        }
        self.image
    }

    fn align(&self) -> (r: Align) {
        Align::Section
    }

    fn unsafe_alignment(&self) -> (r: bool) {
        self.unsafe_alignment
    }

    fn slice(&self, rva: Rva, min_size_of: usize, align: usize) -> (r: Result<&'a [u8]>) {
        if rva == 0 {
            Err(Error::Null)
        } else {
            self.view_at(rva, min_size_of, align)
        }
    }

    fn read(&self, va: Va, min_size_of: usize, align: usize) -> (r: Result<&'a [u8]>) {
        match (*self).va_to_rva(va) {
            Ok(rva) => self.view_at(rva, min_size_of, align),
            Err(e) => Err(e),
        }
    }
}

} // verus!
