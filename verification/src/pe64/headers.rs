//! Where the headers lie in an image, and the validation that makes every
//! later offset computation safe.

use vstd::prelude::*;
use vstd::slice::slice_subrange;

use crate::error::{Error, Result};
use crate::pe64::image::{
    DataDirectory, DosHeader, NtHeaders, SectionHeader, DATA_DIRECTORY_SIZE, DOS_HEADER_SIZE,
    IMAGE_DOS_SIGNATURE, IMAGE_NT_HEADERS_SIGNATURE, IMAGE_NT_OPTIONAL_HDR_MAGIC,
    IMAGE_NUMBEROF_DIRECTORY_ENTRIES, MAX_E_LFANEW, MAX_NUMBER_OF_SECTIONS, NT_HEADERS_SIZE,
    OPTIONAL_HEADER_SIZE, SECTION_HEADER_SIZE,
};
use crate::util::pod::{elements, Pod};

verus! {

/// The DOS header of an image of at least 64 bytes.
pub open spec fn dos_header(image: Seq<u8>) -> DosHeader {
    DosHeader::spec_from_bytes(image.subrange(0, DOS_HEADER_SIZE as int))
}

/// The NT headers, which start at `e_lfanew`.
pub open spec fn nt_headers(image: Seq<u8>) -> NtHeaders {
    let at = dos_header(image).e_lfanew as int;
    NtHeaders::spec_from_bytes(image.subrange(at, at + NT_HEADERS_SIZE))
}

/// The offset of the data directory: directly behind the NT headers.
pub open spec fn data_directory_offset(image: Seq<u8>) -> int {
    dos_header(image).e_lfanew + NT_HEADERS_SIZE
}

/// The number of data directory entries: what the optional header
/// announces, but never more than a full directory.
pub open spec fn data_directory_len(image: Seq<u8>) -> nat {
    let announced = nt_headers(image).optional_header.number_of_rva_and_sizes;
    if announced <= IMAGE_NUMBEROF_DIRECTORY_ENTRIES {
        announced as nat
    } else {
        IMAGE_NUMBEROF_DIRECTORY_ENTRIES as nat
    }
}

/// The data directory: the entries that the bytes from its offset on hold.
pub open spec fn data_directory(image: Seq<u8>) -> Seq<DataDirectory> {
    elements::<DataDirectory>(
        image.subrange(data_directory_offset(image), image.len() as int),
        data_directory_len(image),
    )
}

/// The offset of the section headers: behind the optional header, whose
/// size the file header gives.
pub open spec fn section_headers_offset(image: Seq<u8>) -> int {
    dos_header(image).e_lfanew + (NT_HEADERS_SIZE - OPTIONAL_HEADER_SIZE) + nt_headers(
        image,
    ).file_header.size_of_optional_header
}

/// The number of section headers.
pub open spec fn section_headers_len(image: Seq<u8>) -> nat {
    nt_headers(image).file_header.number_of_sections as nat
}

/// The section headers, in the order of the table: the headers that the
/// bytes from their offset on hold.
pub open spec fn section_headers(image: Seq<u8>) -> Seq<SectionHeader> {
    elements::<SectionHeader>(
        image.subrange(section_headers_offset(image), image.len() as int),
        section_headers_len(image),
    )
}

/// What validation makes of an image: the size of the mapped image that the
/// optional header announces, or the first check that fails.
///
/// The checks run in this order, and the first that fails decides:
/// the DOS header fits; its signature; `e_lfanew` is a multiple of 4 and at
/// most `MAX_E_LFANEW`; the NT headers fit; their signature and the magic of
/// the optional header; the headers are no larger than the image; the data
/// directory fits; there are at most `MAX_NUMBER_OF_SECTIONS` sections; the
/// section headers fit.
pub open spec fn spec_validate_headers(image: Seq<u8>) -> Result<u32> {
    let dos = dos_header(image);
    let nt = nt_headers(image);
    if image.len() < DOS_HEADER_SIZE {
        Err(Error::OutOfBounds)
    } else if dos.e_magic != IMAGE_DOS_SIGNATURE {
        Err(Error::BadMagic)
    } else if dos.e_lfanew % 4 != 0 {
        Err(Error::Misaligned)
    } else if dos.e_lfanew > MAX_E_LFANEW {
        Err(Error::Insane)
    } else if dos.e_lfanew + NT_HEADERS_SIZE > image.len() {
        Err(Error::OutOfBounds)
    } else if nt.signature != IMAGE_NT_HEADERS_SIGNATURE || nt.optional_header.magic
        != IMAGE_NT_OPTIONAL_HDR_MAGIC {
        Err(Error::BadMagic)
    } else if nt.optional_header.size_of_headers > nt.optional_header.size_of_image {
        Err(Error::Insane)
    } else if data_directory_offset(image) + DATA_DIRECTORY_SIZE * data_directory_len(image)
        > image.len() {
        Err(Error::OutOfBounds)
    } else if nt.file_header.number_of_sections > MAX_NUMBER_OF_SECTIONS {
        Err(Error::Insane)
    } else if section_headers_offset(image) + SECTION_HEADER_SIZE * section_headers_len(image)
        > image.len() {
        Err(Error::OutOfBounds)
    } else {
        Ok(nt.optional_header.size_of_image)
    }
}

/// The headers of `image` pass validation.
pub open spec fn valid_headers(image: Seq<u8>) -> bool {
    spec_validate_headers(image) is Ok
}

/// What validation certifies: the signatures, the sanity of the header
/// fields, and that the DOS header, the NT headers, the data directory and
/// the section headers all lie within the image.
pub proof fn lemma_valid_headers(image: Seq<u8>)
    requires
        valid_headers(image),
    ensures
        spec_validate_headers(image) == Ok::<u32, Error>(
            nt_headers(image).optional_header.size_of_image,
        ),
        dos_header(image).e_magic == IMAGE_DOS_SIGNATURE,
        dos_header(image).e_lfanew % 4 == 0,
        dos_header(image).e_lfanew <= MAX_E_LFANEW,
        DOS_HEADER_SIZE <= image.len(),
        dos_header(image).e_lfanew + NT_HEADERS_SIZE <= image.len(),
        nt_headers(image).signature == IMAGE_NT_HEADERS_SIGNATURE,
        nt_headers(image).optional_header.magic == IMAGE_NT_OPTIONAL_HDR_MAGIC,
        nt_headers(image).optional_header.size_of_headers <= nt_headers(
            image,
        ).optional_header.size_of_image,
        data_directory(image).len() <= IMAGE_NUMBEROF_DIRECTORY_ENTRIES,
        data_directory_offset(image) + DATA_DIRECTORY_SIZE * data_directory(image).len()
            <= image.len(),
        section_headers(image).len() <= MAX_NUMBER_OF_SECTIONS,
        section_headers_offset(image) + SECTION_HEADER_SIZE * section_headers(image).len()
            <= image.len(),
{
}

/// Certifies that `image` starts with well-formed headers and returns the
/// size of the mapped image that they announce.
///
/// After success, the DOS header, the NT headers, the data directory and the
/// section headers all lie within `image`, and no offset of theirs is
/// anywhere near overflow.
pub fn validate_headers(image: &[u8]) -> (r: Result<u32>)
    ensures
        r == spec_validate_headers(image@),
        image@.len() < DOS_HEADER_SIZE ==> r == Err::<u32, Error>(Error::OutOfBounds),
        image@.len() >= DOS_HEADER_SIZE && dos_header(image@).e_magic != IMAGE_DOS_SIGNATURE ==> r
            == Err::<u32, Error>(Error::BadMagic),
{
    if DOS_HEADER_SIZE > image.len() {
        return Err(Error::OutOfBounds);
    }
    let dos = DosHeader::from_bytes(slice_subrange(image, 0, DOS_HEADER_SIZE));
    if dos.e_magic != IMAGE_DOS_SIGNATURE {
        return Err(Error::BadMagic);
    }
    if dos.e_lfanew % 4 != 0 {
        return Err(Error::Misaligned);
    }
    if dos.e_lfanew > MAX_E_LFANEW {
        return Err(Error::Insane);
    }
    let nt_start = dos.e_lfanew as usize;
    let nt_end = nt_start + NT_HEADERS_SIZE;
    if nt_end > image.len() {
        return Err(Error::OutOfBounds);
    }
    let nt = NtHeaders::from_bytes(slice_subrange(image, nt_start, nt_end));
    if nt.signature != IMAGE_NT_HEADERS_SIGNATURE || nt.optional_header.magic
        != IMAGE_NT_OPTIONAL_HDR_MAGIC {
        return Err(Error::BadMagic);
    }
    if nt.optional_header.size_of_headers > nt.optional_header.size_of_image {
        return Err(Error::Insane);
    }
    let announced = nt.optional_header.number_of_rva_and_sizes as usize;
    let num_rva_sizes = if announced <= IMAGE_NUMBEROF_DIRECTORY_ENTRIES {
        announced
    } else {
        IMAGE_NUMBEROF_DIRECTORY_ENTRIES
    };
    let size_of_data_dir = num_rva_sizes * DATA_DIRECTORY_SIZE;
    if nt_end + size_of_data_dir > image.len() {
        return Err(Error::OutOfBounds);
    }
    if nt.file_header.number_of_sections > MAX_NUMBER_OF_SECTIONS {
        return Err(Error::Insane);
    }
    let size_of_sections = nt.file_header.number_of_sections as usize * SECTION_HEADER_SIZE;
    let start_of_sections = nt_start + (NT_HEADERS_SIZE - OPTIONAL_HEADER_SIZE)
        + nt.file_header.size_of_optional_header as usize;
    if size_of_sections + start_of_sections > image.len() {
        return Err(Error::OutOfBounds);
    }
    Ok(nt.optional_header.size_of_image)
}

} // verus!
