//! The header structures of a 64-bit image, reduced to the fields that
//! address translation and bounds checking read, with their on-disk sizes
//! and field offsets.

use vstd::prelude::*;
use vstd::slice::slice_subrange;

use crate::util::bytes::{le_u16, le_u32, le_u64, read_u16, read_u32, read_u64};
use crate::util::pod::Pod;

verus! {

/// An offset from the base of the image once mapped. Zero means "absent".
pub type Rva = u32;

/// An address in the image mapped at its preferred base. Zero means "absent".
pub type Va = u64;

/// The signature of the DOS header: "MZ".
pub const IMAGE_DOS_SIGNATURE: u16 = 0x5A4D;

/// The signature of the NT headers: "PE\0\0".
pub const IMAGE_NT_HEADERS_SIGNATURE: u32 = 0x0000_4550;

/// The magic of a 64-bit optional header.
pub const IMAGE_NT_OPTIONAL_HDR_MAGIC: u16 = 0x020B;

/// The number of slots of a full data directory.
pub const IMAGE_NUMBEROF_DIRECTORY_ENTRIES: usize = 16;

/// The data directory slot of the export table.
pub const IMAGE_DIRECTORY_ENTRY_EXPORT: usize = 0;

/// The data directory slot of the import table.
pub const IMAGE_DIRECTORY_ENTRY_IMPORT: usize = 1;

/// The data directory slot of the resources.
pub const IMAGE_DIRECTORY_ENTRY_RESOURCE: usize = 2;

/// The data directory slot of the exception table.
pub const IMAGE_DIRECTORY_ENTRY_EXCEPTION: usize = 3;

/// The data directory slot of the certificates.
pub const IMAGE_DIRECTORY_ENTRY_SECURITY: usize = 4;

/// The data directory slot of the base relocations.
pub const IMAGE_DIRECTORY_ENTRY_BASERELOC: usize = 5;

/// The data directory slot of the debug information.
pub const IMAGE_DIRECTORY_ENTRY_DEBUG: usize = 6;

/// The data directory slot of the architecture data.
pub const IMAGE_DIRECTORY_ENTRY_ARCHITECTURE: usize = 7;

/// The data directory slot of the global pointer.
pub const IMAGE_DIRECTORY_ENTRY_GLOBALPTR: usize = 8;

/// The data directory slot of thread-local storage.
pub const IMAGE_DIRECTORY_ENTRY_TLS: usize = 9;

/// The data directory slot of the load configuration.
pub const IMAGE_DIRECTORY_ENTRY_LOAD_CONFIG: usize = 10;

/// The data directory slot of the bound imports.
pub const IMAGE_DIRECTORY_ENTRY_BOUND_IMPORT: usize = 11;

/// The data directory slot of the import address table.
pub const IMAGE_DIRECTORY_ENTRY_IAT: usize = 12;

/// The data directory slot of the delay-load imports.
pub const IMAGE_DIRECTORY_ENTRY_DELAY_IMPORT: usize = 13;

/// The data directory slot of the COM descriptor.
pub const IMAGE_DIRECTORY_ENTRY_COM_DESCRIPTOR: usize = 14;

/// The largest `e_lfanew` accepted. Keeping the NT headers this close to the
/// start of the file keeps every later offset far from overflow.
pub const MAX_E_LFANEW: u32 = 0x0100_0000;

/// The largest number of sections accepted.
pub const MAX_NUMBER_OF_SECTIONS: u16 = 96;

/// The size of the DOS header in bytes.
pub const DOS_HEADER_SIZE: usize = 64;

/// The size of the file header in bytes.
pub const FILE_HEADER_SIZE: usize = 20;

/// The size of the optional header in bytes, without its data directory.
pub const OPTIONAL_HEADER_SIZE: usize = 112;

/// The size of the NT headers in bytes: signature, file header and optional
/// header, without the data directory that follows them.
pub const NT_HEADERS_SIZE: usize = 136;

/// The size of one data directory entry in bytes.
pub const DATA_DIRECTORY_SIZE: usize = 8;

/// The size of one section header in bytes.
pub const SECTION_HEADER_SIZE: usize = 40;

/// The DOS header at the start of every image.
#[derive(Copy, Clone, Debug, PartialEq, Eq, Structural)]
pub struct DosHeader {
    /// The signature, at offset 0.
    pub e_magic: u16,
    /// The file offset of the NT headers, at offset 60.
    pub e_lfanew: u32,
}

/// The COFF file header.
#[derive(Copy, Clone, Debug, PartialEq, Eq, Structural)]
pub struct FileHeader {
    /// The target machine, at offset 0.
    pub machine: u16,
    /// The number of section headers, at offset 2.
    pub number_of_sections: u16,
    /// The size of the optional header, data directory included, at
    /// offset 16. The section headers start this far behind the file header.
    pub size_of_optional_header: u16,
}

/// The optional header of a 64-bit image.
#[derive(Copy, Clone, Debug, PartialEq, Eq, Structural)]
pub struct OptionalHeader {
    /// The magic that tells 32-bit from 64-bit images, at offset 0.
    pub magic: u16,
    /// The preferred base address of the mapped image, at offset 24.
    pub image_base: Va,
    /// The size of the mapped image, at offset 56.
    pub size_of_image: u32,
    /// The size of all headers together, at offset 60.
    pub size_of_headers: u32,
    /// The number of data directory entries that follow, at offset 108.
    pub number_of_rva_and_sizes: u32,
}

/// The NT headers: signature, file header and optional header.
#[derive(Copy, Clone, Debug, PartialEq, Eq, Structural)]
pub struct NtHeaders {
    /// The signature, at offset 0.
    pub signature: u32,
    /// The file header, at offset 4.
    pub file_header: FileHeader,
    /// The optional header, at offset 24.
    pub optional_header: OptionalHeader,
}

/// One entry of the data directory: where a table lies and how large it is.
#[derive(Copy, Clone, Debug, PartialEq, Eq, Structural)]
pub struct DataDirectory {
    /// The address of the table, at offset 0.
    pub virtual_address: Rva,
    /// The size of the table in bytes, at offset 4.
    pub size: u32,
}

/// One section header: the extent of a section in the mapped image and in
/// the file.
#[derive(Copy, Clone, Debug, PartialEq, Eq, Structural)]
pub struct SectionHeader {
    /// The size of the section once mapped, at offset 8.
    pub virtual_size: u32,
    /// The address of the section once mapped, at offset 12.
    pub virtual_address: Rva,
    /// The number of bytes of the section stored in the file, at offset 16.
    pub size_of_raw_data: u32,
    /// The file offset of those bytes, at offset 20.
    pub pointer_to_raw_data: u32,
}

impl Pod for DosHeader {
    open spec fn spec_size_of() -> nat {
        64
    }

    open spec fn spec_align_of() -> nat {
        4
    }

    open spec fn spec_from_bytes(bytes: Seq<u8>) -> DosHeader {
        DosHeader { e_magic: le_u16(bytes, 0), e_lfanew: le_u32(bytes, 60) }
    }

    fn size_of() -> (n: usize) {
        DOS_HEADER_SIZE
    }

    fn align_of() -> (n: usize) {
        4
    }

    fn from_bytes(bytes: &[u8]) -> (v: DosHeader) {
        DosHeader { e_magic: read_u16(bytes, 0), e_lfanew: read_u32(bytes, 60) }
    }

    fn same(&self, other: &DosHeader) -> (b: bool) {
        *self == *other
    }
}

impl Pod for FileHeader {
    open spec fn spec_size_of() -> nat {
        20
    }

    open spec fn spec_align_of() -> nat {
        4
    }

    open spec fn spec_from_bytes(bytes: Seq<u8>) -> FileHeader {
        FileHeader {
            machine: le_u16(bytes, 0),
            number_of_sections: le_u16(bytes, 2),
            size_of_optional_header: le_u16(bytes, 16),
        }
    }

    fn size_of() -> (n: usize) {
        FILE_HEADER_SIZE
    }

    fn align_of() -> (n: usize) {
        4
    }

    fn from_bytes(bytes: &[u8]) -> (v: FileHeader) {
        FileHeader {
            machine: read_u16(bytes, 0),
            number_of_sections: read_u16(bytes, 2),
            size_of_optional_header: read_u16(bytes, 16),
        }
    }

    fn same(&self, other: &FileHeader) -> (b: bool) {
        *self == *other
    }
}

impl Pod for OptionalHeader {
    open spec fn spec_size_of() -> nat {
        112
    }

    open spec fn spec_align_of() -> nat {
        4
    }

    open spec fn spec_from_bytes(bytes: Seq<u8>) -> OptionalHeader {
        OptionalHeader {
            magic: le_u16(bytes, 0),
            image_base: le_u64(bytes, 24),
            size_of_image: le_u32(bytes, 56),
            size_of_headers: le_u32(bytes, 60),
            number_of_rva_and_sizes: le_u32(bytes, 108),
        }
    }

    fn size_of() -> (n: usize) {
        OPTIONAL_HEADER_SIZE
    }

    fn align_of() -> (n: usize) {
        4
    }

    fn from_bytes(bytes: &[u8]) -> (v: OptionalHeader) {
        OptionalHeader {
            magic: read_u16(bytes, 0),
            image_base: read_u64(bytes, 24),
            size_of_image: read_u32(bytes, 56),
            size_of_headers: read_u32(bytes, 60),
            number_of_rva_and_sizes: read_u32(bytes, 108),
        }
    }

    fn same(&self, other: &OptionalHeader) -> (b: bool) {
        *self == *other
    }
}

impl Pod for NtHeaders {
    open spec fn spec_size_of() -> nat {
        136
    }

    open spec fn spec_align_of() -> nat {
        4
    }

    open spec fn spec_from_bytes(bytes: Seq<u8>) -> NtHeaders {
        NtHeaders {
            signature: le_u32(bytes, 0),
            file_header: FileHeader::spec_from_bytes(bytes.subrange(4, 24)),
            optional_header: OptionalHeader::spec_from_bytes(bytes.subrange(24, 136)),
        }
    }

    fn size_of() -> (n: usize) {
        NT_HEADERS_SIZE
    }

    fn align_of() -> (n: usize) {
        4
    }

    fn from_bytes(bytes: &[u8]) -> (v: NtHeaders) {
        NtHeaders {
            signature: read_u32(bytes, 0),
            file_header: FileHeader::from_bytes(slice_subrange(bytes, 4, 24)),
            optional_header: OptionalHeader::from_bytes(slice_subrange(bytes, 24, 136)),
        }
    }

    fn same(&self, other: &NtHeaders) -> (b: bool) {
        *self == *other
    }
}

impl Pod for DataDirectory {
    open spec fn spec_size_of() -> nat {
        8
    }

    open spec fn spec_align_of() -> nat {
        4
    }

    open spec fn spec_from_bytes(bytes: Seq<u8>) -> DataDirectory {
        DataDirectory { virtual_address: le_u32(bytes, 0), size: le_u32(bytes, 4) }
    }

    fn size_of() -> (n: usize) {
        DATA_DIRECTORY_SIZE
    }

    fn align_of() -> (n: usize) {
        4
    }

    fn from_bytes(bytes: &[u8]) -> (v: DataDirectory) {
        DataDirectory { virtual_address: read_u32(bytes, 0), size: read_u32(bytes, 4) }
    }

    fn same(&self, other: &DataDirectory) -> (b: bool) {
        *self == *other
    }
}

impl Pod for SectionHeader {
    open spec fn spec_size_of() -> nat {
        40
    }

    open spec fn spec_align_of() -> nat {
        4
    }

    open spec fn spec_from_bytes(bytes: Seq<u8>) -> SectionHeader {
        SectionHeader {
            virtual_size: le_u32(bytes, 8),
            virtual_address: le_u32(bytes, 12),
            size_of_raw_data: le_u32(bytes, 16),
            pointer_to_raw_data: le_u32(bytes, 20),
        }
    }

    fn size_of() -> (n: usize) {
        SECTION_HEADER_SIZE
    }

    fn align_of() -> (n: usize) {
        4
    }

    fn from_bytes(bytes: &[u8]) -> (v: SectionHeader) {
        SectionHeader {
            virtual_size: read_u32(bytes, 8),
            virtual_address: read_u32(bytes, 12),
            size_of_raw_data: read_u32(bytes, 16),
            pointer_to_raw_data: read_u32(bytes, 20),
        }
    }

    fn same(&self, other: &SectionHeader) -> (b: bool) {
        *self == *other
    }
}

} // verus!
