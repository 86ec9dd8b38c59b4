//! The three address spaces of an image (file offsets, relative virtual
//! addresses and virtual addresses) and what the conversions between them
//! return, as functions of the header fields alone.
//!
//! The section table is untrusted: its ranges may overlap, lie in any order
//! and reach past every bound. Each scan takes the first section, in table
//! order, whose range holds the address.

use vstd::prelude::*;

use crate::error::{Error, Result};
use crate::pe64::image::{Rva, SectionHeader, Va};

verus! {

impl SectionHeader {
    /// The end of the section once mapped: its start plus the larger of
    /// its virtual size and the size of its raw data.
    pub open spec fn virtual_end(self) -> int {
        if self.virtual_size >= self.size_of_raw_data {
            self.virtual_address + self.virtual_size
        } else {
            self.virtual_address + self.size_of_raw_data
        }
    }

    /// The section, once mapped, holds `rva`.
    pub open spec fn claims_rva(self, rva: Rva) -> bool {
        self.virtual_address <= rva < self.virtual_end()
    }

    /// The file holds the byte that `rva` addresses in this section.
    pub open spec fn backs_rva(self, rva: Rva) -> bool {
        self.virtual_address <= rva < self.virtual_address + self.size_of_raw_data
    }

    /// The section holds `rva` in its tail, which exists only once mapped.
    pub open spec fn zero_fills_rva(self, rva: Rva) -> bool {
        self.virtual_address + self.size_of_raw_data <= rva < self.virtual_address
            + self.virtual_size
    }

    /// The end of the section's raw data in the file.
    pub open spec fn raw_end(self) -> int {
        self.pointer_to_raw_data + self.size_of_raw_data
    }

    /// The section's raw data holds the file offset `offset`.
    pub open spec fn claims_offset(self, offset: int) -> bool {
        self.pointer_to_raw_data <= offset < self.raw_end()
    }

    /// The byte at file offset `offset` of this section's raw data is mapped:
    /// it lies within the virtual size.
    pub open spec fn maps_offset(self, offset: int) -> bool {
        self.pointer_to_raw_data <= offset < self.pointer_to_raw_data + self.virtual_size
    }

    /// Whether the section, once mapped, holds `rva`.
    pub fn contains_rva(&self, rva: Rva) -> (b: bool)
        ensures
            b == self.claims_rva(rva),
    {
        let size: u32 = if self.virtual_size >= self.size_of_raw_data {
            self.virtual_size
        } else {
            self.size_of_raw_data
        };
        rva >= self.virtual_address && rva - self.virtual_address < size
    }

    /// Whether the file holds the byte that `rva` addresses in this section.
    pub fn has_raw_data_at(&self, rva: Rva) -> (b: bool)
        ensures
            b == self.backs_rva(rva),
    {
        rva >= self.virtual_address && rva - self.virtual_address < self.size_of_raw_data
    }

    /// Whether the section's raw data holds the file offset `offset`.
    pub fn contains_offset(&self, offset: usize) -> (b: bool)
        ensures
            b == self.claims_offset(offset as int),
    {
        let start: usize = self.pointer_to_raw_data as usize;
        offset >= start && offset - start < self.size_of_raw_data as usize
    }

    /// Whether the byte at file offset `offset` of this section's raw data
    /// is mapped.
    pub fn is_mapped_at(&self, offset: usize) -> (b: bool)
        ensures
            b == self.maps_offset(offset as int),
    {
        let start: usize = self.pointer_to_raw_data as usize;
        offset >= start && offset - start < self.virtual_size as usize
    }
}

/// Section `i` is the first of `sections` that holds `rva` once mapped.
pub open spec fn first_claims_rva(sections: Seq<SectionHeader>, rva: Rva, i: int) -> bool {
    &&& 0 <= i < sections.len()
    &&& sections[i].claims_rva(rva)
    &&& forall|j: int| 0 <= j < i ==> !(#[trigger] sections[j]).claims_rva(rva)
}

/// The index of the first section that holds `rva` once mapped, if any does.
pub open spec fn section_of_rva(sections: Seq<SectionHeader>, rva: Rva) -> Option<int> {
    if exists|i: int| first_claims_rva(sections, rva, i) {
        Some(choose|i: int| first_claims_rva(sections, rva, i))
    } else {
        None
    }
}

/// Section `i` is the first of `sections` whose raw data holds `offset`.
pub open spec fn first_claims_offset(sections: Seq<SectionHeader>, offset: int, i: int) -> bool {
    &&& 0 <= i < sections.len()
    &&& sections[i].claims_offset(offset)
    &&& forall|j: int| 0 <= j < i ==> !(#[trigger] sections[j]).claims_offset(offset)
}

/// The index of the first section whose raw data holds `offset`, if any
/// does.
pub open spec fn section_of_offset(sections: Seq<SectionHeader>, offset: int) -> Option<int> {
    if exists|i: int| first_claims_offset(sections, offset, i) {
        Some(choose|i: int| first_claims_offset(sections, offset, i))
    } else {
        None
    }
}

/// The first section that holds `rva` is unique: a scan that stops at one
/// has found `section_of_rva`.
pub proof fn lemma_section_of_rva(sections: Seq<SectionHeader>, rva: Rva, i: int)
    requires
        first_claims_rva(sections, rva, i),
    ensures
        section_of_rva(sections, rva) == Some(i),
{
    let k = choose|k: int| first_claims_rva(sections, rva, k);
    assert(first_claims_rva(sections, rva, k));
    if k < i {
        assert(!sections[k].claims_rva(rva));
    } else if i < k {
        assert(!sections[i].claims_rva(rva));
    }
}

/// A scan that passes every section without a match has found that
/// `section_of_rva` is `None`.
pub proof fn lemma_no_section_of_rva(sections: Seq<SectionHeader>, rva: Rva)
    requires
        forall|j: int| 0 <= j < sections.len() ==> !(#[trigger] sections[j]).claims_rva(rva),
    ensures
        section_of_rva(sections, rva) is None,
{
}

/// The first section whose raw data holds `offset` is unique.
pub proof fn lemma_section_of_offset(sections: Seq<SectionHeader>, offset: int, i: int)
    requires
        first_claims_offset(sections, offset, i),
    ensures
        section_of_offset(sections, offset) == Some(i),
{
    let k = choose|k: int| first_claims_offset(sections, offset, k);
    assert(first_claims_offset(sections, offset, k));
    if k < i {
        assert(!sections[k].claims_offset(offset));
    } else if i < k {
        assert(!sections[i].claims_offset(offset));
    }
}

/// A scan that passes every section without a match has found that
/// `section_of_offset` is `None`.
pub proof fn lemma_no_section_of_offset(sections: Seq<SectionHeader>, offset: int)
    requires
        forall|j: int|
            0 <= j < sections.len() ==> !(#[trigger] sections[j]).claims_offset(offset),
    ensures
        section_of_offset(sections, offset) is None,
{
}

/// The file offset of the byte that `rva` addresses.
///
/// In the first section that holds `rva`: the offset of the byte in the
/// section's raw data, or `ZeroFill` where the raw data ends before `rva`.
/// Outside every section, an `rva` within the headers is its own offset; any
/// other is `OutOfBounds`. An offset that does not fit `usize` is
/// `Overflow`.
pub open spec fn spec_rva_to_file_offset(
    sections: Seq<SectionHeader>,
    size_of_headers: u32,
    rva: Rva,
) -> Result<usize> {
    match section_of_rva(sections, rva) {
        Some(i) => {
            let it = sections[i];
            let offset = rva - it.virtual_address + it.pointer_to_raw_data;
            if !it.backs_rva(rva) {
                Err(Error::ZeroFill)
            } else if offset > usize::MAX {
                Err(Error::Overflow)
            } else {
                Ok(offset as usize)
            }
        },
        None => {
            if rva < size_of_headers {
                Ok(rva as usize)
            } else {
                Err(Error::OutOfBounds)
            }
        },
    }
}

/// The relative virtual address of the byte at `file_offset`.
///
/// In the first section whose raw data holds the offset: the address of the
/// byte once mapped, or `OutOfBounds` where the virtual size ends before it.
/// Outside every section's raw data, an offset within the headers is its own
/// address; any other is `OutOfBounds`. An address that does not fit 32 bits
/// is `Overflow`.
pub open spec fn spec_file_offset_to_rva(
    sections: Seq<SectionHeader>,
    size_of_headers: u32,
    file_offset: usize,
) -> Result<Rva> {
    match section_of_offset(sections, file_offset as int) {
        Some(i) => {
            let it = sections[i];
            let rva = file_offset - it.pointer_to_raw_data + it.virtual_address;
            if !it.maps_offset(file_offset as int) {
                Err(Error::OutOfBounds)
            } else if rva > u32::MAX {
                Err(Error::Overflow)
            } else {
                Ok(rva as u32)
            }
        },
        None => {
            if file_offset < size_of_headers {
                Ok(file_offset as u32)
            } else {
                Err(Error::OutOfBounds)
            }
        },
    }
}

/// The virtual address of `rva`: `Null` for zero, `OutOfBounds` at or past
/// the size of the image, else the image base plus `rva`, or `Overflow`
/// where that sum does not fit 64 bits.
pub open spec fn spec_rva_to_va(image_base: Va, size_of_image: u32, rva: Rva) -> Result<Va> {
    if rva == 0 {
        Err(Error::Null)
    } else if rva >= size_of_image {
        Err(Error::OutOfBounds)
    } else if image_base + rva > u64::MAX {
        Err(Error::Overflow)
    } else {
        Ok((image_base + rva) as u64)
    }
}

/// The relative virtual address of `va`: `Null` for zero, `OutOfBounds`
/// below the image base and at or past the end of the image, else `va`
/// minus the image base.
pub open spec fn spec_va_to_rva(image_base: Va, size_of_image: u32, va: Va) -> Result<Rva> {
    if va == 0 {
        Err(Error::Null)
    } else if va < image_base || va - image_base >= size_of_image {
        Err(Error::OutOfBounds)
    } else {
        Ok((va - image_base) as u32)
    }
}

/// If section `i` holds `rva`, some section at or before `i` is the first
/// to hold it.
pub proof fn lemma_first_claims_rva(sections: Seq<SectionHeader>, rva: Rva, i: int) -> (k: int)
    requires
        0 <= i < sections.len(),
        sections[i].claims_rva(rva),
    ensures
        0 <= k <= i,
        first_claims_rva(sections, rva, k),
    decreases i,
{
    if exists|j: int| 0 <= j < i && (#[trigger] sections[j]).claims_rva(rva) {
        let j = choose|j: int| 0 <= j < i && (#[trigger] sections[j]).claims_rva(rva);
        lemma_first_claims_rva(sections, rva, j)
    } else {
        i
    }
}

} // verus!
