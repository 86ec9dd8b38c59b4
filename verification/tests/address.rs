use pelite::pe64::{Pe, PeFile, PeView};
use pelite::Error;

fn set_u16(image: &mut [u8], at: usize, value: u16) {
    image[at..at + 2].copy_from_slice(&value.to_le_bytes());
}

fn set_u32(image: &mut [u8], at: usize, value: u32) {
    image[at..at + 4].copy_from_slice(&value.to_le_bytes());
}

fn set_u64(image: &mut [u8], at: usize, value: u64) {
    image[at..at + 8].copy_from_slice(&value.to_le_bytes());
}

const NT: usize = 64;
const TABLE: usize = NT + 24 + 240;

/// One section: (virtual_address, virtual_size, pointer_to_raw_data, size_of_raw_data).
type Section = (u32, u32, u32, u32);

fn image_with(
    image_base: u64,
    size_of_image: u32,
    size_of_headers: u32,
    sections: &[Section],
) -> Vec<u8> {
    let mut image = vec![0u8; size_of_image as usize];
    set_u16(&mut image, 0, 0x5A4D);
    set_u32(&mut image, 60, NT as u32);
    set_u32(&mut image, NT, 0x4550);
    set_u16(&mut image, NT + 4, 0x8664);
    set_u16(&mut image, NT + 6, sections.len() as u16);
    set_u16(&mut image, NT + 20, 240);
    set_u16(&mut image, NT + 24, 0x020B);
    set_u64(&mut image, NT + 24 + 24, image_base);
    set_u32(&mut image, NT + 24 + 56, size_of_image);
    set_u32(&mut image, NT + 24 + 60, size_of_headers);
    set_u32(&mut image, NT + 24 + 108, 16);
    for (i, &(va, vs, prd, srd)) in sections.iter().enumerate() {
        let at = TABLE + 40 * i;
        set_u32(&mut image, at + 8, vs);
        set_u32(&mut image, at + 12, va);
        set_u32(&mut image, at + 16, srd);
        set_u32(&mut image, at + 20, prd);
    }
    image
}

fn minimal() -> Vec<u8> {
    image_with(0x1_4000_0000, 0x3000, 0x400, &[(0x1000, 0x2000, 0x400, 0x1000)])
}

#[test]
fn rva_to_file_offset_in_a_minimal_image() {
    let image = minimal();
    let pe = PeFile::from_bytes(&image).unwrap();
    assert_eq!(pe.rva_to_file_offset(0x1500), Ok(0x900));
    assert_eq!(pe.rva_to_file_offset(0x2800), Err(Error::ZeroFill));
    assert_eq!(pe.rva_to_file_offset(0x5000), Err(Error::OutOfBounds));
}

#[test]
fn rva_to_file_offset_at_the_edges_of_a_section() {
    let image = minimal();
    let pe = PeFile::from_bytes(&image).unwrap();
    assert_eq!(pe.rva_to_file_offset(0x1000), Ok(0x400));
    assert_eq!(pe.rva_to_file_offset(0x1FFF), Ok(0x13FF));
    assert_eq!(pe.rva_to_file_offset(0x2000), Err(Error::ZeroFill));
    assert_eq!(pe.rva_to_file_offset(0x2FFF), Err(Error::ZeroFill));
    assert_eq!(pe.rva_to_file_offset(0x3000), Err(Error::OutOfBounds));
    assert_eq!(pe.rva_to_file_offset(0xFFF), Err(Error::OutOfBounds));
}

#[test]
fn rva_to_file_offset_in_the_headers() {
    let image = minimal();
    let pe = PeFile::from_bytes(&image).unwrap();
    assert_eq!(pe.rva_to_file_offset(0), Ok(0));
    assert_eq!(pe.rva_to_file_offset(0x3FF), Ok(0x3FF));
    assert_eq!(pe.rva_to_file_offset(0x400), Err(Error::OutOfBounds));
}

#[test]
fn rva_to_file_offset_takes_the_first_of_overlapping_sections() {
    let image = image_with(
        0x1000_0000,
        0x4000,
        0x400,
        &[(0x1000, 0x1000, 0x400, 0x200), (0x1000, 0x2000, 0x800, 0x2000)],
    );
    let pe = PeFile::from_bytes(&image).unwrap();
    // Both sections hold 0x1100; the first decides.
    assert_eq!(pe.rva_to_file_offset(0x1100), Ok(0x500));
    // The first has no raw data there: zero fill, although the second has.
    assert_eq!(pe.rva_to_file_offset(0x1800), Err(Error::ZeroFill));
    // Only the second holds 0x2100.
    assert_eq!(pe.rva_to_file_offset(0x2100), Ok(0x1900));
}

#[test]
fn rva_to_file_offset_with_raw_data_larger_than_the_section() {
    let image = image_with(0x1000_0000, 0x3000, 0x400, &[(0x1000, 0x100, 0x400, 0x200)]);
    let pe = PeFile::from_bytes(&image).unwrap();
    assert_eq!(pe.rva_to_file_offset(0x1150), Ok(0x550));
    assert_eq!(pe.rva_to_file_offset(0x11FF), Ok(0x5FF));
    assert_eq!(pe.rva_to_file_offset(0x1200), Err(Error::OutOfBounds));
}

#[test]
fn rva_to_file_offset_survives_sections_that_reach_past_every_bound() {
    let image = image_with(
        0x1000_0000,
        0x3000,
        0x400,
        &[(0xFFFF_F000, 0xFFFF_FFFF, 0xFFFF_FFFF, 0xFFFF_FFFF)],
    );
    let pe = PeFile::from_bytes(&image).unwrap();
    assert_eq!(pe.rva_to_file_offset(0xFFFF_F000), Ok(0xFFFF_FFFF));
    assert_eq!(pe.rva_to_file_offset(0xFFFF_FFFF), Ok(0xFFFF_FFFF + 0xFFF));
    assert_eq!(pe.rva_to_file_offset(0xFFFF_EFFF), Err(Error::OutOfBounds));
}

#[test]
fn file_offset_to_rva_in_a_minimal_image() {
    let image = minimal();
    let pe = PeFile::from_bytes(&image).unwrap();
    assert_eq!(pe.file_offset_to_rva(0x900), Ok(0x1500));
    assert_eq!(pe.file_offset_to_rva(0x400), Ok(0x1000));
    assert_eq!(pe.file_offset_to_rva(0x13FF), Ok(0x1FFF));
    assert_eq!(pe.file_offset_to_rva(0x1400), Err(Error::OutOfBounds));
    assert_eq!(pe.file_offset_to_rva(usize::MAX), Err(Error::OutOfBounds));
}

#[test]
fn file_offset_to_rva_in_the_headers() {
    let image = image_with(0x1000_0000, 0x3000, 0x400, &[(0x1000, 0x1000, 0x600, 0x200)]);
    let pe = PeFile::from_bytes(&image).unwrap();
    assert_eq!(pe.file_offset_to_rva(0), Ok(0));
    assert_eq!(pe.file_offset_to_rva(0x3FF), Ok(0x3FF));
    assert_eq!(pe.file_offset_to_rva(0x400), Err(Error::OutOfBounds));
    assert_eq!(pe.file_offset_to_rva(0x5FF), Err(Error::OutOfBounds));
    assert_eq!(pe.file_offset_to_rva(0x600), Ok(0x1000));
}

#[test]
fn file_offset_to_rva_beyond_the_virtual_size() {
    let image = image_with(0x1000_0000, 0x3000, 0x400, &[(0x1000, 0x100, 0x400, 0x200)]);
    let pe = PeFile::from_bytes(&image).unwrap();
    assert_eq!(pe.file_offset_to_rva(0x4FF), Ok(0x10FF));
    // Raw data that the loader does not map.
    assert_eq!(pe.file_offset_to_rva(0x500), Err(Error::OutOfBounds));
    assert_eq!(pe.file_offset_to_rva(0x5FF), Err(Error::OutOfBounds));
}

#[test]
fn file_offset_to_rva_takes_the_first_of_overlapping_sections() {
    let image = image_with(
        0x1000_0000,
        0x4000,
        0x200,
        &[(0x1000, 0x1000, 0x400, 0x400), (0x2000, 0x1000, 0x600, 0x400)],
    );
    let pe = PeFile::from_bytes(&image).unwrap();
    assert_eq!(pe.file_offset_to_rva(0x700), Ok(0x1300));
    assert_eq!(pe.file_offset_to_rva(0x900), Ok(0x2300));
}

#[test]
fn file_offset_to_rva_that_does_not_fit() {
    let image = image_with(0x1000_0000, 0x3000, 0x400, &[(0xFFFF_FF00, 0x1000, 0x400, 0x1000)]);
    let pe = PeFile::from_bytes(&image).unwrap();
    assert_eq!(pe.file_offset_to_rva(0x4FF), Ok(0xFFFF_FFFF));
    assert_eq!(pe.file_offset_to_rva(0x500), Err(Error::Overflow));
}

#[test]
fn rva_to_file_offset_and_back() {
    let image = image_with(
        0x1000_0000,
        0x5000,
        0x400,
        &[(0x1000, 0x800, 0x400, 0x800), (0x2000, 0x3000, 0xC00, 0x600)],
    );
    let pe = PeFile::from_bytes(&image).unwrap();
    for rva in [0x1000u32, 0x1001, 0x17FF, 0x2000, 0x2300, 0x25FF] {
        let offset = pe.rva_to_file_offset(rva).unwrap();
        assert_eq!(pe.file_offset_to_rva(offset), Ok(rva));
    }
}

#[test]
fn rva_in_the_zero_filled_tail_is_zero_fill() {
    let image = image_with(
        0x1000_0000,
        0x5000,
        0x400,
        &[(0x1000, 0x800, 0x400, 0x800), (0x2000, 0x3000, 0xC00, 0x600)],
    );
    let pe = PeFile::from_bytes(&image).unwrap();
    for rva in [0x2600u32, 0x2601, 0x3000, 0x4FFF] {
        assert_eq!(pe.rva_to_file_offset(rva), Err(Error::ZeroFill));
    }
}

#[test]
fn rva_to_va_and_va_to_rva_at_a_preferred_base() {
    let image = image_with(0x1_4000_0000, 0x3000, 0x400, &[]);
    let pe = PeFile::from_bytes(&image).unwrap();
    assert_eq!(pe.rva_to_va(0), Err(Error::Null));
    assert_eq!(pe.rva_to_va(0x1000), Ok(0x1_4000_1000));
    assert_eq!(pe.va_to_rva(0x1_3FFF_FFFF), Err(Error::OutOfBounds));
}

#[test]
fn rva_to_va_bounds() {
    let image = image_with(0x1_4000_0000, 0x3000, 0x400, &[]);
    let pe = PeView::from_bytes(&image).unwrap();
    assert_eq!(pe.rva_to_va(1), Ok(0x1_4000_0001));
    assert_eq!(pe.rva_to_va(0x2FFF), Ok(0x1_4000_2FFF));
    assert_eq!(pe.rva_to_va(0x3000), Err(Error::OutOfBounds));
    assert_eq!(pe.rva_to_va(u32::MAX), Err(Error::OutOfBounds));
}

#[test]
fn va_to_rva_bounds() {
    let image = image_with(0x1_4000_0000, 0x3000, 0x400, &[]);
    let pe = PeView::from_bytes(&image).unwrap();
    assert_eq!(pe.va_to_rva(0), Err(Error::Null));
    assert_eq!(pe.va_to_rva(0x1_4000_0000), Ok(0));
    assert_eq!(pe.va_to_rva(0x1_4000_0001), Ok(1));
    assert_eq!(pe.va_to_rva(0x1_4000_2FFF), Ok(0x2FFF));
    assert_eq!(pe.va_to_rva(0x1_4000_3000), Err(Error::OutOfBounds));
    assert_eq!(pe.va_to_rva(u64::MAX), Err(Error::OutOfBounds));
    assert_eq!(pe.va_to_rva(1), Err(Error::OutOfBounds));
}

#[test]
fn rva_to_va_and_back() {
    let image = image_with(0x1_4000_0000, 0x3000, 0x400, &[]);
    let pe = PeFile::from_bytes(&image).unwrap();
    for rva in [1u32, 2, 0x400, 0x1000, 0x2FFF] {
        let va = pe.rva_to_va(rva).unwrap();
        assert_eq!(pe.va_to_rva(va), Ok(rva));
    }
    for va in [0x1_4000_0001u64, 0x1_4000_1234, 0x1_4000_2FFF] {
        let rva = pe.va_to_rva(va).unwrap();
        assert_eq!(pe.rva_to_va(rva), Ok(va));
    }
    // The image base is a valid address whose relative address is the null address.
    assert_eq!(pe.va_to_rva(0x1_4000_0000), Ok(0));
    assert_eq!(pe.rva_to_va(0), Err(Error::Null));
}

#[test]
fn rva_to_va_that_does_not_fit() {
    let image = image_with(0xFFFF_FFFF_FFFF_F000, 0x3000, 0x400, &[]);
    let pe = PeFile::from_bytes(&image).unwrap();
    assert_eq!(pe.rva_to_va(0xFFF), Ok(0xFFFF_FFFF_FFFF_FFFF));
    assert_eq!(pe.rva_to_va(0x1000), Err(Error::Overflow));
    assert_eq!(pe.rva_to_va(0x3000), Err(Error::OutOfBounds));
    assert_eq!(pe.va_to_rva(0xFFFF_FFFF_FFFF_FFFF), Ok(0xFFF));
}

#[test]
fn conversions_with_a_zero_image_base() {
    let image = image_with(0, 0x3000, 0x400, &[]);
    let pe = PeFile::from_bytes(&image).unwrap();
    assert_eq!(pe.rva_to_va(0x10), Ok(0x10));
    assert_eq!(pe.va_to_rva(0x10), Ok(0x10));
    assert_eq!(pe.va_to_rva(0), Err(Error::Null));
}

#[test]
fn conversions_do_not_depend_on_the_layout() {
    let image = minimal();
    let file = PeFile::from_bytes(&image).unwrap();
    let view = PeView::from_bytes(&image).unwrap();
    for rva in [0u32, 1, 0x3FF, 0x400, 0x1000, 0x1500, 0x2800, 0x3000, 0x5000] {
        assert_eq!(file.rva_to_file_offset(rva), view.rva_to_file_offset(rva));
        assert_eq!(file.rva_to_va(rva), view.rva_to_va(rva));
    }
    for offset in [0usize, 0x3FF, 0x400, 0x900, 0x13FF, 0x1400] {
        assert_eq!(file.file_offset_to_rva(offset), view.file_offset_to_rva(offset));
    }
}

#[test]
fn an_earlier_section_with_raw_data_hides_a_zero_filled_tail() {
    // 0x1800 lies in the zero-filled tail of the second section, but the first,
    // which overlaps it, holds the address in its raw data.
    let image = image_with(
        0x1000_0000,
        0x4000,
        0x400,
        &[(0x1000, 0x1000, 0x400, 0x1000), (0x1000, 0x2000, 0x1400, 0x200)],
    );
    let pe = PeFile::from_bytes(&image).unwrap();
    assert_eq!(pe.rva_to_file_offset(0x1800), Ok(0xC00));
    assert_eq!(pe.rva_to_file_offset(0x2800), Err(Error::ZeroFill));
}

#[test]
fn raw_data_beyond_the_virtual_size_does_not_convert_back() {
    let image = image_with(0x1000_0000, 0x3000, 0x400, &[(0x1000, 0x100, 0x400, 0x200)]);
    let pe = PeFile::from_bytes(&image).unwrap();
    assert_eq!(pe.rva_to_file_offset(0x1180), Ok(0x580));
    assert_eq!(pe.file_offset_to_rva(0x580), Err(Error::OutOfBounds));
    assert_eq!(pe.rva_to_file_offset(0x10FF), Ok(0x4FF));
    assert_eq!(pe.file_offset_to_rva(0x4FF), Ok(0x10FF));
}

#[test]
fn overlapping_raw_data_converts_back_through_the_first_section() {
    let image = image_with(
        0x1000_0000,
        0x4000,
        0x200,
        &[(0x1000, 0x400, 0x400, 0x400), (0x2000, 0x400, 0x600, 0x400)],
    );
    let pe = PeFile::from_bytes(&image).unwrap();
    assert_eq!(pe.rva_to_file_offset(0x2100), Ok(0x700));
    assert_eq!(pe.file_offset_to_rva(0x700), Ok(0x1300));
    assert_eq!(pe.rva_to_file_offset(0x2300), Ok(0x900));
    assert_eq!(pe.file_offset_to_rva(0x900), Ok(0x2300));
}
