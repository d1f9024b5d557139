use iso2god::byte_order::overwrite;
use iso2god::error::Error;
use iso2god::executable::xbe::XbeHeaderFields;
use iso2god::executable::xex::XexHeaderFields;
use iso2god::god::ConHeaderBuilder;
use iso2god::ranged::gdfx::FileSystem;
use iso2god::ranged::RangeRef;
use iso2god::stream::{
    bytes_equal, has_bytes, read_bytes, read_bytes_rel, read_u16_be_at, read_u16_be_rel,
    read_u16_le_at, read_u24_be_at, read_u24_be_rel, read_u32_be_at, read_u32_be_rel,
    read_u32_le_at, read_u64_be_at, read_u64_be_rel, read_u64_le_at, read_u8, read_u8_rel,
    slice_from, slice_from_rel,
};

const DATA: [u8; 10] = [0x01, 0x02, 0x03, 0x04, 0x05, 0x06, 0x07, 0x08, 0x09, 0x0a];

#[test]
fn bytes_at_a_position() {
    assert_eq!(read_bytes(&DATA, 2, 3), Ok(&DATA[2..5]));
    assert_eq!(read_bytes(&DATA, 0, 10), Ok(&DATA[..]));
    assert_eq!(read_bytes(&DATA, 10, 0), Ok(&DATA[10..]));
    assert_eq!(read_bytes(&DATA, 8, 3), Err(Error::UnexpectedEof));
    assert_eq!(read_bytes(&DATA, 11, 0), Err(Error::UnexpectedEof));
    assert_eq!(read_bytes(&DATA, u64::MAX, 1), Err(Error::UnexpectedEof));
    assert_eq!(read_bytes(&DATA, 0, usize::MAX), Err(Error::UnexpectedEof));
}

#[test]
fn whether_bytes_are_there() {
    assert!(has_bytes(&DATA, 0, 10));
    assert!(has_bytes(&DATA, 10, 0));
    assert!(!has_bytes(&DATA, 0, 11));
    assert!(!has_bytes(&DATA, 11, 0));
    assert!(!has_bytes(&DATA, 5, u64::MAX));
    assert!(!has_bytes(&DATA, u64::MAX, u64::MAX));
}

#[test]
fn equal_byte_strings() {
    assert!(bytes_equal(b"abc", b"abc"));
    assert!(bytes_equal(b"", b""));
    assert!(!bytes_equal(b"abc", b"abd"));
    assert!(!bytes_equal(b"abc", b"ab"));
    assert!(!bytes_equal(b"", b"a"));
}

#[test]
fn numbers_with_the_low_byte_first() {
    assert_eq!(read_u8(&DATA, 3), Ok(0x04));
    assert_eq!(read_u16_le_at(&DATA, 1), Ok(0x0302));
    assert_eq!(read_u32_le_at(&DATA, 1), Ok(0x05040302));
    assert_eq!(read_u64_le_at(&DATA, 1), Ok(0x0908070605040302));
    assert_eq!(read_u8(&DATA, 10), Err(Error::UnexpectedEof));
    assert_eq!(read_u16_le_at(&DATA, 9), Err(Error::UnexpectedEof));
    assert_eq!(read_u32_le_at(&DATA, 7), Err(Error::UnexpectedEof));
    assert_eq!(read_u64_le_at(&DATA, 3), Err(Error::UnexpectedEof));
    assert_eq!(read_u64_le_at(&DATA, 2), Ok(0x0a09080706050403));
}

#[test]
fn numbers_with_the_high_byte_first() {
    assert_eq!(read_u16_be_at(&DATA, 1), Ok(0x0203));
    assert_eq!(read_u24_be_at(&DATA, 1), Ok(0x020304));
    assert_eq!(read_u32_be_at(&DATA, 1), Ok(0x02030405));
    assert_eq!(read_u64_be_at(&DATA, 1), Ok(0x0203040506070809));
    assert_eq!(read_u16_be_at(&DATA, 9), Err(Error::UnexpectedEof));
    assert_eq!(read_u24_be_at(&DATA, 8), Err(Error::UnexpectedEof));
    assert_eq!(read_u32_be_at(&DATA, 7), Err(Error::UnexpectedEof));
    assert_eq!(read_u64_be_at(&DATA, 3), Err(Error::UnexpectedEof));
    assert_eq!(read_u24_be_at(&[0xff, 0xff, 0xff, 0x00], 0), Ok(0xffffff));
}

#[test]
fn positions_as_sums() {
    assert_eq!(read_bytes_rel(&DATA, 1, 2, 2), Ok(&DATA[3..5]));
    assert_eq!(read_u8_rel(&DATA, 4, 5), Ok(0x0a));
    assert_eq!(read_u16_be_rel(&DATA, 4, 4), Ok(0x090a));
    assert_eq!(read_u24_be_rel(&DATA, 0, 7), Ok(0x08090a));
    assert_eq!(read_u32_be_rel(&DATA, 3, 3), Ok(0x0708090a));
    assert_eq!(read_u64_be_rel(&DATA, 1, 1), Ok(0x030405060708090a));
    assert_eq!(read_u8_rel(&DATA, 5, 5), Err(Error::UnexpectedEof));
    assert_eq!(read_bytes_rel(&DATA, u64::MAX, 1, 0), Err(Error::UnexpectedEof));
    assert_eq!(read_u8_rel(&DATA, u64::MAX, u64::MAX), Err(Error::UnexpectedEof));
    assert_eq!(read_u16_be_rel(&DATA, u64::MAX, 1), Err(Error::UnexpectedEof));
    assert_eq!(read_u24_be_rel(&DATA, 1, u64::MAX), Err(Error::UnexpectedEof));
    assert_eq!(read_u32_be_rel(&DATA, u64::MAX, 1), Err(Error::UnexpectedEof));
    assert_eq!(read_u64_be_rel(&DATA, u64::MAX, 1), Err(Error::UnexpectedEof));
}

#[test]
fn what_is_left_from_a_position_on() {
    assert_eq!(slice_from(&DATA, 0), &DATA[..]);
    assert_eq!(slice_from(&DATA, 7), &DATA[7..]);
    assert_eq!(slice_from(&DATA, 10), &[] as &[u8]);
    assert_eq!(slice_from(&DATA, 11), &[] as &[u8]);
    assert_eq!(slice_from_rel(&DATA, 3, 4), &DATA[7..]);
    assert_eq!(slice_from_rel(&DATA, 3, 8), &[] as &[u8]);
    assert_eq!(slice_from_rel(&DATA, u64::MAX, 8), &[] as &[u8]);
}

#[test]
fn bytes_written_over_a_buffer() {
    let mut buffer = vec![0u8; 6];
    overwrite(&mut buffer, 2, &[7, 8, 9]);
    assert_eq!(buffer, vec![0, 0, 7, 8, 9, 0]);
    overwrite(&mut buffer, 0, &[1; 6]);
    assert_eq!(buffer, vec![1; 6]);
    overwrite(&mut buffer, 6, &[]);
    assert_eq!(buffer, vec![1; 6]);
}

#[test]
fn a_value_with_the_range_of_all_the_input() {
    let mut image = vec![0u8; 0x10000 + 36];
    image[0x10000..0x10014].copy_from_slice(b"MICROSOFT*XBOX*MEDIA");
    image[0x10014] = 0x21;
    let (range, fs) = RangeRef::<FileSystem>::read_whole(&image).unwrap();
    assert_eq!((range.offset(), range.length()), (0, image.len() as u64));
    assert_eq!(fs.root_dir.sector, 0x21);
    assert_eq!(
        RangeRef::<FileSystem>::read_whole(&image[..100]).err(),
        Some(Error::UnexpectedEof)
    );
}

#[test]
fn defaults() {
    assert_eq!(XexHeaderFields::default().execution_info, None);
    assert_eq!(XbeHeaderFields::default().execution_info, None);
    assert!(iso2god::xex::XexHeaderFields::default().resource_info.is_none());
    assert_eq!(ConHeaderBuilder::default().finalize(), ConHeaderBuilder::new().finalize());
}
