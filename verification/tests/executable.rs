use iso2god::error::Error;
use iso2god::executable::xbe::{XbeHeader, XbeHeaderFields};
use iso2god::executable::xex::{
    XexHeader, XexHeaderFields, XexModuleFlags, DLL_MODULE, TITLE_MODULE, USER_MODE,
};
use iso2god::executable::{TitleExecutionInfo, TitleInfo};
use iso2god::god::ContentType;
use iso2god::iso::IsoReader;

fn put(image: &mut Vec<u8>, at: usize, bytes: &[u8]) {
    if image.len() < at + bytes.len() {
        image.resize(at + bytes.len(), 0);
    }
    image[at..at + bytes.len()].copy_from_slice(bytes);
}

const RECORD: [u8; 20] = [
    0x11, 0x22, 0x33, 0x44, // media id
    0x00, 0x00, 0x01, 0x02, // version
    0x00, 0x00, 0x00, 0x03, // base version
    0x4d, 0x53, 0x07, 0xe6, // title id
    0x02, 0x01, 0x03, 0x04, // platform, type, disc number, disc count
];

fn record_info() -> TitleExecutionInfo {
    TitleExecutionInfo {
        media_id: 0x11223344,
        version: 0x0102,
        base_version: 3,
        title_id: 0x4d5307e6,
        platform: 2,
        executable_type: 1,
        disc_number: 3,
        disc_count: 4,
    }
}

/// A header with the given fields; the identity record stands at 0x100.
fn xex(flags: u32, fields: &[(u32, u32)]) -> Vec<u8> {
    let mut h = Vec::new();
    h.extend_from_slice(b"XEX2");
    h.extend_from_slice(&flags.to_be_bytes());
    h.extend_from_slice(&0x2000u32.to_be_bytes());
    h.extend_from_slice(&0xdeadbeefu32.to_be_bytes());
    h.extend_from_slice(&0x0180u32.to_be_bytes());
    h.extend_from_slice(&(fields.len() as u32).to_be_bytes());
    for (key, value) in fields {
        h.extend_from_slice(&key.to_be_bytes());
        h.extend_from_slice(&value.to_be_bytes());
    }
    put(&mut h, 0x100, &RECORD);
    h
}

#[test]
fn identity_record_of_a_modern_executable_is_big_endian() {
    assert_eq!(TitleExecutionInfo::from_xex(&RECORD), Ok(record_info()));
    assert_eq!(TitleExecutionInfo::from_xex(&RECORD[..19]), Err(Error::UnexpectedEof));
}

#[test]
fn modern_header_with_the_identity_field() {
    let h = xex(0x01, &[(0x000002ff, 7), (0x00040006, 0x100), (0x00010100, 9)]);
    let header = XexHeader::read(&h).unwrap();
    assert_eq!(header.module_flags, XexModuleFlags { bits: 1 });
    assert_eq!(header.code_offset, 0x2000);
    assert_eq!(header.certificate_offset, 0x0180);
    assert_eq!(header.fields, XexHeaderFields { execution_info: Some(record_info()) });
}

#[test]
fn module_flags_keep_the_known_bits() {
    let h = xex(0xffff_ff89, &[]);
    let header = XexHeader::read(&h).unwrap();
    assert_eq!(header.module_flags.bits(), 0x89);
    assert!(header.module_flags.contains(TITLE_MODULE | DLL_MODULE | USER_MODE));
    assert!(!header.module_flags.contains(0x02));
    assert_eq!(XexModuleFlags::from_bits_truncate(0x1ff).bits(), 0xff);
}

#[test]
fn modern_header_without_the_identity_field() {
    let h = xex(0, &[(0x000002ff, 0x100), (0x00040106, 0x100)]);
    let header = XexHeader::read(&h).unwrap();
    assert_eq!(header.fields.execution_info, None);
    let h = xex(0, &[]);
    assert_eq!(XexHeader::read(&h).unwrap().fields.execution_info, None);
}

#[test]
fn the_last_identity_field_counts() {
    let mut h = xex(0, &[(0x00040006, 0x100), (0x00040006, 0x120)]);
    let mut other = RECORD;
    other[0] = 0x99;
    put(&mut h, 0x120, &other);
    let header = XexHeader::read(&h).unwrap();
    assert_eq!(header.fields.execution_info.unwrap().media_id, 0x99223344);
}

#[test]
fn modern_header_needs_its_signature() {
    let mut h = xex(0, &[(0x00040006, 0x100)]);
    h[3] = b'1';
    assert_eq!(XexHeader::read(&h), Err(Error::MissingXexMagic));
    assert_eq!(XexHeader::read(b"XEX"), Err(Error::UnexpectedEof));
    assert_eq!(XexHeader::read(b""), Err(Error::UnexpectedEof));
    assert_eq!(XexHeader::read(b"XBEH"), Err(Error::MissingXexMagic));
}

#[test]
fn cut_modern_header_is_an_error() {
    let h = xex(0, &[(0x00040006, 0x100)]);
    assert_eq!(XexHeader::read(&h[..23]), Err(Error::UnexpectedEof));
    assert_eq!(XexHeader::read(&h[..24]), Err(Error::UnexpectedEof));
    assert_eq!(XexHeader::read(&h[..31]), Err(Error::UnexpectedEof));
    assert_eq!(XexHeader::read(&h[..0x100 + 19]), Err(Error::UnexpectedEof));
    assert!(XexHeader::read(&h[..0x100 + 20]).is_ok());
}

#[test]
fn a_field_table_longer_than_the_input_is_an_error() {
    let mut h = xex(0, &[(0x00040006, 0x100)]);
    h[20..24].copy_from_slice(&0xffff_ffffu32.to_be_bytes());
    assert_eq!(XexHeader::read(&h), Err(Error::UnexpectedEof));
}

#[test]
fn identity_record_behind_the_end_is_an_error() {
    let h = xex(0, &[(0x00040006, 0xffff_fff0)]);
    assert_eq!(XexHeader::read(&h), Err(Error::UnexpectedEof));
}

/// A legacy header whose certificate stands `delta` bytes in.
fn xbe(base: u32, delta: u32, title_id: u32, version: u32) -> Vec<u8> {
    let mut h = Vec::new();
    put(&mut h, 0, b"XBEH");
    put(&mut h, 0x0104, &base.to_le_bytes());
    put(&mut h, 0x0118, &base.wrapping_add(delta).to_le_bytes());
    put(&mut h, delta as usize + 8, &title_id.to_le_bytes());
    put(&mut h, delta as usize + 176, &version.to_le_bytes());
    h
}

#[test]
fn legacy_header_is_little_endian() {
    let h = xbe(0x00010000, 0x178, 0x4d530002, 0x00000005);
    let header = XbeHeader::read(&h).unwrap();
    assert_eq!(header.dw_base_addr, 0x00010000);
    assert_eq!(header.dw_certificate_addr, 0x00010178);
    assert_eq!(
        header.fields,
        XbeHeaderFields {
            execution_info: Some(TitleExecutionInfo {
                media_id: 0,
                version: 5,
                base_version: 0,
                title_id: 0x4d530002,
                platform: 0,
                executable_type: 0,
                disc_number: 1,
                disc_count: 1,
            })
        }
    );
    assert_eq!(&h[0x178 + 8..0x178 + 12], &[0x02, 0x00, 0x53, 0x4d]);
}

#[test]
fn certificate_of_a_legacy_executable() {
    let mut cert = vec![0u8; 180];
    cert[8..12].copy_from_slice(&[0x78, 0x56, 0x34, 0x12]);
    cert[176..180].copy_from_slice(&[0x01, 0x02, 0x03, 0x04]);
    let info = TitleExecutionInfo::from_xbe(&cert).unwrap();
    assert_eq!(info.title_id, 0x12345678);
    assert_eq!(info.version, 0x04030201);
    assert_eq!((info.disc_number, info.disc_count), (1, 1));
    assert_eq!(TitleExecutionInfo::from_xbe(&cert[..179]), Err(Error::UnexpectedEof));
    assert_eq!(TitleExecutionInfo::from_xbe(&cert[..11]), Err(Error::UnexpectedEof));
}

#[test]
fn legacy_header_needs_its_signature() {
    let mut h = xbe(0x10000, 0x178, 1, 2);
    h[0] = b'Y';
    assert_eq!(XbeHeader::read(&h), Err(Error::MissingXbeMagic));
    assert_eq!(XbeHeader::read(b"XBE"), Err(Error::UnexpectedEof));
    assert_eq!(XbeHeader::check_magic_bytes(b"XBEH"), Ok(()));
    assert_eq!(XbeHeader::check_magic_bytes(b"XEX2"), Err(Error::MissingXbeMagic));
    assert_eq!(XbeHeader::check_magic_bytes(b"XB"), Err(Error::UnexpectedEof));
}

#[test]
fn cut_legacy_header_is_an_error() {
    let h = xbe(0x10000, 0x178, 1, 2);
    assert_eq!(XbeHeader::read(&h[..0x107]), Err(Error::UnexpectedEof));
    assert_eq!(XbeHeader::read(&h[..0x11b]), Err(Error::UnexpectedEof));
    assert_eq!(XbeHeader::read(&h[..0x178 + 179]), Err(Error::UnexpectedEof));
    assert!(XbeHeader::read(&h[..0x178 + 180]).is_ok());
}

#[test]
fn certificate_below_the_base_address_is_refused() {
    let mut h = xbe(0x10000, 0x178, 1, 2);
    h[0x0118..0x011c].copy_from_slice(&0xffffu32.to_le_bytes());
    assert_eq!(XbeHeader::read(&h), Err(Error::InvalidData));
}

fn entry(sector: u32, size: u32, attrs: u8, name: &[u8]) -> Vec<u8> {
    let mut e = vec![0u8; 4];
    e.extend_from_slice(&sector.to_le_bytes());
    e.extend_from_slice(&size.to_le_bytes());
    e.push(attrs);
    e.push(name.len() as u8);
    e.extend_from_slice(name);
    while e.len() % 4 != 0 {
        e.push(0xff);
    }
    e
}

/// A flat image whose root directory holds the given files; each file's
/// data goes to its sector.
fn image_with(files: &[(&str, u32, Vec<u8>)]) -> Vec<u8> {
    let mut image = Vec::new();
    put(&mut image, 0x10000, b"MICROSOFT*XBOX*MEDIA");
    put(&mut image, 0x10014, &0x21u32.to_le_bytes());
    put(&mut image, 0x10018, &2048u32.to_le_bytes());
    let mut dir = Vec::new();
    for (name, sector, data) in files {
        dir.extend_from_slice(&entry(*sector, data.len() as u32, 0x20, name.as_bytes()));
        put(&mut image, *sector as usize * 2048, data);
    }
    dir.extend_from_slice(&[0xff; 4]);
    put(&mut image, 0x21 * 2048, &dir);
    image
}

#[test]
fn a_modern_executable_makes_a_game_on_demand() {
    let image = image_with(&[
        ("other.bin", 0x30, vec![1, 2, 3]),
        ("default.xex", 0x31, xex(1, &[(0x00040006, 0x100)])),
    ]);
    let iso = IsoReader::read(&image).unwrap();
    assert_eq!(
        TitleInfo::from_image(&iso),
        Ok(TitleInfo { content_type: ContentType::GamesOnDemand, execution_info: record_info() })
    );
}

#[test]
fn the_name_of_the_executable_may_be_in_capitals() {
    let image = image_with(&[("DEFAULT.XEX", 0x31, xex(1, &[(0x00040006, 0x100)]))]);
    let iso = IsoReader::read(&image).unwrap();
    assert_eq!(TitleInfo::from_image(&iso).unwrap().execution_info, record_info());
}

#[test]
fn a_legacy_executable_makes_an_original_title() {
    let image = image_with(&[("default.xbe", 0x31, xbe(0x10000, 0x178, 0xabcd0123, 9))]);
    let iso = IsoReader::read(&image).unwrap();
    let info = TitleInfo::from_image(&iso).unwrap();
    assert_eq!(info.content_type, ContentType::XboxOriginal);
    assert_eq!(info.execution_info.title_id, 0xabcd0123);
    assert_eq!(info.execution_info.version, 9);
    assert_eq!(info.execution_info.media_id, 0);
}

#[test]
fn the_modern_executable_is_taken_first() {
    let image = image_with(&[
        ("default.xbe", 0x31, xbe(0x10000, 0x178, 0xabcd0123, 9)),
        ("default.xex", 0x33, xex(1, &[(0x00040006, 0x100)])),
    ]);
    let iso = IsoReader::read(&image).unwrap();
    assert_eq!(TitleInfo::from_image(&iso).unwrap().content_type, ContentType::GamesOnDemand);
}

#[test]
fn a_modern_executable_that_cannot_be_read_is_an_error() {
    let image = image_with(&[
        ("default.xbe", 0x31, xbe(0x10000, 0x178, 0xabcd0123, 9)),
        ("default.xex", 0x33, b"XEX1 and nothing of use".to_vec()),
    ]);
    let iso = IsoReader::read(&image).unwrap();
    assert_eq!(TitleInfo::from_image(&iso), Err(Error::MissingXexMagic));
}

#[test]
fn a_modern_executable_without_identity_is_an_error() {
    let image = image_with(&[("default.xex", 0x33, xex(1, &[(0x000002ff, 0x100)]))]);
    let iso = IsoReader::read(&image).unwrap();
    assert_eq!(TitleInfo::from_image(&iso), Err(Error::NoExecutionInfo));
}

#[test]
fn an_image_without_executable_is_an_error() {
    let image = image_with(&[("readme.txt", 0x31, b"hello".to_vec())]);
    let iso = IsoReader::read(&image).unwrap();
    assert_eq!(TitleInfo::from_image(&iso), Err(Error::NoExecutable));
}

#[test]
fn errors_have_messages() {
    assert_eq!(Error::NoExecutable.message(), "no executable found in this image");
    assert_eq!(Error::InvalidIsoFormat.message(), "invalid ISO format");
    assert_eq!(Error::MissingXexMagic.message(), "missing 'XEX2' magic bytes in XEX header");
    assert_eq!(Error::MissingXbeMagic.message(), "missing 'XBEH' magic bytes in XBE header");
    assert_eq!(Error::UnexpectedEof.message(), "unexpected end of input");
    assert_eq!(Error::MagicNotFound.message(), "GDFX magic bytes not found");
    assert_eq!(Error::NoExecutionInfo.message(), "no execution info in executable header");
    assert_eq!(Error::DirectoryTooDeep.message(), "directories are nested too deeply");
    assert_eq!(Error::InvalidData.message(), "invalid data");
}
