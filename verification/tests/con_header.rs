use iso2god::executable::TitleExecutionInfo;
use iso2god::god::con_header::HEADER_SIZE;
use iso2god::god::{ConHeaderBuilder, ContentType};
use sha1::{Digest, Sha1};

fn sha(data: &[u8]) -> [u8; 20] {
    Sha1::digest(data).into()
}

/// A blank header with the digest that `finalize` puts on it.
fn sealed(mut header: Vec<u8>) -> Vec<u8> {
    header[0x035b] = 0;
    header[0x035f] = 0;
    header[0x0391] = 0;
    let digest = sha(&header[0x0344..0x0344 + 0xacbc]);
    header[0x032c..0x032c + 20].copy_from_slice(&digest);
    header
}

#[test]
fn a_header_has_its_size() {
    assert_eq!(HEADER_SIZE, 0xb000);
    assert_eq!(0x0344 + 0xacbc, HEADER_SIZE);
    assert_eq!(ConHeaderBuilder::new().finalize().len(), 0xb000);
}

#[test]
fn blank_header_is_zero_but_for_the_digest() {
    let header = ConHeaderBuilder::new().finalize();
    assert_eq!(header, sealed(vec![0u8; 0xb000]));
    assert_eq!(&header[0x032c..0x0340], &sha(&vec![0u8; 0xacbc]));
}

#[test]
fn template_must_have_the_size_of_a_header() {
    assert!(ConHeaderBuilder::from_template(&[0u8; 100]).is_none());
    assert!(ConHeaderBuilder::from_template(&vec![0u8; 0xb001]).is_none());
    assert!(ConHeaderBuilder::from_template(&vec![0u8; 0xb000]).is_some());
}

#[test]
fn template_is_kept_and_control_bytes_are_cleared() {
    let template: Vec<u8> = (0..0xb000usize).map(|i| (i % 251) as u8 + 1).collect();
    let header = ConHeaderBuilder::from_template(&template).unwrap().finalize();
    assert_eq!(header, sealed(template.clone()));
    assert_eq!(header[0x035b], 0);
    assert_eq!(header[0x035f], 0);
    assert_eq!(header[0x0391], 0);
    assert_eq!(header[0], template[0]);
    assert_eq!(header[0xafff], template[0xafff]);
}

#[test]
fn content_type_is_big_endian() {
    let header = ConHeaderBuilder::new().with_content_type(ContentType::GamesOnDemand).finalize();
    assert_eq!(&header[0x0344..0x0348], &[0x00, 0x00, 0x70, 0x00]);
    let header = ConHeaderBuilder::new().with_content_type(ContentType::XboxOriginal).finalize();
    assert_eq!(&header[0x0344..0x0348], &[0x00, 0x00, 0x50, 0x00]);
}

#[test]
fn execution_info_fields() {
    let info = TitleExecutionInfo {
        media_id: 0x11223344,
        version: 0xaaaaaaaa,
        base_version: 0xbbbbbbbb,
        title_id: 0x55667788,
        platform: 2,
        executable_type: 3,
        disc_number: 4,
        disc_count: 5,
    };
    let header = ConHeaderBuilder::new().with_execution_info(&info).finalize();
    assert_eq!(&header[0x0354..0x0358], &[0x11, 0x22, 0x33, 0x44]);
    assert_eq!(&header[0x0360..0x0364], &[0x55, 0x66, 0x77, 0x88]);
    assert_eq!(&header[0x0364..0x0368], &[2, 3, 4, 5]);
    assert_eq!(&header[0x0358..0x0360], &[0u8; 8]);
}

#[test]
fn block_counts_are_24_and_16_bits() {
    let header = ConHeaderBuilder::new().with_block_counts(0x123456, 0xabcd).finalize();
    assert_eq!(&header[0x0392..0x0397], &[0x12, 0x34, 0x56, 0xab, 0xcd]);
    assert_eq!(header[0x0391], 0);
    assert_eq!(header[0x0397], 0);
    let header = ConHeaderBuilder::new().with_block_counts(0xffffff, 0).finalize();
    assert_eq!(&header[0x0392..0x0397], &[0xff, 0xff, 0xff, 0, 0]);
}

#[test]
fn part_count_is_little_endian_and_size_is_in_units_of_256() {
    let header = ConHeaderBuilder::new().with_data_parts_info(0x01020304, 0x1122334455).finalize();
    assert_eq!(&header[0x03a0..0x03a4], &[0x04, 0x03, 0x02, 0x01]);
    assert_eq!(&header[0x03a4..0x03a8], &[0x11, 0x22, 0x33, 0x44]);
    let header = ConHeaderBuilder::new().with_data_parts_info(3, 0xff).finalize();
    assert_eq!(&header[0x03a0..0x03a8], &[3, 0, 0, 0, 0, 0, 0, 0]);
    let header = ConHeaderBuilder::new().with_data_parts_info(1, u64::MAX).finalize();
    assert_eq!(&header[0x03a4..0x03a8], &[0xff, 0xff, 0xff, 0xff]);
}

#[test]
fn mht_hash_is_stored_as_it_is() {
    let hash: [u8; 20] = core::array::from_fn(|i| i as u8 + 1);
    let header = ConHeaderBuilder::new().with_mht_hash(&hash).finalize();
    assert_eq!(&header[0x037d..0x0391], &hash);
    assert_eq!(header[0x037c], 0);
}

#[test]
fn title_is_utf16_big_endian_with_a_closing_zero() {
    let header = ConHeaderBuilder::from_template(&vec![0xeeu8; 0xb000])
        .unwrap()
        .with_game_title("Ab\u{e9}\u{1f600}")
        .finalize();
    let expected = [0x00, 0x41, 0x00, 0x62, 0x00, 0xe9, 0xd8, 0x3d, 0xde, 0x00, 0x00, 0x00];
    assert_eq!(&header[0x0411..0x0411 + 12], &expected);
    assert_eq!(&header[0x1691..0x1691 + 12], &expected);
    assert_eq!(header[0x0411 + 12], 0xee);
    assert_eq!(header[0x1691 + 12], 0xee);
    assert_eq!(header[0x0410], 0xee);
}

#[test]
fn empty_title_is_a_zero_unit() {
    let header = ConHeaderBuilder::from_template(&vec![0xeeu8; 0xb000])
        .unwrap()
        .with_game_title("")
        .finalize();
    assert_eq!(&header[0x0411..0x0414], &[0, 0, 0xee]);
    assert_eq!(&header[0x1691..0x1694], &[0, 0, 0xee]);
}

#[test]
fn long_title_is_cut_to_the_field() {
    let title: String = core::iter::repeat('x').take(100).collect();
    let header = ConHeaderBuilder::from_template(&vec![0xeeu8; 0xb000])
        .unwrap()
        .with_game_title(&title)
        .finalize();
    for i in 0..63 {
        assert_eq!(&header[0x1691 + 2 * i..0x1691 + 2 * i + 2], &[0, b'x']);
        assert_eq!(&header[0x0411 + 2 * i..0x0411 + 2 * i + 2], &[0, b'x']);
    }
    assert_eq!(&header[0x1691 + 126..0x1691 + 128], &[0, 0]);
    assert_eq!(header[0x1691 + 128], 0xee);
    assert_eq!(&header[0x0411 + 126..0x0411 + 128], &[0, 0]);
    assert_eq!(header[0x0411 + 128], 0xee);
}

#[test]
fn title_of_63_units_fits() {
    let title: String = core::iter::repeat('y').take(63).collect();
    let header = ConHeaderBuilder::new().with_game_title(&title).finalize();
    assert_eq!(&header[0x1691 + 124..0x1691 + 128], &[0, b'y', 0, 0]);
}

#[test]
fn icon_is_stored_twice_with_its_length_twice() {
    let png: Vec<u8> = (0..300).map(|i| (i % 200) as u8 + 1).collect();
    let header = ConHeaderBuilder::new().with_game_icon(Some(&png)).finalize();
    assert_eq!(&header[0x1712..0x1716], &[0, 0, 0x01, 0x2c]);
    assert_eq!(&header[0x1716..0x171a], &[0, 0, 0x01, 0x2c]);
    assert_eq!(&header[0x171a..0x171a + 300], &png[..]);
    assert_eq!(&header[0x571a..0x571a + 300], &png[..]);
    assert_eq!(header[0x171a + 300], 0);
}

#[test]
fn largest_icon_fits() {
    let png = vec![7u8; 0x0400];
    let header = ConHeaderBuilder::new().with_game_icon(Some(&png)).finalize();
    assert_eq!(&header[0x1712..0x1716], &[0, 0, 0x04, 0x00]);
    assert_eq!(&header[0x571a..0x5b1a], &png[..]);
    assert_eq!(header[0x5b1a], 0);
}

#[test]
fn no_icon_is_an_empty_icon() {
    let header = ConHeaderBuilder::from_template(&vec![0xeeu8; 0xb000])
        .unwrap()
        .with_game_icon(None)
        .finalize();
    assert_eq!(&header[0x1712..0x171a], &[0u8; 8]);
    assert_eq!(header[0x171a], 0xee);
    assert_eq!(header[0x571a], 0xee);
}

#[test]
fn digest_covers_the_fields() {
    let info = TitleExecutionInfo {
        media_id: 1,
        version: 2,
        base_version: 3,
        title_id: 4,
        platform: 5,
        executable_type: 6,
        disc_number: 7,
        disc_count: 8,
    };
    let header = ConHeaderBuilder::new()
        .with_execution_info(&info)
        .with_block_counts(10, 0)
        .with_data_parts_info(2, 0x10000)
        .with_content_type(ContentType::GamesOnDemand)
        .with_mht_hash(&[9u8; 20])
        .with_game_title("Title")
        .finalize();
    assert_eq!(&header[0x032c..0x0340], &sha(&header[0x0344..]));
    assert_ne!(&header[0x032c..0x0340], &sha(&vec![0u8; 0xacbc]));
}

#[test]
fn finalize_gives_the_same_header_for_the_same_fields() {
    let build = || {
        ConHeaderBuilder::new()
            .with_block_counts(77, 1)
            .with_content_type(ContentType::XboxOriginal)
            .with_game_title("Same")
            .with_mht_hash(&[5u8; 20])
            .finalize()
    };
    assert_eq!(build(), build());
}
