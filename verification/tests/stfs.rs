use iso2god::error::Error;
use iso2god::executable::TitleExecutionInfo;
use iso2god::god::ConHeaderBuilder;
use iso2god::ranged::stfs::{
    read_up_to, ContentType, FileSystem, LocalizedString, Package, PackageKind, Platform,
    SmallString, TransferFlags, DEEP_LINK_SUPPORTED, KINECT_ENABLED, PROFILE_ID_TRANSFER,
};
use iso2god::ranged::{RangeRef, ReadFromRange};
use iso2god::stream::array_of;

fn put(image: &mut Vec<u8>, at: usize, bytes: &[u8]) {
    if image.len() < at + bytes.len() {
        image.resize(at + bytes.len(), 0);
    }
    image[at..at + bytes.len()].copy_from_slice(bytes);
}

fn utf16be(text: &str) -> Vec<u8> {
    text.encode_utf16().flat_map(|u| u.to_be_bytes()).collect()
}

/// A header of 0xb000 bytes with a value in every field.
fn header(metadata_version: u32, fs_type: u32) -> Vec<u8> {
    let mut h = vec![0u8; 0xb000];
    put(&mut h, 0, b"LIVE");
    put(&mut h, 0x244, &[0x24, 1, 2, 3]);
    put(&mut h, 0x248, &[0xd1; 20]);
    put(&mut h, 0x25c, &[9, 0x01, 0x02, 0x03, 0x0a, 0x0b, 0x0c]);
    put(&mut h, 0x344, &0x7000u32.to_be_bytes());
    put(&mut h, 0x348, &metadata_version.to_be_bytes());
    put(&mut h, 0x34c, &0x0102030405060708u64.to_be_bytes());
    put(&mut h, 0x354, &0x11223344u32.to_be_bytes());
    put(&mut h, 0x358, &0x55u32.to_be_bytes());
    put(&mut h, 0x35c, &0x66u32.to_be_bytes());
    put(&mut h, 0x360, &0x4d5307e6u32.to_be_bytes());
    put(&mut h, 0x364, &[2, 7, 1, 3]);
    put(&mut h, 0x368, &0x99aabbccu32.to_be_bytes());
    put(&mut h, 0x36c, &[1, 2, 3, 4, 5]);
    put(&mut h, 0x371, &[11, 12, 13, 14, 15, 16, 17, 18]);
    put(&mut h, 0x39d, &0x00000004u32.to_be_bytes());
    put(&mut h, 0x3a1, &0x1000u64.to_be_bytes());
    put(&mut h, 0x3a9, &fs_type.to_be_bytes());
    put(&mut h, 0x3b1, &[0x5e; 16]);
    put(&mut h, 0x3c1, &[0x5a; 16]);
    put(&mut h, 0x3d1, &[0x01, 0x02, 0x03, 0x04]);
    put(&mut h, 0x3fd, &[0xdd; 20]);
    put(&mut h, 0x411, &utf16be("Name"));
    put(&mut h, 0x411 + 128, &utf16be("Nom"));
    put(&mut h, 0xd11, &utf16be("Description"));
    put(&mut h, 0x1611, &utf16be("Publisher"));
    put(&mut h, 0x1691, &utf16be("Title \u{1f600}"));
    put(&mut h, 0x1711, &[0x94]);
    put(&mut h, 0x1712, &5u32.to_be_bytes());
    put(&mut h, 0x1716, &3u32.to_be_bytes());
    put(&mut h, 0x171a, &[1, 2, 3, 4, 5, 6, 7, 8, 9]);
    put(&mut h, 0x541a, &utf16be("Extra"));
    h
}

#[test]
fn magic_of_each_kind() {
    assert_eq!(&PackageKind::Con.magic(), b"CON ");
    assert_eq!(&PackageKind::Pirs.magic(), b"PIRS");
    assert_eq!(&PackageKind::Live.magic(), b"LIVE");
    assert_eq!(PackageKind::all(), [PackageKind::Con, PackageKind::Pirs, PackageKind::Live]);
    assert_eq!(PackageKind::from_magic(b"CON "), Some(PackageKind::Con));
    assert_eq!(PackageKind::from_magic(b"PIRS"), Some(PackageKind::Pirs));
    assert_eq!(PackageKind::from_magic(b"LIVE"), Some(PackageKind::Live));
    assert_eq!(PackageKind::from_magic(b"CON"), None);
    assert_eq!(PackageKind::from_magic(b"live"), None);
}

#[test]
fn content_type_codes_go_both_ways() {
    assert_eq!(ContentType::SavedGame.code(), 1);
    assert_eq!(ContentType::InstalledGame.code(), 0x4000);
    assert_eq!(ContentType::XboxOriginalGame.code(), 0x5000);
    assert_eq!(ContentType::GameOnDemand.code(), 0x7000);
    assert_eq!(ContentType::CommunityGame.code(), 0x2000000);
    assert_eq!(ContentType::try_from(0x7000), Some(ContentType::GameOnDemand));
    assert_eq!(ContentType::try_from(0x00a0000), Some(ContentType::GameTitle));
    assert_eq!(ContentType::try_from(0x0600000), Some(ContentType::ViralVideo));
    assert_eq!(ContentType::try_from(0), None);
    assert_eq!(ContentType::try_from(0x6000), None);
    let all = [
        ContentType::SavedGame,
        ContentType::MarketplaceContent,
        ContentType::Publisher,
        ContentType::Xbox360Title,
        ContentType::IptvPauseBuffer,
        ContentType::InstalledGame,
        ContentType::XboxOriginalGame,
        ContentType::GameOnDemand,
        ContentType::AvatarItem,
        ContentType::Profile,
        ContentType::GamerPicture,
        ContentType::Theme,
        ContentType::CacheFile,
        ContentType::StorageDownload,
        ContentType::XboxSavedGame,
        ContentType::XboxDownload,
        ContentType::GameDemo,
        ContentType::Video,
        ContentType::GameTitle,
        ContentType::Installer,
        ContentType::GameTrailer,
        ContentType::ArcadeTitle,
        ContentType::Xna,
        ContentType::LicenseStore,
        ContentType::Movie,
        ContentType::Tv,
        ContentType::MusicVideo,
        ContentType::GameVideo,
        ContentType::PodcastVideo,
        ContentType::ViralVideo,
        ContentType::CommunityGame,
    ];
    for c in all {
        assert_eq!(ContentType::try_from(c.code()), Some(c));
    }
}

#[test]
fn platform_codes_go_both_ways() {
    assert_eq!(Platform::try_from(0), Some(Platform::Unknown));
    assert_eq!(Platform::try_from(2), Some(Platform::Xbox360));
    assert_eq!(Platform::try_from(4), Some(Platform::Pc));
    assert_eq!(Platform::try_from(1), None);
    assert_eq!(Platform::try_from(3), None);
    assert_eq!(Platform::Unknown.code(), 0);
    assert_eq!(Platform::Xbox360.code(), 2);
    assert_eq!(Platform::Pc.code(), 4);
}

#[test]
fn transfer_flags_keep_every_bit() {
    let f = TransferFlags::from_bits_retain(0x97);
    assert_eq!(f.bits(), 0x97);
    assert!(f.contains(DEEP_LINK_SUPPORTED | KINECT_ENABLED | PROFILE_ID_TRANSFER));
    assert!(!f.contains(0x08));
    assert_eq!(TransferFlags::empty().bits(), 0);
}

#[test]
fn a_small_string_ends_at_its_first_zero_unit() {
    let mut field = utf16be("abc");
    field.extend_from_slice(&[0, 0]);
    field.extend_from_slice(&utf16be("behind"));
    field.resize(128, 0);
    assert_eq!(SmallString::read_from(&field).as_str(), "abc");
    assert_eq!(SmallString::new().as_str(), "");
}

#[test]
fn a_small_string_is_big_endian_utf16() {
    let field = [0x00, 0xe9, 0xd8, 0x3d, 0xde, 0x00, 0x01, 0x00, 0x00, 0x00];
    assert_eq!(SmallString::read_from(&field).as_str(), "\u{e9}\u{1f600}\u{100}");
}

#[test]
fn a_small_string_has_64_units_at_most() {
    let field = utf16be(&"x".repeat(100));
    assert_eq!(SmallString::read_from(&field).as_str(), "x".repeat(64));
}

#[test]
fn a_small_string_cut_short_goes_on_in_zeros() {
    assert_eq!(SmallString::read_from(&[]).as_str(), "");
    assert_eq!(SmallString::read_from(&[0x00, 0x41, 0x00]).as_str(), "A");
    assert_eq!(SmallString::read_from(&[0x00, 0x41, 0x01]).as_str(), "A\u{100}");
}

#[test]
fn a_lone_surrogate_is_replaced() {
    assert_eq!(SmallString::read_from(&[0xd8, 0x00, 0x00, 0x41]).as_str(), "\u{fffd}A");
}

#[test]
fn localized_strings_are_18_fields_and_6_more() {
    let mut fields = Vec::new();
    for i in 0..24u8 {
        let mut f = utf16be(&format!("text {}", i));
        f.resize(128, 0);
        fields.extend_from_slice(&f);
    }
    let mut texts = LocalizedString::read_from(&fields);
    assert_eq!(texts.0.len(), 18);
    assert_eq!(texts.0[0].as_str(), "text 0");
    assert_eq!(texts.0[17].as_str(), "text 17");
    texts.read_additional_from(&fields[18 * 128..]);
    assert_eq!(texts.0.len(), 24);
    assert_eq!(texts.0[18].as_str(), "text 18");
    assert_eq!(texts.0[23].as_str(), "text 23");
    texts.read_additional_from(&[]);
    assert_eq!(texts.0.len(), 30);
    assert_eq!(texts.0[29].as_str(), "");
    assert_eq!(LocalizedString::new().0.len(), 0);
    let short = LocalizedString::read_from(&fields[..200]);
    assert_eq!(short.0.len(), 18);
    assert_eq!(short.0[1].as_str(), "text 1");
    assert_eq!(short.0[2].as_str(), "");
}

#[test]
fn a_new_package_is_empty() {
    let p = Package::new(PackageKind::Live, ContentType::GameOnDemand, FileSystem::Stfs);
    assert_eq!(p.kind, PackageKind::Live);
    assert_eq!(p.content_type, ContentType::GameOnDemand);
    assert_eq!(p.file_system.magic(), 0);
    assert_eq!(p.platform, Platform::Unknown);
    assert_eq!((p.metadata_version, p.content_size, p.media_id, p.title_id), (0, 0, 0, 0));
    assert_eq!(p.console_id, [0; 5]);
    assert_eq!(p.profile_id, [0; 8]);
    assert_eq!(p.device_id, [0; 20]);
    assert_eq!(p.display_name.0.len(), 0);
    assert_eq!(p.title_name.as_str(), "");
    assert_eq!(p.transfer_flags.bits(), 0);
    assert!(p.thumbnail.is_empty() && p.title_thumbnail.is_empty());
}

#[test]
fn every_field_of_a_header_is_read() {
    let h = header(0, 1);
    let p = Package::read_from_range(&h, 0, h.len() as u64).unwrap();
    assert_eq!(p.kind, PackageKind::Live);
    assert_eq!(p.content_type, ContentType::GameOnDemand);
    assert_eq!(p.metadata_version, 0);
    assert_eq!(p.content_size, 0x0102030405060708);
    assert_eq!(p.media_id, 0x11223344);
    assert_eq!(p.version, 0x55);
    assert_eq!(p.base_version, 0x66);
    assert_eq!(p.title_id, 0x4d5307e6);
    assert_eq!(p.platform, Platform::Xbox360);
    assert_eq!((p.executable_type, p.disc_number, p.disc_count), (7, 1, 3));
    assert_eq!(p.save_game_id, 0x99aabbcc);
    assert_eq!(p.console_id, [1, 2, 3, 4, 5]);
    assert_eq!(p.profile_id, [11, 12, 13, 14, 15, 16, 17, 18]);
    assert_eq!(p.data_file_count, 4);
    assert_eq!(p.data_size, 0x1000);
    assert_eq!(p.file_system.magic(), 1);
    match p.file_system {
        FileSystem::Svod {
            block_cache_element_count,
            worker_thread_processor,
            worker_thread_priority,
            digest,
            device_features,
            data_block_count,
            data_block_offset,
        } => {
            assert_eq!(
                (block_cache_element_count, worker_thread_processor, worker_thread_priority),
                (1, 2, 3)
            );
            assert_eq!(digest, [0xd1; 20]);
            assert_eq!(device_features, 9);
            assert_eq!(data_block_count, 0x010203);
            assert_eq!(data_block_offset, 0x0a0b0c);
        }
        FileSystem::Stfs => panic!("data in parts expected"),
    }
    assert_eq!(p.series_id, [0; 16]);
    assert_eq!(p.season_id, [0; 16]);
    assert_eq!((p.season_number, p.episode_number), (0, 0));
    assert_eq!(p.device_id, [0xdd; 20]);
    assert_eq!(p.display_name.0.len(), 18);
    assert_eq!(p.display_name.0[0].as_str(), "Name");
    assert_eq!(p.display_name.0[1].as_str(), "Nom");
    assert_eq!(p.display_name.0[2].as_str(), "");
    assert_eq!(p.display_description.0.len(), 18);
    assert_eq!(p.display_description.0[0].as_str(), "Description");
    assert_eq!(p.publisher_name.as_str(), "Publisher");
    assert_eq!(p.title_name.as_str(), "Title \u{1f600}");
    assert_eq!(p.transfer_flags.bits(), 0x94);
    assert_eq!(p.thumbnail, vec![1, 2, 3, 4, 5]);
    assert_eq!(p.title_thumbnail, vec![6, 7, 8]);
}

#[test]
fn version_1_of_the_metadata_has_more_fields() {
    let h = header(1, 0);
    let whole: RangeRef<Package> = RangeRef::whole(&h);
    let p = whole.read(&h).unwrap();
    assert_eq!(p.metadata_version, 1);
    assert_eq!(p.file_system.magic(), 0);
    assert_eq!(p.series_id, [0x5e; 16]);
    assert_eq!(p.season_id, [0x5a; 16]);
    assert_eq!(p.season_number, 0x0102);
    assert_eq!(p.episode_number, 0x0304);
    assert_eq!(p.display_name.0.len(), 24);
    assert_eq!(p.display_name.0[18].as_str(), "Extra");
    assert_eq!(p.display_name.0[19].as_str(), "");
    assert_eq!(p.display_description.0.len(), 24);
    for i in 18..24 {
        assert_eq!(p.display_description.0[i].as_str(), "");
    }
}

#[test]
fn the_kind_of_a_package_is_read_from_its_first_bytes() {
    let mut h = header(0, 0);
    put(&mut h, 0, b"CON ");
    assert_eq!(Package::read_from_range(&h, 0, 0).unwrap().kind, PackageKind::Con);
    put(&mut h, 0, b"PIRS");
    assert_eq!(Package::read_from_range(&h, 0, 0).unwrap().kind, PackageKind::Pirs);
    put(&mut h, 0, b"XEX2");
    assert_eq!(Package::read_from_range(&h, 0, 0).err(), Some(Error::InvalidData));
}

#[test]
fn values_outside_their_sets_are_refused() {
    let mut h = header(0, 0);
    put(&mut h, 0x344, &0x7001u32.to_be_bytes());
    assert_eq!(Package::read_from_range(&h, 0, 0).err(), Some(Error::InvalidData));
    let mut h = header(0, 0);
    h[0x364] = 3;
    assert_eq!(Package::read_from_range(&h, 0, 0).err(), Some(Error::InvalidData));
    let h = header(0, 2);
    assert_eq!(Package::read_from_range(&h, 0, 0).err(), Some(Error::InvalidData));
    let mut h = header(0, 1);
    h[0x244] = 0x25;
    assert_eq!(Package::read_from_range(&h, 0, 0).err(), Some(Error::InvalidData));
    h[0x3ac] = 0;
    assert!(Package::read_from_range(&h, 0, 0).is_ok());
}

#[test]
fn a_cut_header_is_an_error() {
    let h = header(1, 1);
    for cut in [0, 3, 0x347, 0x364, 0x378, 0x3ac, 0x3d4, 0x410, 0x1711, 0x1719] {
        assert_eq!(
            Package::read_from_range(&h[..cut], 0, 0).err(),
            Some(Error::UnexpectedEof),
            "cut at {:#x}",
            cut
        );
    }
    let p = Package::read_from_range(&h[..0x171a], 0, 0).unwrap();
    assert!(p.thumbnail.is_empty() && p.title_thumbnail.is_empty());
    assert_eq!(p.display_name.0.len(), 24);
    assert_eq!(p.display_name.0[18].as_str(), "");
    let p = Package::read_from_range(&h[..0x171a + 6], 0, 0).unwrap();
    assert_eq!(p.thumbnail, vec![1, 2, 3, 4, 5]);
    assert_eq!(p.title_thumbnail, vec![6]);
    assert_eq!(Package::read_from_range(&h, u64::MAX, 0).err(), Some(Error::UnexpectedEof));
}

#[test]
fn a_header_at_an_offset_has_its_icons_at_the_start_of_the_input() {
    let mut input = vec![0u8; 0x100];
    input.extend_from_slice(&header(0, 0));
    put(&mut input, 0x1712, &2u32.to_be_bytes());
    put(&mut input, 0x1716, &1u32.to_be_bytes());
    put(&mut input, 0x171a, &[0xa1, 0xa2, 0xa3]);
    let p = Package::read_from_range(&input, 0x100, 0).unwrap();
    assert_eq!(p.title_id, 0x4d5307e6);
    assert_eq!(p.title_name.as_str(), "Title \u{1f600}");
    assert_eq!(p.thumbnail, vec![0xa1, 0xa2]);
    assert_eq!(p.title_thumbnail, vec![0xa3]);
}

#[test]
fn a_header_that_was_built_reads_back() {
    let info = TitleExecutionInfo {
        media_id: 0xa1b2c3d4,
        version: 0,
        base_version: 0,
        title_id: 0x4d5307e6,
        platform: 2,
        executable_type: 5,
        disc_number: 1,
        disc_count: 2,
    };
    let mut template = vec![0u8; 0xb000];
    put(&mut template, 0, b"LIVE");
    let built = ConHeaderBuilder::from_template(&template)
        .unwrap()
        .with_execution_info(&info)
        .with_content_type(iso2god::god::ContentType::GamesOnDemand)
        .with_game_title("A Game")
        .with_game_icon(Some(&[9, 8, 7]))
        .finalize();
    let p = Package::read_from_range(&built, 0, built.len() as u64).unwrap();
    assert_eq!(p.kind, PackageKind::Live);
    assert_eq!(p.content_type, ContentType::GameOnDemand);
    assert_eq!(p.media_id, 0xa1b2c3d4);
    assert_eq!(p.title_id, 0x4d5307e6);
    assert_eq!(p.platform, Platform::Xbox360);
    assert_eq!((p.executable_type, p.disc_number, p.disc_count), (5, 1, 2));
    assert_eq!(p.display_name.0[0].as_str(), "A Game");
    assert_eq!(p.title_name.as_str(), "A Game");
    assert_eq!(p.thumbnail, vec![9, 8, 7]);
}

#[test]
fn descriptors_of_the_data() {
    assert_eq!(FileSystem::read_stfs(&[], 0, 0).unwrap().magic(), 0);
    assert_eq!(FileSystem::read_svod(&[], 0, 0).err(), Some(Error::UnexpectedEof));
    assert_eq!(FileSystem::read_svod(&[0x23], 0, 0).err(), Some(Error::InvalidData));
    assert_eq!(FileSystem::read_svod(&[0x24; 30], 0, 0).err(), Some(Error::UnexpectedEof));
    assert_eq!(FileSystem::read_svod(&[0x24; 31], 0, 0).unwrap().magic(), 1);
    assert_eq!(FileSystem::read_svod(&[0x24; 31], u64::MAX, 0).err(), Some(Error::UnexpectedEof));
}

#[test]
fn bytes_up_to_a_count() {
    let data = [1u8, 2, 3, 4, 5];
    assert_eq!(read_up_to(&data, 1, 2), vec![2, 3]);
    assert_eq!(read_up_to(&data, 3, 10), vec![4, 5]);
    assert_eq!(read_up_to(&data, 5, 10), Vec::<u8>::new());
    assert_eq!(read_up_to(&data, 9, 10), Vec::<u8>::new());
    assert_eq!(read_up_to(&data, 0, 0), Vec::<u8>::new());
    assert_eq!(read_up_to(&data, 0, u32::MAX), data.to_vec());
    assert_eq!(array_of::<3>(&data[1..4]), [2, 3, 4]);
}
