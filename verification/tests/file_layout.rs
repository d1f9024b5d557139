use iso2god::executable::TitleExecutionInfo;
use iso2god::god::{ContentType, FileLayout};
use iso2god::text::{format_hex8, digit_str};

fn info() -> TitleExecutionInfo {
    TitleExecutionInfo {
        media_id: 0x1a2b3c4d,
        version: 1,
        base_version: 0,
        title_id: 0x4d5307e6,
        platform: 2,
        executable_type: 0,
        disc_number: 1,
        disc_count: 1,
    }
}

#[test]
fn hex_of_eight_digits() {
    assert_eq!(format_hex8(0), "00000000");
    assert_eq!(format_hex8(0x7000), "00007000");
    assert_eq!(format_hex8(0xdeadbeef), "DEADBEEF");
    assert_eq!(format_hex8(u32::MAX), "FFFFFFFF");
    assert_eq!(format_hex8(0x01234567), "01234567");
    assert_eq!(format_hex8(0x89abcdef), "89ABCDEF");
    assert_eq!(format_hex8(0xdeadbeef), format!("{:08X}", 0xdeadbeefu32));
}

#[test]
fn digits() {
    assert_eq!(digit_str(0), "0");
    assert_eq!(digit_str(9), "9");
    assert_eq!(digit_str(10), "A");
    assert_eq!(digit_str(15), "F");
}

#[test]
fn content_type_codes() {
    assert_eq!(ContentType::GamesOnDemand.code(), 0x7000);
    assert_eq!(ContentType::XboxOriginal.code(), 0x5000);
}

#[test]
fn names_of_a_game_on_demand() {
    let info = info();
    let layout = FileLayout::new(&info, ContentType::GamesOnDemand);
    assert_eq!(layout.title_id_string(), "4D5307E6");
    assert_eq!(layout.content_type_string(), "00007000");
    assert_eq!(layout.media_id_string(), "1A2B3C4D");
    assert_eq!(layout.data_dir_path(), vec!["4D5307E6", "00007000", "1A2B3C4D.data"]);
    assert_eq!(layout.con_header_file_path(), vec!["4D5307E6", "00007000", "1A2B3C4D"]);
    assert_eq!(
        layout.part_file_path(0),
        vec!["4D5307E6", "00007000", "1A2B3C4D.data", "Data0000"]
    );
}

#[test]
fn names_of_an_original_title_use_the_title_id() {
    let info = info();
    let layout = FileLayout::new(&info, ContentType::XboxOriginal);
    assert_eq!(layout.media_id_string(), "4D5307E6");
    assert_eq!(layout.content_type_string(), "00005000");
    assert_eq!(layout.data_dir_path(), vec!["4D5307E6", "00005000", "4D5307E6.data"]);
    assert_eq!(layout.con_header_file_path(), vec!["4D5307E6", "00005000", "4D5307E6"]);
}

#[test]
fn part_file_names_have_four_digits_at_least() {
    let info = info();
    let layout = FileLayout::new(&info, ContentType::GamesOnDemand);
    assert_eq!(layout.part_file_path(7)[3], "Data0007");
    assert_eq!(layout.part_file_path(42)[3], "Data0042");
    assert_eq!(layout.part_file_path(123)[3], "Data0123");
    assert_eq!(layout.part_file_path(9999)[3], "Data9999");
    assert_eq!(layout.part_file_path(10000)[3], "Data10000");
    assert_eq!(layout.part_file_path(1234567)[3], "Data1234567");
    assert_eq!(layout.part_file_path(u64::MAX)[3], "Data18446744073709551615");
    assert_eq!(layout.part_file_path(12)[3], format!("Data{:04}", 12));
}
