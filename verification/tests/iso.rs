use iso2god::error::Error;
use iso2god::iso::directory_table::{fold_case, names_match, MAX_DIRECTORY_DEPTH};
use iso2god::iso::{
    max_used_in, DirectoryEntry, DirectoryTable, IsoReader, IsoType, VolumeDescriptor,
    WindowsPath, SECTOR_SIZE,
};
use iso2god::iso_fs::DirEntry;

fn put(image: &mut Vec<u8>, at: usize, bytes: &[u8]) {
    if image.len() < at + bytes.len() {
        image.resize(at + bytes.len(), 0);
    }
    image[at..at + bytes.len()].copy_from_slice(bytes);
}

fn entry(sector: u32, size: u32, attrs: u8, name: &[u8]) -> Vec<u8> {
    let mut e = vec![1, 0, 2, 0];
    e.extend_from_slice(&sector.to_le_bytes());
    e.extend_from_slice(&size.to_le_bytes());
    e.push(attrs);
    e.push(name.len() as u8);
    e.extend_from_slice(name);
    while e.len() % 4 != 0 {
        e.push(0xff);
    }
    e
}

fn dir(entries: &[Vec<u8>]) -> Vec<u8> {
    let mut d = Vec::new();
    for e in entries {
        d.extend_from_slice(e);
    }
    d.extend_from_slice(&[0xff; 4]);
    d
}

fn volume(offset: usize, root_sector: u32, root_size: u32) -> Vec<u8> {
    let mut image = Vec::new();
    put(&mut image, offset + 0x10000, b"MICROSOFT*XBOX*MEDIA");
    put(&mut image, offset + 0x10014, &root_sector.to_le_bytes());
    put(&mut image, offset + 0x10018, &root_size.to_le_bytes());
    put(&mut image, offset + 0x1001c, &[1, 2, 3, 4, 5, 6, 7, 8]);
    image
}

/// root: a.txt, Sub (dir: inner.bin, Deep (dir: leaf)), z.bin
fn tree_image() -> Vec<u8> {
    let mut image = volume(0, 0x21, 2048);
    put(
        &mut image,
        0x21 * 2048,
        &dir(&[
            entry(0x40, 100, 0x20, b"a.txt"),
            entry(0x22, 2048, 0x10, b"Sub"),
            entry(0x50, 3000, 0x20, b"z.bin"),
        ]),
    );
    put(
        &mut image,
        0x22 * 2048,
        &dir(&[entry(0x41, 10, 0x20, b"inner.bin"), entry(0x23, 2048, 0x10, b"Deep")]),
    );
    put(&mut image, 0x23 * 2048, &dir(&[entry(0x60, 5, 0x20, b"leaf")]));
    put(&mut image, 0x40 * 2048, b"data of a");
    put(&mut image, 0x41 * 2048, b"data of inner");
    put(&mut image, 0x60 * 2048, b"leaf!");
    image
}

#[test]
fn root_offsets() {
    assert_eq!(SECTOR_SIZE, 2048);
    assert_eq!(IsoType::Xgd3.root_offset(), 0x2080000);
    assert_eq!(IsoType::Xgd2.root_offset(), 0xfd90000);
    assert_eq!(IsoType::Xgd1.root_offset(), 0x18300000);
    assert_eq!(IsoType::Xsf.root_offset(), 0);
}

#[test]
fn layout_of_a_flat_image() {
    let image = volume(0, 1, 1);
    assert_eq!(IsoType::read(&image), Some(IsoType::Xsf));
    assert!(IsoType::check(&image, IsoType::Xsf));
    assert!(!IsoType::check(&image, IsoType::Xgd3));
}

#[test]
fn layout_of_an_image_of_the_third_kind() {
    let image = volume(0x2080000, 1, 1);
    assert_eq!(IsoType::read(&image), Some(IsoType::Xgd3));
    assert!(!IsoType::check(&image, IsoType::Xsf));
    assert!(!IsoType::check(&image, IsoType::Xgd2));
}

#[test]
fn the_flat_layout_is_tried_first() {
    let mut image = volume(0x2080000, 1, 1);
    put(&mut image, 0x10000, b"MICROSOFT*XBOX*MEDIA");
    assert_eq!(IsoType::read(&image), Some(IsoType::Xsf));
}

#[test]
fn a_wrong_signature_is_passed_over() {
    let mut image = volume(0x2080000, 1, 1);
    put(&mut image, 0x10000, b"MICROSOFT*XBOX*MEDIa");
    assert_eq!(IsoType::read(&image), Some(IsoType::Xgd3));
}

#[test]
fn an_image_without_signature_has_no_layout() {
    assert_eq!(IsoType::read(&vec![0u8; 0x20000]), None);
    assert_eq!(IsoType::read(&[]), None);
    let mut cut = volume(0, 1, 1);
    cut.truncate(0x10000 + 19);
    assert_eq!(IsoType::read(&cut), None);
    assert_eq!(VolumeDescriptor::read(&cut).err(), Some(Error::InvalidIsoFormat));
}

#[test]
fn volume_descriptor_fields() {
    let mut image = volume(0, 0x01020304, 0x0a0b0c0d);
    image.resize(0x10000 + 36 + 5000, 0);
    let v = VolumeDescriptor::read(&image).unwrap();
    assert_eq!(v.root_offset, 0);
    assert_eq!(v.sector_size, 2048);
    assert_eq!(&v.identifier, b"MICROSOFT*XBOX*MEDIA");
    assert_eq!(v.root_directory_sector, 0x01020304);
    assert_eq!(v.root_directory_size, 0x0a0b0c0d);
    assert_eq!(v.image_creation_time, [1, 2, 3, 4, 5, 6, 7, 8]);
    assert_eq!(v.volume_size, image.len() as u64);
    assert_eq!(v.volume_sectors, image.len() as u64 / 2048);
}

#[test]
fn volume_descriptor_of_a_later_layout() {
    let image = volume(0x2080000, 5, 6);
    let v = VolumeDescriptor::read(&image).unwrap();
    assert_eq!(v.root_offset, 0x2080000);
    assert_eq!(v.volume_size, 0x10000 + 36);
    assert_eq!(v.volume_sectors, 32);
    assert_eq!(v.root_directory_sector, 5);
}

#[test]
fn volume_descriptor_without_asking_for_the_signature() {
    let mut image = volume(0, 5, 6);
    image[0x10000] = b'X';
    assert_eq!(VolumeDescriptor::read(&image).err(), Some(Error::InvalidIsoFormat));
    let v = VolumeDescriptor::read_of_type(&image, IsoType::Xsf).unwrap();
    assert_eq!(v.identifier[0], b'X');
    assert_eq!(v.root_directory_size, 6);
    assert_eq!(
        VolumeDescriptor::read_of_type(&image, IsoType::Xgd3).err(),
        Some(Error::UnexpectedEof)
    );
}

#[test]
fn cut_volume_descriptor_is_an_error() {
    let mut image = volume(0, 5, 6);
    image.truncate(0x10000 + 35);
    assert_eq!(VolumeDescriptor::read(&image).err(), Some(Error::UnexpectedEof));
}

#[test]
fn paths_are_split_at_backslashes() {
    assert_eq!(WindowsPath::from("\\default.xex").components, vec!["default.xex"]);
    assert_eq!(WindowsPath::from("a\\b\\c").components, vec!["a", "b", "c"]);
    assert_eq!(WindowsPath::from("\\\\a\\\\\\b\\").components, vec!["a", "b"]);
    assert_eq!(WindowsPath::from("").components, Vec::<String>::new());
    assert_eq!(WindowsPath::from("\\").components, Vec::<String>::new());
    assert_eq!(WindowsPath::from("one").components, vec!["one"]);
    assert_eq!(WindowsPath::from("a/b\\\u{e9}t\u{e9}").components, vec!["a/b", "\u{e9}t\u{e9}"]);
}

#[test]
fn names_are_compared_without_regard_to_ascii_case() {
    assert!(names_match("Default.XEX", "default.xex"));
    assert!(names_match("", ""));
    assert!(!names_match("a", "ab"));
    assert!(!names_match("a", "b"));
    assert!(!names_match("\u{c9}", "\u{e9}"));
    assert!(names_match("@[`{", "@[`{"));
    assert!(!names_match("@", "`"));
    assert!(!names_match("[", "{"));
    assert_eq!(fold_case('A'), 'a' as u32);
    assert_eq!(fold_case('Z'), 'z' as u32);
    assert_eq!(fold_case('a'), 'a' as u32);
    assert_eq!(fold_case('@'), '@' as u32);
    assert_eq!(fold_case('['), '[' as u32);
}

#[test]
fn the_tree_is_read_with_what_is_below() {
    let image = tree_image();
    let iso = IsoReader::read(&image).unwrap();
    let root = &iso.directory_table;
    assert_eq!((root.sector, root.size), (0x21, 2048));
    let names: Vec<&str> = root.entries.iter().map(|e| e.name.as_str()).collect();
    assert_eq!(names, vec!["a.txt", "Sub", "z.bin"]);
    assert!(root.entries[0].subdirectory.is_none());
    assert!(!root.entries[0].is_directory());
    assert!(root.entries[1].is_directory());
    assert_eq!(root.entries[1].name_length, 3);
    assert_eq!((root.entries[2].sector, root.entries[2].size), (0x50, 3000));
    assert_eq!((root.entries[2].subtree_left, root.entries[2].subtree_right), (1, 2));
    let sub = root.entries[1].subdirectory.as_ref().unwrap();
    assert_eq!((sub.sector, sub.size), (0x22, 2048));
    let names: Vec<&str> = sub.entries.iter().map(|e| e.name.as_str()).collect();
    assert_eq!(names, vec!["inner.bin", "Deep"]);
    let deep = sub.entries[1].subdirectory.as_ref().unwrap();
    assert_eq!(deep.entries.len(), 1);
    assert_eq!(deep.entries[0].name, "leaf");
}

#[test]
fn entries_are_found_by_name() {
    let image = tree_image();
    let iso = IsoReader::read(&image).unwrap();
    let root = &iso.directory_table;
    assert_eq!(root.get_entry("z.bin").unwrap().sector, 0x50);
    assert_eq!(root.get_entry("Z.BIN").unwrap().sector, 0x50);
    assert_eq!(root.get_entry("sub").unwrap().sector, 0x22);
    assert!(root.get_entry("inner.bin").is_none());
    assert!(root.get_entry("").is_none());
}

#[test]
fn the_first_of_two_entries_with_one_name_is_found() {
    let mut image = volume(0, 0x21, 2048);
    put(
        &mut image,
        0x21 * 2048,
        &dir(&[entry(1, 1, 0, b"Name"), entry(2, 2, 0, b"name"), entry(3, 3, 0, b"NAME")]),
    );
    let volume = VolumeDescriptor::read(&image).unwrap();
    let table = DirectoryTable::read_root(&image, &volume).unwrap();
    assert_eq!(table.get_entry("NAME").unwrap().sector, 1);
}

#[test]
fn paths_are_resolved_through_directories() {
    let image = tree_image();
    let iso = IsoReader::read(&image).unwrap();
    assert_eq!(&iso.get_entry(&WindowsPath::from("\\a.txt")).unwrap()[..9], b"data of a");
    assert_eq!(
        &iso.get_entry(&WindowsPath::from("\\SUB\\INNER.BIN")).unwrap()[..13],
        b"data of inner"
    );
    assert_eq!(iso.get_entry(&WindowsPath::from("sub\\deep\\leaf")).unwrap(), b"leaf!");
    assert_eq!(iso.find_entry(&WindowsPath::from("sub\\deep\\leaf")).unwrap().size, 5);
    assert_eq!(iso.find_entry(&WindowsPath::from("sub\\deep")).unwrap().sector, 0x23);
    assert!(iso.get_entry(&WindowsPath::from("\\missing")).is_none());
    assert!(iso.get_entry(&WindowsPath::from("\\a.txt\\leaf")).is_none());
    assert!(iso.get_entry(&WindowsPath::from("\\sub\\missing\\leaf")).is_none());
    assert!(iso.get_entry(&WindowsPath::from("leaf")).is_none());
    assert!(iso.get_entry(&WindowsPath::from("")).is_none());
    assert!(iso.find_entry(&WindowsPath::from("\\")).is_none());
}

#[test]
fn an_entry_behind_the_end_of_the_image_reads_as_nothing() {
    let image = tree_image();
    let iso = IsoReader::read(&image).unwrap();
    let z = iso.get_entry(&WindowsPath::from("z.bin")).unwrap();
    assert_eq!(z.len(), image.len() - 0x50 * 2048);
    let mut short = image.clone();
    short.truncate(0x45 * 2048);
    let iso = IsoReader::read(&short).unwrap();
    assert_eq!(iso.get_entry(&WindowsPath::from("z.bin")).unwrap().len(), 0);
}

#[test]
fn the_root_of_the_volume() {
    let image = tree_image();
    let iso = IsoReader::read(&image).unwrap();
    assert_eq!(iso.get_root(), &image[..]);
    let mut later = volume(0x2080000, 0x21, 0);
    later.extend_from_slice(b"tail");
    let iso = IsoReader::read(&later).unwrap();
    assert_eq!(iso.get_root().len(), later.len() - 0x2080000);
    assert_eq!(&iso.get_root()[0x10000..0x10004], b"MICR");
    assert!(iso.directory_table.entries.is_empty());
}

#[test]
fn the_used_size_is_the_end_of_the_furthest_entry() {
    let image = tree_image();
    let iso = IsoReader::read(&image).unwrap();
    assert_eq!(iso.get_max_used_prefix_size(), 0x60 * 2048 + 5);
    let sub = iso.directory_table.entries[1].subdirectory.as_ref().unwrap();
    assert_eq!(max_used_in(sub), 0x60 * 2048 + 5);
    let deep = sub.entries[1].subdirectory.as_ref().unwrap();
    assert_eq!(max_used_in(deep), 0x60 * 2048 + 5);
}

#[test]
fn the_used_size_counts_directories_themselves() {
    let mut image = volume(0, 0x21, 2048);
    put(
        &mut image,
        0x21 * 2048,
        &dir(&[entry(0x30, 10, 0x20, b"file"), entry(0x70, 2048, 0x10, b"dir")]),
    );
    put(&mut image, 0x70 * 2048, &dir(&[entry(0x31, 10, 0x20, b"low")]));
    let iso = IsoReader::read(&image).unwrap();
    assert_eq!(iso.get_max_used_prefix_size(), 0x70 * 2048 + 2048);
}

#[test]
fn the_used_size_of_an_empty_volume_is_zero() {
    let mut image = volume(0, 0x21, 2048);
    put(&mut image, 0x21 * 2048, &[0xff; 4]);
    let iso = IsoReader::read(&image).unwrap();
    assert_eq!(iso.get_max_used_prefix_size(), 0);
}

#[test]
fn a_directory_of_two_sectors_in_the_tree() {
    let mut image = volume(0, 0x21, 4096);
    put(&mut image, 0x21 * 2048, &dir(&[entry(0x30, 1, 0x20, b"first")]));
    put(&mut image, 0x22 * 2048, &dir(&[entry(0x31, 2, 0x20, b"second")]));
    let iso = IsoReader::read(&image).unwrap();
    let names: Vec<&str> = iso.directory_table.entries.iter().map(|e| e.name.as_str()).collect();
    assert_eq!(names, vec!["first", "second"]);
}

#[test]
fn a_directory_that_holds_itself_is_too_deep() {
    assert_eq!(MAX_DIRECTORY_DEPTH, 128);
    let mut image = volume(0, 0x21, 2048);
    put(&mut image, 0x21 * 2048, &dir(&[entry(0x21, 2048, 0x10, b"self")]));
    assert_eq!(IsoReader::read(&image).err(), Some(Error::DirectoryTooDeep));
}

#[test]
fn reading_to_a_given_depth() {
    let image = tree_image();
    let volume = VolumeDescriptor::read(&image).unwrap();
    assert!(DirectoryTable::read(&image, &volume, 0x21, 2048, 2).is_ok());
    assert_eq!(
        DirectoryTable::read(&image, &volume, 0x21, 2048, 1).err(),
        Some(Error::DirectoryTooDeep)
    );
    assert_eq!(
        DirectoryTable::read(&image, &volume, 0x21, 2048, 0).err(),
        Some(Error::DirectoryTooDeep)
    );
    assert!(DirectoryTable::read(&image, &volume, 0x23, 2048, 0).is_ok());
    assert_eq!(DirectoryTable::read(&image, &volume, 0x23, 0, 0).unwrap().entries.len(), 0);
}

#[test]
fn a_cut_directory_is_an_error() {
    let mut image = volume(0, 0x21, 2048);
    put(&mut image, 0x21 * 2048, &entry(0x30, 1, 0x20, b"first"));
    assert_eq!(IsoReader::read(&image).err(), Some(Error::UnexpectedEof));
    let mut image = volume(0, 0x21, 2048);
    put(&mut image, 0x21 * 2048, &dir(&[entry(0x7000, 2048, 0x10, b"far")]));
    assert_eq!(IsoReader::read(&image).err(), Some(Error::UnexpectedEof));
}

#[test]
fn names_that_are_not_utf8_are_decoded_lossily() {
    let mut image = volume(0, 0x21, 2048);
    put(&mut image, 0x21 * 2048, &dir(&[entry(0x30, 1, 0x20, &[b'a', 0xff, b'b'])]));
    let iso = IsoReader::read(&image).unwrap();
    assert_eq!(iso.directory_table.entries[0].name, "a\u{fffd}b");
    assert_eq!(iso.directory_table.entries[0].name_length, 3);
}

#[test]
fn an_entry_of_the_tree_from_an_entry_of_the_image() {
    let image = tree_image();
    let volume = VolumeDescriptor::read(&image).unwrap();
    let (file, end) = DirEntry::try_read(&image, 0x21 * 2048).unwrap().unwrap();
    let e = DirectoryEntry::read(&image, &volume, &file, 0).unwrap();
    assert_eq!(e.name, "a.txt");
    assert_eq!((e.sector, e.size, e.name_length), (0x40, 100, 5));
    assert_eq!(e.attributes.bits(), 0x20);
    assert!(e.subdirectory.is_none());
    let (sub, _) = DirEntry::try_read(&image, (end + 3) / 4 * 4).unwrap().unwrap();
    assert_eq!(
        DirectoryEntry::read(&image, &volume, &sub, 0).err(),
        Some(Error::DirectoryTooDeep)
    );
    assert_eq!(
        DirectoryEntry::read(&image, &volume, &sub, 1).err(),
        Some(Error::DirectoryTooDeep)
    );
    let e = DirectoryEntry::read(&image, &volume, &sub, 2).unwrap();
    assert_eq!(e.name, "Sub");
    assert_eq!(e.subdirectory.unwrap().entries.len(), 2);
}
