use iso2god::god::chain::{parts_total_size, BLOCKS_PER_FULL_PART_FILE};
use iso2god::god::part::PART_SIZE;
use iso2god::god::{
    block_count, chain_hash_lists, chain_part_lists, div_ceil, part_count, part_data_len,
    subpart_count, write_part, HashList, BLOCKS_PER_PART, BLOCKS_PER_SUBPART, BLOCK_SIZE,
    SUBPARTS_PER_PART, SUBPART_SIZE,
};
use sha1::{Digest, Sha1};

fn sha(data: &[u8]) -> [u8; 20] {
    Sha1::digest(data).into()
}

fn pattern(len: usize) -> Vec<u8> {
    (0..len).map(|i| (i * 7 + i / 4096) as u8).collect()
}

/// The hash list over the blocks of `data`, as 4096 bytes.
fn list_of(data: &[u8]) -> Vec<u8> {
    let mut list = Vec::new();
    for block in data.chunks(4096) {
        list.extend_from_slice(&sha(block));
    }
    list.resize(4096, 0);
    list
}

#[test]
fn constants_have_their_values() {
    assert_eq!(BLOCKS_PER_PART, 41412);
    assert_eq!(BLOCKS_PER_SUBPART, 204);
    assert_eq!(BLOCK_SIZE, 4096);
    assert_eq!(SUBPARTS_PER_PART, 203);
    assert_eq!(SUBPART_SIZE, 204 * 4096);
    assert_eq!(PART_SIZE, 41412 * 4096);
    assert_eq!(BLOCKS_PER_FULL_PART_FILE, 41616);
}

#[test]
fn empty_source_gives_a_master_list_alone() {
    let mut out = Vec::new();
    write_part(&[], 0, &mut out);
    assert_eq!(out, vec![0u8; 4096]);
}

#[test]
fn one_short_block() {
    let data = b"hello".to_vec();
    let mut out = Vec::new();
    write_part(&data, 0, &mut out);
    let sub_list = list_of(&data);
    let mut master = sha(&sub_list).to_vec();
    master.resize(4096, 0);
    let mut expected = master;
    expected.extend_from_slice(&sub_list);
    expected.extend_from_slice(&data);
    assert_eq!(out.len(), 4096 + 4096 + 5);
    assert_eq!(out, expected);
}

#[test]
fn blocks_are_hashed_one_by_one() {
    let data = pattern(3 * 4096 + 100);
    let mut out = Vec::new();
    write_part(&data, 0, &mut out);
    assert_eq!(out.len(), 2 * 4096 + data.len());
    assert_eq!(&out[4096..4116], &sha(&data[..4096]));
    assert_eq!(&out[4116..4136], &sha(&data[4096..8192]));
    assert_eq!(&out[4136..4156], &sha(&data[8192..12288]));
    assert_eq!(&out[4156..4176], &sha(&data[12288..]));
    assert_eq!(&out[4176..8192], &vec![0u8; 4016][..]);
    assert_eq!(&out[8192..], &data[..]);
    assert_eq!(&out[..20], &sha(&out[4096..8192]));
    assert_eq!(&out[20..4096], &vec![0u8; 4076][..]);
}

#[test]
fn write_part_appends_to_what_is_there() {
    let data = pattern(100);
    let mut out = vec![0xabu8; 10];
    write_part(&data, 0, &mut out);
    let mut alone = Vec::new();
    write_part(&data, 0, &mut alone);
    assert_eq!(&out[..10], &[0xab; 10]);
    assert_eq!(&out[10..], &alone[..]);
}

#[test]
fn one_full_subpart_and_one_byte_gives_two_subparts() {
    let data = pattern(SUBPART_SIZE as usize + 1);
    let mut out = Vec::new();
    write_part(&data, 0, &mut out);
    let s = SUBPART_SIZE as usize;
    assert_eq!(out.len(), 3 * 4096 + s + 1);
    let sub0 = list_of(&data[..s]);
    let sub1 = list_of(&data[s..]);
    assert_eq!(&sub0[4060..4080], &sha(&data[s - 4096..s]));
    assert_eq!(&sub0[4080..], &[0u8; 16]);
    assert_eq!(&sub1[..20], &sha(&data[s..]));
    assert_eq!(&sub1[20..], &vec![0u8; 4076][..]);
    assert_eq!(&out[4096..8192], &sub0[..]);
    assert_eq!(&out[8192..8192 + s], &data[..s]);
    assert_eq!(&out[8192 + s..8192 + s + 4096], &sub1[..]);
    assert_eq!(&out[8192 + s + 4096..], &data[s..]);
    let mut master = Vec::new();
    master.extend_from_slice(&sha(&sub0));
    master.extend_from_slice(&sha(&sub1));
    master.resize(4096, 0);
    assert_eq!(&out[..4096], &master[..]);
    assert_eq!(*out.last().unwrap(), data[s]);
}

#[test]
fn a_source_that_fills_a_part_gives_203_full_subparts() {
    let data = vec![0x5au8; PART_SIZE as usize];
    let mut out = Vec::new();
    write_part(&data, 0, &mut out);
    let s = SUBPART_SIZE as usize;
    assert_eq!(out.len(), 4096 * 204 + PART_SIZE as usize);
    assert_eq!(out.len() as u64, BLOCKS_PER_FULL_PART_FILE * BLOCK_SIZE);
    let sub = list_of(&data[..s]);
    assert_eq!(&sub[4060..4080], &sha(&[0x5au8; 4096]));
    let sub_digest = sha(&sub);
    for i in 0..203 {
        let at = 4096 + i * (4096 + s);
        assert_eq!(&out[at..at + 4096], &sub[..]);
        assert_eq!(&out[i * 20..i * 20 + 20], &sub_digest);
    }
    assert_eq!(&out[4060..4096], &[0u8; 36]);
    assert!(out[out.len() - s..].iter().all(|b| *b == 0x5a));
}

#[test]
fn a_part_takes_its_own_piece_of_the_volume() {
    let mut data = vec![1u8; PART_SIZE as usize];
    data.extend_from_slice(&[2u8; 5000]);
    let mut second = Vec::new();
    write_part(&data, 1, &mut second);
    let mut alone = Vec::new();
    write_part(&[2u8; 5000], 0, &mut alone);
    assert_eq!(second, alone);
    assert_eq!(second.len(), 2 * 4096 + 5000);
}

#[test]
fn a_part_behind_the_end_is_empty() {
    let data = pattern(5000);
    let mut out = Vec::new();
    write_part(&data, 1, &mut out);
    assert_eq!(out, vec![0u8; 4096]);
    let mut far = Vec::new();
    write_part(&data, u64::MAX, &mut far);
    assert_eq!(far, vec![0u8; 4096]);
}

#[test]
fn the_master_list_reads_back_with_one_entry_for_each_subpart() {
    let data = pattern(SUBPART_SIZE as usize + 1);
    let mut out = Vec::new();
    write_part(&data, 0, &mut out);
    let master = HashList::read(&out).unwrap();
    assert_eq!(master.len(), 40);
}

#[test]
fn ceiling_division() {
    assert_eq!(div_ceil(0, 4096), 0);
    assert_eq!(div_ceil(1, 4096), 1);
    assert_eq!(div_ceil(4096, 4096), 1);
    assert_eq!(div_ceil(4097, 4096), 2);
    assert_eq!(div_ceil(u64::MAX, 1), u64::MAX);
    assert_eq!(div_ceil(u64::MAX, 2), 1 << 63);
    assert_eq!(div_ceil(u64::MAX, u64::MAX), 1);
}

#[test]
fn block_and_part_counts() {
    assert_eq!(block_count(0), 0);
    assert_eq!(block_count(4095), 1);
    assert_eq!(block_count(8192), 2);
    assert_eq!(block_count(8193), 3);
    assert_eq!(part_count(0), 0);
    assert_eq!(part_count(1), 1);
    assert_eq!(part_count(41412), 1);
    assert_eq!(part_count(41413), 2);
    assert_eq!(part_count(3 * 41412), 3);
    assert_eq!(part_count(3 * 41412 + 1), 4);
}

#[test]
fn total_size_of_the_parts() {
    assert_eq!(parts_total_size(0, 100), None);
    assert_eq!(parts_total_size(1, 100), Some(100));
    assert_eq!(parts_total_size(3, 8192), Some(8192 + 2 * 4096 * 0xa290));
    assert_eq!(parts_total_size(u64::MAX, 0), None);
    assert_eq!(parts_total_size(2, u64::MAX), None);
}

#[test]
fn subparts_of_a_part() {
    assert_eq!(subpart_count(0), 0);
    assert_eq!(subpart_count(1), 1);
    assert_eq!(subpart_count(SUBPART_SIZE), 1);
    assert_eq!(subpart_count(SUBPART_SIZE + 1), 2);
    assert_eq!(subpart_count(PART_SIZE), 203);
    assert_eq!(subpart_count(PART_SIZE - 1), 203);
    assert_eq!(subpart_count(PART_SIZE - SUBPART_SIZE), 202);
}

#[test]
fn the_share_of_a_part_in_a_volume() {
    assert_eq!(part_data_len(0, 0), 0);
    assert_eq!(part_data_len(5000, 0), 5000);
    assert_eq!(part_data_len(5000, 1), 0);
    assert_eq!(part_data_len(PART_SIZE, 0), PART_SIZE);
    assert_eq!(part_data_len(PART_SIZE, 1), 0);
    assert_eq!(part_data_len(PART_SIZE + 1, 0), PART_SIZE);
    assert_eq!(part_data_len(PART_SIZE + 1, 1), 1);
    assert_eq!(part_data_len(3 * PART_SIZE + 77, 2), PART_SIZE);
    assert_eq!(part_data_len(3 * PART_SIZE + 77, 3), 77);
    assert_eq!(part_data_len(3 * PART_SIZE + 77, 4), 0);
    assert_eq!(part_data_len(u64::MAX, u64::MAX), 0);
    assert_eq!(part_data_len(u64::MAX, 0), PART_SIZE);
    assert_eq!(part_data_len(u64::MAX, u64::MAX / PART_SIZE), u64::MAX % PART_SIZE);
}

#[test]
fn chaining_one_list_changes_nothing() {
    let mut list = HashList::new();
    list.add_hash(&[3u8; 20]);
    let bytes = *list.bytes();
    let mut lists = vec![list];
    chain_hash_lists(&mut lists, &[1]);
    assert_eq!(lists.len(), 1);
    assert_eq!(lists[0].bytes(), &bytes);
    assert_eq!(lists[0].len(), 20);
    let mut none: Vec<HashList> = Vec::new();
    chain_hash_lists(&mut none, &[]);
    assert!(none.is_empty());
}

#[test]
fn chaining_goes_from_the_last_part_back_to_the_first() {
    let mut a = HashList::new();
    a.add_hash(&[1u8; 20]);
    a.add_hash(&[2u8; 20]);
    let mut b = HashList::new();
    b.add_hash(&[3u8; 20]);
    let mut c = HashList::new();
    c.add_hash(&[4u8; 20]);
    let c_bytes = *c.bytes();

    let mut lists = vec![a, b, c];
    chain_hash_lists(&mut lists, &[2, 1, 1]);

    assert_eq!(lists[2].bytes(), &c_bytes);
    assert_eq!(lists[2].len(), 20);

    let mut b_expected = [0u8; 4096];
    b_expected[..20].copy_from_slice(&[3u8; 20]);
    b_expected[20..40].copy_from_slice(&sha(&c_bytes));
    assert_eq!(lists[1].bytes(), &b_expected);
    assert_eq!(lists[1].len(), 40);

    let mut a_expected = [0u8; 4096];
    a_expected[..20].copy_from_slice(&[1u8; 20]);
    a_expected[20..40].copy_from_slice(&[2u8; 20]);
    a_expected[40..60].copy_from_slice(&sha(&b_expected));
    assert_eq!(lists[0].bytes(), &a_expected);
    assert_eq!(lists[0].len(), 60);
}

#[test]
fn the_digest_goes_behind_the_entries_of_the_subparts_whatever_stands_there() {
    let mut a = HashList::new();
    a.add_hash(&[1u8; 20]);
    a.add_hash(&[9u8; 20]);
    a.add_hash(&[9u8; 20]);
    let b = HashList::new();
    let mut lists = vec![a, b];
    chain_hash_lists(&mut lists, &[1, 0]);
    assert_eq!(&lists[0].bytes()[..20], &[1u8; 20]);
    assert_eq!(&lists[0].bytes()[20..40], &sha(&[0u8; 4096]));
    assert_eq!(&lists[0].bytes()[40..60], &[9u8; 20]);
    assert_eq!(lists[0].len(), 60);

    let empty = HashList::new();
    let mut lists = vec![empty, HashList::new()];
    chain_hash_lists(&mut lists, &[3, 0]);
    assert_eq!(&lists[0].bytes()[..60], &[0u8; 60]);
    assert_eq!(&lists[0].bytes()[60..80], &sha(&[0u8; 4096]));
    assert_eq!(&lists[0].bytes()[80..], &[0u8; 4016][..]);
    assert_eq!(lists[0].len(), 80);
}

/// The lists as they are read back from what was written of them.
fn read_back(lists: &[HashList]) -> Vec<HashList> {
    lists
        .iter()
        .map(|list| {
            let mut file = Vec::new();
            list.write(&mut file);
            HashList::read(&file).unwrap()
        })
        .collect()
}

#[test]
fn a_second_chain_pass_leaves_every_byte_as_it_was() {
    let mut a = HashList::new();
    a.add_hash(&[1u8; 20]);
    a.add_hash(&[2u8; 20]);
    let mut b = HashList::new();
    b.add_hash(&[3u8; 20]);
    let mut c = HashList::new();
    c.add_hash(&[4u8; 20]);
    let entries = [2, 1, 1];

    let mut lists = vec![a, b, c];
    chain_hash_lists(&mut lists, &entries);
    let once: Vec<[u8; 4096]> = lists.iter().map(|l| *l.bytes()).collect();
    let lens: Vec<usize> = lists.iter().map(|l| l.len()).collect();

    chain_hash_lists(&mut lists, &entries);
    let twice: Vec<[u8; 4096]> = lists.iter().map(|l| *l.bytes()).collect();
    assert_eq!(twice, once);
    assert_eq!(lists.iter().map(|l| l.len()).collect::<Vec<_>>(), lens);

    let mut again = read_back(&lists);
    assert_eq!(again[0].len(), 60);
    chain_hash_lists(&mut again, &entries);
    let thrice: Vec<[u8; 4096]> = again.iter().map(|l| *l.bytes()).collect();
    assert_eq!(thrice, once);
}

#[test]
fn a_full_list_has_room_for_the_digest_and_takes_a_second_pass() {
    let mut full = HashList::new();
    for i in 0..203 {
        full.add_hash(&[(i % 250) as u8 + 1; 20]);
    }
    let mut last = HashList::new();
    last.add_hash(&[7u8; 20]);
    let last_digest = last.digest();

    let mut lists = vec![full, last];
    chain_hash_lists(&mut lists, &[203, 1]);
    assert_eq!(&lists[0].bytes()[4060..4080], &last_digest);
    assert_eq!(&lists[0].bytes()[4080..], &[0u8; 16]);
    assert_eq!(&lists[0].bytes()[4040..4060], &[203u8; 20]);
    assert_eq!(lists[0].len(), 4080);
    let once = *lists[0].bytes();

    let mut again = read_back(&lists);
    assert_eq!(again[0].len(), 4096);
    chain_hash_lists(&mut again, &[203, 1]);
    assert_eq!(again[0].bytes(), &once);
    assert_eq!(again[1].bytes(), lists[1].bytes());
}

#[test]
fn the_parts_of_a_volume_are_chained_by_their_shares_of_it() {
    let mut volume = vec![0x5au8; PART_SIZE as usize];
    volume.extend_from_slice(&pattern(SUBPART_SIZE as usize + 10));
    let mut files = Vec::new();
    for index in 0..2 {
        let mut file = Vec::new();
        write_part(&volume, index, &mut file);
        files.push(file);
    }
    let masters_of = |files: &Vec<Vec<u8>>| -> Vec<HashList> {
        files.iter().map(|f| HashList::read(f).unwrap()).collect()
    };

    let mut masters = masters_of(&files);
    assert_eq!(masters[0].len(), 4060);
    assert_eq!(masters[1].len(), 40);
    let second = *masters[1].bytes();
    chain_part_lists(&mut masters, volume.len() as u64);
    assert_eq!(&masters[0].bytes()[..4060], &files[0][..4060]);
    assert_eq!(&masters[0].bytes()[4060..4080], &sha(&second));
    assert_eq!(&masters[0].bytes()[4080..], &[0u8; 16]);
    assert_eq!(masters[1].bytes(), &second);
    for (file, master) in files.iter_mut().zip(masters.iter()) {
        file[..4096].copy_from_slice(master.bytes());
    }
    let once = files.clone();

    let mut masters = masters_of(&files);
    chain_part_lists(&mut masters, volume.len() as u64);
    for (file, master) in files.iter_mut().zip(masters.iter()) {
        file[..4096].copy_from_slice(master.bytes());
    }
    assert!(files == once);
}
