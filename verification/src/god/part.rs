//! Part files: the source data cut into subparts and blocks, each subpart
//! under a hash list of its blocks, the part under a hash list of those.

use crate::byte_order::overwrite;
use crate::god::hash_list::{HashList, HashListView};
use crate::god::SUBPART_SIZE;
use crate::sha::sha1;
use vstd::prelude::*;
use vstd::slice::slice_subrange;

verus! {

/// Bytes of source data in one part file.
pub const PART_SIZE: u64 = 0xa1c4000;

/// `n` zero bytes.
pub open spec fn zeros(n: int) -> Seq<u8> {
    Seq::new(n as nat, |i: int| 0u8)
}

/// `hashes` followed by zero bytes up to the size of a hash list.
pub open spec fn padded(hashes: Seq<u8>) -> Seq<u8> {
    hashes + zeros(4096 - hashes.len())
}

/// How many pieces of `size` bytes cover `n` bytes, the last one maybe short.
pub open spec fn chunk_count(n: int, size: int) -> int {
    (n + size - 1) / size
}

/// Piece `i` of `data` cut into pieces of `size` bytes; the last is what is
/// left, and pieces past the end are empty.
pub open spec fn chunk(data: Seq<u8>, size: int, i: int) -> Seq<u8> {
    let start = if i * size < data.len() {
        i * size
    } else {
        data.len() as int
    };
    let end = if (i + 1) * size < data.len() {
        (i + 1) * size
    } else {
        data.len() as int
    };
    data.subrange(start, end)
}

/// The data of the part with index `part_index`: piece `part_index` of the
/// volume cut into parts.
pub open spec fn part_source(data_volume: Seq<u8>, part_index: int) -> Seq<u8> {
    chunk(data_volume, PART_SIZE as int, part_index)
}

/// The digests of the first `k` blocks of `subpart`, back to back.
pub open spec fn block_hashes(subpart: Seq<u8>, k: int) -> Seq<u8>
    decreases k,
{
    if k <= 0 {
        Seq::empty()
    } else {
        block_hashes(subpart, k - 1) + sha1(chunk(subpart, 4096, k - 1))@
    }
}

/// The hash list of a subpart: the digest of each of its blocks, padded.
pub open spec fn subpart_hash_list(subpart: Seq<u8>) -> Seq<u8> {
    padded(block_hashes(subpart, chunk_count(subpart.len() as int, 4096)))
}

/// The first `k` subparts of `source` as they stand in the file, each
/// behind its hash list.
pub open spec fn part_body(source: Seq<u8>, k: int) -> Seq<u8>
    decreases k,
{
    if k <= 0 {
        Seq::empty()
    } else {
        let subpart = chunk(source, SUBPART_SIZE as int, k - 1);
        part_body(source, k - 1) + subpart_hash_list(subpart) + subpart
    }
}

/// The digests of the hash lists of the first `k` subparts of `source`.
pub open spec fn master_hashes(source: Seq<u8>, k: int) -> Seq<u8>
    decreases k,
{
    if k <= 0 {
        Seq::empty()
    } else {
        master_hashes(source, k - 1) + sha1(
            subpart_hash_list(chunk(source, SUBPART_SIZE as int, k - 1)),
        )@
    }
}

/// The part file for `source`: the master hash list, then each subpart
/// behind its own hash list. Nothing is padded but the hash lists.
pub open spec fn part_file(source: Seq<u8>) -> Seq<u8> {
    let k = chunk_count(source.len() as int, SUBPART_SIZE as int);
    padded(master_hashes(source, k)) + part_body(source, k)
}

/// The first `k` block digests take twenty bytes each.
pub proof fn lemma_block_hashes_len(subpart: Seq<u8>, k: int)
    requires
        0 <= k,
    ensures
        block_hashes(subpart, k).len() == 20 * k,
    decreases k,
{
    if k > 0 {
        lemma_block_hashes_len(subpart, k - 1);
    }
}

/// The first `k` subpart digests take twenty bytes each.
pub proof fn lemma_master_hashes_len(source: Seq<u8>, k: int)
    requires
        0 <= k,
    ensures
        master_hashes(source, k).len() == 20 * k,
    decreases k,
{
    if k > 0 {
        lemma_master_hashes_len(source, k - 1);
    }
}

/// The hash list of a subpart of at most 204 blocks has 4096 bytes.
pub proof fn lemma_subpart_hash_list_len(subpart: Seq<u8>)
    requires
        subpart.len() <= SUBPART_SIZE,
    ensures
        subpart_hash_list(subpart).len() == 4096,
{
    let k = chunk_count(subpart.len() as int, 4096);
    lemma_block_hashes_len(subpart, k);
}

/// The first `k` subparts take, in the file, their own bytes and one hash
/// list each.
pub proof fn lemma_part_body_len(source: Seq<u8>, k: int)
    requires
        0 <= k,
    ensures
        part_body(source, k).len() == 4096 * k + if k * SUBPART_SIZE < source.len() {
            k * SUBPART_SIZE
        } else {
            source.len() as int
        },
    decreases k,
{
    if k > 0 {
        lemma_part_body_len(source, k - 1);
        lemma_subpart_hash_list_len(chunk(source, SUBPART_SIZE as int, k - 1));
    }
}

/// A part file holds its source, one hash list for each subpart begun, and
/// the master hash list: no byte more.
pub proof fn lemma_part_file_len(source: Seq<u8>)
    requires
        source.len() <= PART_SIZE,
    ensures
        part_file(source).len() == 4096 * (1 + chunk_count(
            source.len() as int,
            SUBPART_SIZE as int,
        )) + source.len(),
{
    let k = chunk_count(source.len() as int, SUBPART_SIZE as int);
    lemma_part_body_len(source, k);
    lemma_master_hashes_len(source, k);
}

/// A source that fills a part exactly gives 203 subparts of 204 whole blocks
/// each, and a file that ends with the last of them.
pub proof fn lemma_full_part(source: Seq<u8>)
    requires
        source.len() == PART_SIZE,
    ensures
        chunk_count(source.len() as int, SUBPART_SIZE as int) == 203,
        forall|i: int|
            0 <= i < 203 ==> (#[trigger] chunk(source, SUBPART_SIZE as int, i)).len()
                == SUBPART_SIZE,
        forall|i: int|
            0 <= i < 203 ==> chunk_count(
                (#[trigger] chunk(source, SUBPART_SIZE as int, i)).len() as int,
                4096,
            ) == 204,
        part_file(source).len() == 4096 * 204 + PART_SIZE,
{
    lemma_part_file_len(source);
}

/// A source of one full subpart and one byte more gives two subparts: the
/// first of 204 whole blocks, the second of one block that holds the one
/// byte. The file ends with that byte.
pub proof fn lemma_one_byte_past_a_subpart(source: Seq<u8>)
    requires
        source.len() == SUBPART_SIZE + 1,
    ensures
        chunk_count(source.len() as int, SUBPART_SIZE as int) == 2,
        chunk(source, SUBPART_SIZE as int, 0).len() == SUBPART_SIZE,
        chunk_count(chunk(source, SUBPART_SIZE as int, 0).len() as int, 4096) == 204,
        chunk(source, SUBPART_SIZE as int, 1) == seq![source[SUBPART_SIZE as int]],
        chunk_count(chunk(source, SUBPART_SIZE as int, 1).len() as int, 4096) == 1,
        part_file(source).len() == 3 * 4096 + SUBPART_SIZE + 1,
        part_file(source).last() == source[SUBPART_SIZE as int],
{
    lemma_part_file_len(source);
    assert(chunk(source, SUBPART_SIZE as int, 1) =~= seq![source[SUBPART_SIZE as int]]);
    let sub0 = chunk(source, SUBPART_SIZE as int, 0);
    let sub1 = chunk(source, SUBPART_SIZE as int, 1);
    assert(part_body(source, 2) == part_body(source, 1) + subpart_hash_list(sub1) + sub1);
}

/// How many bytes piece `i` has, of `n` bytes cut into pieces of `size`
/// bytes.
pub open spec fn chunk_len(n: int, size: int, i: int) -> int {
    let start = if i * size < n {
        i * size
    } else {
        n
    };
    let end = if (i + 1) * size < n {
        (i + 1) * size
    } else {
        n
    };
    if end > start {
        end - start
    } else {
        0
    }
}

/// A piece has the length that the length of the whole gives it.
pub proof fn lemma_chunk_has_chunk_len(data: Seq<u8>, size: int, i: int)
    requires
        size > 0,
        i >= 0,
    ensures
        chunk(data, size, i).len() == chunk_len(data.len() as int, size, i),
        chunk_len(data.len() as int, size, i) <= size,
{
    assert(i * size <= (i + 1) * size && (i + 1) * size - i * size == size) by (nonlinear_arith)
        requires
            size > 0,
            i >= 0,
    ;
}

/// The data of a part, taken as a volume of its own, is its own first part:
/// the part file of a part can be made from the bytes of that part alone.
pub proof fn lemma_part_of_its_own_source(data_volume: Seq<u8>, part_index: int)
    requires
        part_index >= 0,
    ensures
        part_source(part_source(data_volume, part_index), 0) == part_source(
            data_volume,
            part_index,
        ),
        part_source(data_volume, part_index).len() <= PART_SIZE,
{
    let own = part_source(data_volume, part_index);
    lemma_chunk_has_chunk_len(data_volume, PART_SIZE as int, part_index);
    assert(part_source(own, 0) =~= own);
}

/// In the master hash list of a part file the entries of the subparts
/// stand first, 203 at most, and every byte behind them is zero: the entry
/// behind the last subpart is free.
pub proof fn lemma_master_list_padding(source: Seq<u8>)
    requires
        source.len() <= PART_SIZE,
    ensures
        0 <= chunk_count(source.len() as int, SUBPART_SIZE as int) <= 203,
        part_file(source).len() >= 4096,
        forall|j: int|
            20 * chunk_count(source.len() as int, SUBPART_SIZE as int) <= j < 4096
                ==> part_file(source)[j] == 0,
{
    let k = chunk_count(source.len() as int, SUBPART_SIZE as int);
    lemma_master_hashes_len(source, k);
}

/// Where subpart `i` starts in a part file: behind the master hash list
/// and `i` full subparts with their hash lists.
pub open spec fn subpart_offset(i: int) -> int {
    4096 + i * (4096 + SUBPART_SIZE)
}

/// Every subpart but the last that a source begins is full.
pub proof fn lemma_chunk_len(source: Seq<u8>, size: int, i: int)
    requires
        size > 0,
        0 <= i < chunk_count(source.len() as int, size),
    ensures
        i + 1 < chunk_count(source.len() as int, size) ==> chunk(source, size, i).len() == size,
        0 < chunk(source, size, i).len() <= size,
        i * size < source.len(),
{
    assert(i * size < source.len() && (i + 1 < chunk_count(source.len() as int, size) ==> (i
        + 1) * size < source.len())) by (nonlinear_arith)
        requires
            size > 0,
            0 <= i < (source.len() + size - 1) / size,
    ;
    assert((i + 1) * size == i * size + size) by (nonlinear_arith);
}

/// The first `i + 1` subparts stand in the file as they do where more
/// follow them.
proof fn lemma_part_body_prefix(source: Seq<u8>, i: int, k: int)
    requires
        0 <= i < k,
    ensures
        part_body(source, i + 1).len() <= part_body(source, k).len(),
        part_body(source, k).subrange(0, part_body(source, i + 1).len() as int) == part_body(
            source,
            i + 1,
        ),
    decreases k,
{
    if k == i + 1 {
        assert(part_body(source, k).subrange(0, part_body(source, k).len() as int) =~= part_body(
            source,
            k,
        ));
    } else {
        lemma_part_body_prefix(source, i, k - 1);
        let shorter = part_body(source, k - 1);
        let n = part_body(source, i + 1).len() as int;
        assert(part_body(source, k).subrange(0, n) =~= shorter.subrange(0, n));
    }
}

/// The digests of the first `i + 1` subparts stand in the master hash list
/// as they do where more follow them.
proof fn lemma_master_hashes_prefix(source: Seq<u8>, i: int, k: int)
    requires
        0 <= i < k,
    ensures
        master_hashes(source, k).subrange(0, 20 * (i + 1)) == master_hashes(source, i + 1),
    decreases k,
{
    lemma_master_hashes_len(source, k);
    lemma_master_hashes_len(source, i + 1);
    if k == i + 1 {
        assert(master_hashes(source, k).subrange(0, 20 * k) =~= master_hashes(source, k));
    } else {
        lemma_master_hashes_prefix(source, i, k - 1);
        lemma_master_hashes_len(source, k - 1);
        assert(master_hashes(source, k).subrange(0, 20 * (i + 1)) =~= master_hashes(
            source,
            k - 1,
        ).subrange(0, 20 * (i + 1)));
    }
}

/// The layout of a part file. Subpart `i` of the source stands at its
/// offset behind its hash list; entry `i` of the master hash list is the
/// digest of that hash list, padding included; and behind the entries of
/// all subparts the master hash list is zero.
pub proof fn lemma_part_layout(source: Seq<u8>, i: int)
    requires
        source.len() <= PART_SIZE,
        0 <= i < chunk_count(source.len() as int, SUBPART_SIZE as int),
    ensures
        subpart_offset(i) + 4096 + chunk(source, SUBPART_SIZE as int, i).len() <= part_file(
            source,
        ).len(),
        part_file(source).subrange(subpart_offset(i), subpart_offset(i) + 4096)
            == subpart_hash_list(chunk(source, SUBPART_SIZE as int, i)),
        part_file(source).subrange(
            subpart_offset(i) + 4096,
            subpart_offset(i) + 4096 + chunk(source, SUBPART_SIZE as int, i).len(),
        ) == chunk(source, SUBPART_SIZE as int, i),
        part_file(source).subrange(20 * i, 20 * i + 20) == sha1(
            subpart_hash_list(chunk(source, SUBPART_SIZE as int, i)),
        )@,
        forall|j: int|
            20 * chunk_count(source.len() as int, SUBPART_SIZE as int) <= j < 4096
                ==> part_file(source)[j] == 0,
{
    let size = SUBPART_SIZE as int;
    let k = chunk_count(source.len() as int, size);
    let sub = chunk(source, size, i);
    let list = subpart_hash_list(sub);
    let file = part_file(source);
    let master = padded(master_hashes(source, k));
    lemma_chunk_len(source, size, i);
    lemma_subpart_hash_list_len(sub);
    lemma_part_body_len(source, i);
    lemma_part_body_len(source, i + 1);
    lemma_part_body_len(source, k);
    lemma_part_body_prefix(source, i, k);
    lemma_master_hashes_len(source, k);
    lemma_master_hashes_len(source, i);
    lemma_master_hashes_len(source, i + 1);
    lemma_master_hashes_prefix(source, i, k);
    assert(k <= 203);
    assert(master.len() == 4096);
    assert(i * size < source.len());
    let before = part_body(source, i);
    let upto = part_body(source, i + 1);
    assert(upto == before + list + sub);
    assert(before.len() == i * (4096 + size)) by (nonlinear_arith)
        requires
            before.len() == 4096 * i + i * size,
    ;
    let body = part_body(source, k);
    assert(body.subrange(0, upto.len() as int) == upto);
    assert forall|j: int| 0 <= j < upto.len() implies body[j] == upto[j] by {
        assert(body.subrange(0, upto.len() as int)[j] == body[j]);
    }
    assert(file.subrange(subpart_offset(i), subpart_offset(i) + 4096) =~= list) by {
        assert forall|j: int| 0 <= j < 4096 implies file[subpart_offset(i) + j] == list[j] by {
            assert(file[subpart_offset(i) + j] == body[before.len() + j]);
            assert(upto[before.len() + j] == list[j]);
        }
    }
    assert(file.subrange(subpart_offset(i) + 4096, subpart_offset(i) + 4096 + sub.len()) =~= sub)
        by {
        assert forall|j: int| 0 <= j < sub.len() implies file[subpart_offset(i) + 4096 + j]
            == sub[j] by {
            assert(file[subpart_offset(i) + 4096 + j] == body[before.len() + 4096 + j]);
            assert(upto[before.len() + 4096 + j] == sub[j]);
        }
    }
    let digests = master_hashes(source, k);
    assert(master_hashes(source, i + 1) == master_hashes(source, i) + sha1(list)@);
    assert(file.subrange(20 * i, 20 * i + 20) =~= sha1(list)@) by {
        assert forall|j: int| 0 <= j < 20 implies file[20 * i + j] == sha1(list)@[j] by {
            assert(file[20 * i + j] == digests[20 * i + j]);
            assert(digests.subrange(0, 20 * (i + 1))[20 * i + j] == digests[20 * i + j]);
            assert(master_hashes(source, i + 1)[20 * i + j] == sha1(list)@[j]);
        }
    }
    assert forall|j: int| 20 * k <= j < 4096 implies file[j] == 0 by {
        assert(file[j] == master[j]);
    }
}

/// Storing a digest behind `20 * k` bytes of digests keeps the list padded.
proof fn lemma_with_hash_padded(hashes: Seq<u8>, hash: Seq<u8>)
    requires
        hash.len() == 20,
        hashes.len() + 20 <= 4096,
    ensures
        (HashListView { bytes: padded(hashes), len: hashes.len() }).with_hash(hash)
            == (HashListView { bytes: padded(hashes + hash), len: hashes.len() + 20 }),
{
    let a = (HashListView { bytes: padded(hashes), len: hashes.len() }).with_hash(hash);
    assert(a.bytes =~= padded(hashes + hash));
}

/// The hash list of `subpart`, built block by block.
fn hash_subpart(subpart: &[u8]) -> (list: HashList)
    requires
        subpart@.len() <= SUBPART_SIZE,
    ensures
        list@.bytes == subpart_hash_list(subpart@),
        list@.len == 20 * chunk_count(subpart@.len() as int, 4096),
{
    let mut list = HashList::new();
    let len: usize = subpart.len();
    let mut pos: usize = 0;
    let mut k: usize = 0;
    assert(list@.bytes =~= padded(block_hashes(subpart@, 0)));
    while pos < len
        invariant
            len == subpart@.len(),
            len <= SUBPART_SIZE,
            pos <= len,
            k <= 204,
            k == chunk_count(pos as int, 4096),
            pos < len ==> pos == 4096 * k,
            list@.bytes == padded(block_hashes(subpart@, k as int)),
            list@.len == 20 * k,
        decreases len - pos,
    {
        let end: usize = if len - pos > 4096 {
            pos + 4096
        } else {
            len
        };
        let block = slice_subrange(subpart, pos, end);
        assert(block@ == chunk(subpart@, 4096, k as int));
        proof {
            lemma_block_hashes_len(subpart@, k as int);
            lemma_with_hash_padded(block_hashes(subpart@, k as int), sha1(block@)@);
        }
        list.add_block_hash(block);
        pos = end;
        k += 1;
    }
    list
}

/// Appends to `part_file` the part with index `part_index` of `data_volume`.
///
/// The part takes up to 203 subparts of up to 204 blocks from the volume and
/// ends where the volume does: the last block and the last subpart may be
/// short, and a part past the end of the volume is a master hash list alone.
pub fn write_part(data_volume: &[u8], part_index: u64, part_file: &mut Vec<u8>)
    ensures
        final(part_file)@ == old(part_file)@ + self::part_file(
            part_source(data_volume@, part_index as int),
        ),
{
    let total: usize = data_volume.len();
    let start: usize = if part_index > (total as u64) / PART_SIZE {
        total
    } else {
        let s: u64 = part_index * PART_SIZE;
        if s < total as u64 {
            s as usize
        } else {
            total
        }
    };
    let end: usize = if (total - start) as u64 > PART_SIZE {
        start + PART_SIZE as usize
    } else {
        total
    };
    let source = slice_subrange(data_volume, start, end);
    assert(source@ == part_source(data_volume@, part_index as int)) by {
        assert(part_index > (total as u64) / PART_SIZE ==> part_index * PART_SIZE >= total)
            by (nonlinear_arith)
            requires
                PART_SIZE == 0xa1c4000,
        ;
    }
    write_source(source, part_file);
}

/// Appends to `part_file` the part file for `source`.
fn write_source(source: &[u8], part_file: &mut Vec<u8>)
    requires
        source@.len() <= PART_SIZE,
    ensures
        final(part_file)@ == old(part_file)@ + self::part_file(source@),
{
    let mut master = HashList::new();
    let master_position: usize = part_file.len();
    master.write(part_file);

    let len: usize = source.len();
    let mut pos: usize = 0;
    let mut k: usize = 0;
    assert(master@.bytes =~= padded(master_hashes(source@, 0)));
    assert(part_file@ =~= old(part_file)@ + zeros(4096) + part_body(source@, 0));
    while pos < len
        invariant
            len == source@.len(),
            len <= PART_SIZE,
            pos <= len,
            k <= 203,
            k == chunk_count(pos as int, SUBPART_SIZE as int),
            pos < len ==> pos == SUBPART_SIZE * k,
            master@.bytes == padded(master_hashes(source@, k as int)),
            master@.len == 20 * k,
            master_position == old(part_file)@.len(),
            part_file@ == old(part_file)@ + zeros(4096) + part_body(source@, k as int),
        decreases len - pos,
    {
        let end: usize = if len - pos > 0xcc000 {
            pos + 0xcc000
        } else {
            len
        };
        let subpart = slice_subrange(source, pos, end);
        assert(subpart@ == chunk(source@, SUBPART_SIZE as int, k as int));
        let sub_hash_list = hash_subpart(subpart);
        sub_hash_list.write(part_file);
        proof {
            lemma_master_hashes_len(source@, k as int);
            lemma_with_hash_padded(
                master_hashes(source@, k as int),
                sha1(sub_hash_list@.bytes)@,
            );
        }
        master.add_block_hash(sub_hash_list.bytes().as_slice());
        part_file.extend_from_slice(subpart);
        assert(part_file@ =~= old(part_file)@ + zeros(4096) + part_body(source@, k + 1));
        pos = end;
        k += 1;
    }
    let ghost body = part_body(source@, k as int);
    let ghost before = part_file@;
    overwrite(part_file, master_position, master.bytes().as_slice());
    assert(part_file@ =~= old(part_file)@ + self::part_file(source@)) by {
        assert(before.len() == old(part_file)@.len() + 4096 + body.len());
        assert(master@.bytes.len() == 4096) by {
            master.lemma_bytes_len();
        }
    }
}

} // verus!
