//! Sizes in blocks and parts, and the chain of master hash lists that ties
//! the parts of one container together.

use crate::byte_order::splice;
use crate::god::hash_list::{HashList, HashListView};
use crate::god::part::{
    chunk_count, chunk_len, lemma_chunk_has_chunk_len, lemma_master_list_padding, part_file,
    part_source, PART_SIZE,
};
use crate::god::{BLOCKS_PER_PART, BLOCK_SIZE, SUBPART_SIZE};
use crate::sha::sha1;
use vstd::prelude::*;

verus! {

/// Blocks in a full part file, hash lists included.
pub const BLOCKS_PER_FULL_PART_FILE: u64 = 0xa290;

/// How many pieces of `size` cover `n`: the quotient, rounded up.
pub fn div_ceil(n: u64, size: u64) -> (count: u64)
    requires
        size > 0,
    ensures
        count == chunk_count(n as int, size as int),
{
    let q: u64 = n / size;
    let r: u64 = n % size;
    assert(n == q * size + r && chunk_count(n as int, size as int) == if r == 0 {
        q as int
    } else {
        q + 1
    }) by (nonlinear_arith)
        requires
            q == n / size,
            r == n % size,
            size > 0,
    ;
    if r == 0 {
        q
    } else {
        assert(q < u64::MAX) by (nonlinear_arith)
            requires
                n == q * size + r,
                0 < r < size,
                n <= u64::MAX,
                0 <= q,
        ;
        q + 1
    }
}

/// The number of blocks that hold `data_size` bytes.
pub fn block_count(data_size: u64) -> (count: u64)
    ensures
        count == chunk_count(data_size as int, BLOCK_SIZE as int),
{
    div_ceil(data_size, BLOCK_SIZE)
}

/// The number of parts that hold `block_count` blocks. Blocks that fill
/// their parts exactly need no part more.
pub fn part_count(block_count: u64) -> (count: u64)
    ensures
        count == chunk_count(block_count as int, BLOCKS_PER_PART as int),
        block_count % BLOCKS_PER_PART == 0 ==> count == block_count / BLOCKS_PER_PART,
{
    div_ceil(block_count, BLOCKS_PER_PART)
}

/// The size of all part files together, where every part but the last is
/// full and the last has `last_part_size` bytes. `None` where there is no
/// part, or the size does not fit in 64 bits.
pub fn parts_total_size(part_count: u64, last_part_size: u64) -> (size: Option<u64>)
    ensures
        match size {
            Some(s) => part_count > 0 && s == last_part_size + (part_count - 1) * (BLOCK_SIZE
                * BLOCKS_PER_FULL_PART_FILE),
            None => part_count == 0 || last_part_size + (part_count - 1) * (BLOCK_SIZE
                * BLOCKS_PER_FULL_PART_FILE) > u64::MAX,
        },
{
    if part_count == 0 {
        return None;
    }
    let full: u64 = BLOCK_SIZE * BLOCKS_PER_FULL_PART_FILE;
    match (part_count - 1).checked_mul(full) {
        Some(p) => last_part_size.checked_add(p),
        None => None,
    }
}

/// The number of subparts that `data_len` bytes of a part make, which is
/// the number of entries that its master hash list has for them.
pub fn subpart_count(data_len: u64) -> (count: u64)
    ensures
        count == chunk_count(data_len as int, SUBPART_SIZE as int),
        data_len <= PART_SIZE ==> count <= 203,
{
    div_ceil(data_len, SUBPART_SIZE)
}

/// How many bytes of a volume of `volume_len` bytes the part with index
/// `part_index` holds: a full part, what is left of the volume, or nothing.
pub fn part_data_len(volume_len: u64, part_index: u64) -> (len: u64)
    ensures
        len == chunk_len(volume_len as int, PART_SIZE as int, part_index as int),
        len <= PART_SIZE,
{
    if part_index > volume_len / PART_SIZE {
        assert(part_index * PART_SIZE >= volume_len) by (nonlinear_arith)
            requires
                part_index > volume_len / PART_SIZE,
                PART_SIZE == 0xa1c4000,
        ;
        assert((part_index + 1) * PART_SIZE >= part_index * PART_SIZE) by (nonlinear_arith);
        return 0;
    }
    assert(part_index * PART_SIZE <= volume_len) by (nonlinear_arith)
        requires
            part_index <= volume_len / PART_SIZE,
            PART_SIZE == 0xa1c4000,
    ;
    assert((part_index + 1) * PART_SIZE == part_index * PART_SIZE + PART_SIZE)
        by (nonlinear_arith);
    let start: u64 = part_index * PART_SIZE;
    let left: u64 = volume_len - start;
    if left > PART_SIZE {
        PART_SIZE
    } else {
        left
    }
}

/// The number of entries that the master hash list of each of the first
/// `n` parts of a volume of `volume_len` bytes has for its subparts.
pub open spec fn part_entries(volume_len: int, n: nat) -> Seq<usize> {
    Seq::new(
        n,
        |i: int|
            chunk_count(chunk_len(volume_len, PART_SIZE as int, i), SUBPART_SIZE as int) as usize,
    )
}

/// Where the chain pass stores a digest in the master hash list of a part,
/// `write_part` left twenty zero bytes: the entry behind the entries of the
/// subparts of that part, of which there are 203 at most.
pub proof fn lemma_chain_entry_is_free(data_volume: Seq<u8>, part_index: int)
    requires
        part_index >= 0,
    ensures
        ({
            let source = part_source(data_volume, part_index);
            let entries = part_entries(
                data_volume.len() as int,
                (part_index + 1) as nat,
            )[part_index];
            &&& entries == chunk_count(source.len() as int, SUBPART_SIZE as int)
            &&& entries <= 203
            &&& forall|j: int|
                20 * entries <= j < 20 * entries + 20 ==> part_file(source)[j] == 0
        }),
{
    let source = part_source(data_volume, part_index);
    lemma_chunk_has_chunk_len(data_volume, PART_SIZE as int, part_index);
    lemma_master_list_padding(source);
}

/// List `i` after the chain pass, where `entries[i]` subparts have their
/// entries in list `i`: the last list stays as it is, and each other list
/// has the digest of the chained list behind it in the entry behind those
/// of its subparts. Nothing else of a list changes.
pub open spec fn chained(lists: Seq<HashListView>, entries: Seq<usize>, i: int) -> HashListView
    decreases lists.len() - i,
{
    if i + 1 >= lists.len() {
        lists[i]
    } else {
        lists[i].with_entry(entries[i] as int, chained(lists, entries, i + 1).digest()@)
    }
}

/// All lists after the chain pass.
pub open spec fn chain(lists: Seq<HashListView>, entries: Seq<usize>) -> Seq<HashListView> {
    Seq::new(lists.len(), |i: int| chained(lists, entries, i))
}

/// What the lists in a vector are.
pub open spec fn views(lists: Seq<HashList>) -> Seq<HashListView> {
    Seq::new(lists.len(), |i: int| lists[i]@)
}

/// The bytes that the chain pass gives depend on the bytes of the lists
/// alone, not on how many of them are taken to be in use.
pub proof fn lemma_chain_bytes(
    first: Seq<HashListView>,
    second: Seq<HashListView>,
    entries: Seq<usize>,
    i: int,
)
    requires
        first.len() == second.len(),
        forall|j: int| 0 <= j < first.len() ==> first[j].bytes == second[j].bytes,
        0 <= i < first.len(),
    ensures
        chained(first, entries, i).bytes == chained(second, entries, i).bytes,
    decreases first.len() - i,
{
    if i + 1 < first.len() {
        lemma_chain_bytes(first, second, entries, i + 1);
    }
}

/// The chain pass is idempotent: applied to its own result, it gives that
/// result again, every list with the bytes and the bytes in use that it
/// had.
pub proof fn lemma_chain_idempotent(lists: Seq<HashListView>, entries: Seq<usize>)
    ensures
        chain(chain(lists, entries), entries) == chain(lists, entries),
{
    let once = chain(lists, entries);
    assert forall|i: int| 0 <= i < lists.len() implies chained(once, entries, i) == once[i] by {
        lemma_chained_again(lists, entries, i);
    }
    assert(chain(once, entries) =~= once);
}

/// List `i` of the result of the chain pass stays as it is in a second
/// pass.
proof fn lemma_chained_again(lists: Seq<HashListView>, entries: Seq<usize>, i: int)
    requires
        0 <= i < lists.len(),
    ensures
        chained(chain(lists, entries), entries, i) == chain(lists, entries)[i],
    decreases lists.len() - i,
{
    let once = chain(lists, entries);
    if i + 1 < lists.len() {
        lemma_chained_again(lists, entries, i + 1);
        let digest = chained(lists, entries, i + 1).digest()@;
        let first = lists[i].with_entry(entries[i] as int, digest);
        assert(once[i] == first);
        assert(chained(once, entries, i) == first.with_entry(entries[i] as int, digest));
        assert(first.with_entry(entries[i] as int, digest).bytes =~= first.bytes);
    }
}

/// A second chain pass over the parts leaves every master hash list as the
/// first pass left it, bit for bit: lists that hold the bytes that the
/// first pass gave, however many of them they are taken to have in use, as
/// when they are read back from the part files, come out of the pass with
/// those same bytes.
pub proof fn lemma_second_pass_keeps_bytes(
    lists: Seq<HashListView>,
    entries: Seq<usize>,
    read_back: Seq<HashListView>,
)
    requires
        read_back.len() == lists.len(),
        forall|i: int|
            0 <= i < lists.len() ==> read_back[i].bytes == chain(lists, entries)[i].bytes,
    ensures
        forall|i: int|
            0 <= i < lists.len() ==> #[trigger] chain(read_back, entries)[i].bytes
                == read_back[i].bytes,
{
    let once = chain(lists, entries);
    lemma_chain_idempotent(lists, entries);
    assert forall|i: int| 0 <= i < lists.len() implies #[trigger] chain(
        read_back,
        entries,
    )[i].bytes == read_back[i].bytes by {
        lemma_chain_bytes(read_back, once, entries, i);
        assert(chain(once, entries)[i] == once[i]);
    }
}

/// The chain pass leaves the last list as it was.
pub proof fn lemma_chain_keeps_last(lists: Seq<HashListView>, entries: Seq<usize>)
    requires
        lists.len() > 0,
    ensures
        chain(lists, entries).last() == lists.last(),
{
}

/// Runs the chain pass over the master hash lists of the parts of one
/// container, in the order of the parts. `entries[i]` is the number of
/// subparts of part `i`. From the last part back to the first, each list
/// but the last gets the digest of the list of the part behind it, as that
/// list comes out of the pass, in the entry behind those of its subparts.
/// The last list and every other byte stay as they are.
pub fn chain_hash_lists(lists: &mut Vec<HashList>, entries: &[usize])
    requires
        entries@.len() == old(lists)@.len(),
        forall|i: int| 0 <= i < old(lists)@.len() - 1 ==> entries@[i] < 204,
    ensures
        views(final(lists)@) == chain(views(old(lists)@), entries@),
        final(lists)@.len() == old(lists)@.len(),
        forall|i: int|
            0 <= i && i + 1 < old(lists)@.len() ==> (#[trigger] final(lists)@[i])@ == old(
                lists,
            )@[i]@.with_entry(entries@[i] as int, sha1(final(lists)@[i + 1]@.bytes)@),
        forall|i: int|
            0 <= i && i + 1 < old(lists)@.len() ==> (#[trigger] final(lists)@[i])@.bytes == splice(
                old(lists)@[i]@.bytes,
                20 * entries@[i],
                sha1(final(lists)@[i + 1]@.bytes)@,
            ),
        old(lists)@.len() > 0 ==> final(lists)@.last()@ == old(lists)@.last()@,
{
    let n: usize = lists.len();
    if n < 2 {
        assert(views(lists@) =~= chain(views(old(lists)@), entries@));
        return ;
    }
    let mut i: usize = n - 1;
    while i > 0
        invariant
            n == lists@.len(),
            n == old(lists)@.len(),
            n == entries@.len(),
            i < n,
            forall|j: int| 0 <= j < i ==> (#[trigger] lists@[j])@ == old(lists)@[j]@,
            forall|j: int|
                i <= j < n ==> (#[trigger] lists@[j])@ == chained(
                    views(old(lists)@),
                    entries@,
                    j,
                ),
            forall|j: int| 0 <= j < n - 1 ==> entries@[j] < 204,
        decreases i,
    {
        let digest: [u8; 20] = lists[i].digest();
        let ghost before = lists@;
        lists[i - 1].set_hash(entries[i - 1], &digest);
        assert(forall|j: int| 0 <= j < n && j != i - 1 ==> lists@[j] == before[j]);
        i -= 1;
    }
    assert(views(lists@) =~= chain(views(old(lists)@), entries@));
}

/// Runs the chain pass over the master hash lists of the first parts of a
/// volume of `volume_len` bytes, as `write_part` wrote them: the number of
/// subparts of each part is what its share of the volume makes.
pub fn chain_part_lists(lists: &mut Vec<HashList>, volume_len: u64)
    ensures
        views(final(lists)@) == chain(
            views(old(lists)@),
            part_entries(volume_len as int, old(lists)@.len()),
        ),
        final(lists)@.len() == old(lists)@.len(),
        forall|i: int|
            0 <= i && i + 1 < old(lists)@.len() ==> (#[trigger] final(lists)@[i])@ == old(
                lists,
            )@[i]@.with_entry(
                chunk_count(
                    chunk_len(volume_len as int, PART_SIZE as int, i),
                    SUBPART_SIZE as int,
                ),
                sha1(final(lists)@[i + 1]@.bytes)@,
            ),
        old(lists)@.len() > 0 ==> final(lists)@.last()@ == old(lists)@.last()@,
{
    let n: usize = lists.len();
    let mut entries: Vec<usize> = Vec::new();
    let mut i: usize = 0;
    while i < n
        invariant
            i <= n,
            n == lists@.len(),
            lists@ == old(lists)@,
            entries@.len() == i,
            forall|j: int|
                0 <= j < i ==> entries@[j] == part_entries(volume_len as int, n as nat)[j]
                    && entries@[j] < 204,
        decreases n - i,
    {
        let count: u64 = subpart_count(part_data_len(volume_len, i as u64));
        entries.push(count as usize);
        i += 1;
    }
    assert(entries@ =~= part_entries(volume_len as int, n as nat));
    chain_hash_lists(lists, entries.as_slice());
}

} // verus!
