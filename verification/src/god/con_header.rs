//! The container header: a block of fixed size with its fields at fixed
//! offsets, sealed by a digest.

use crate::byte_order::{
    be_bytes, be_value, le_bytes, le_value, lemma_be_round_trip, lemma_le_round_trip,
    lemma_splice, overwrite, pow256, splice, write_u16_be, write_u24_be, write_u32_be,
    write_u32_le,
};
use crate::executable::TitleExecutionInfo;
use crate::sha::{sha1, sha1_digest};
use crate::text::{encode_utf16, utf16, utf16_be_bytes};
use vstd::prelude::*;
use vstd::slice::slice_subrange;

verus! {

/// Bytes in a container header.
pub const HEADER_SIZE: usize = 0xb000;

/// The largest icon that a header holds, in bytes.
pub const MAX_ICON_SIZE: usize = 0x0400;

/// The code units of a title field, the closing zero included.
pub const TITLE_UNITS: usize = 64;

/// Where the digest of the header stands.
pub const OFFSET_CONTENT_DIGEST: usize = 0x032c;

/// Where the digested range starts; it reaches to the end of the header.
pub const OFFSET_DIGESTED: usize = 0x0344;

/// Where the content type stands.
pub const OFFSET_CONTENT_TYPE: usize = 0x0344;

/// Where the media id stands.
pub const OFFSET_MEDIA_ID: usize = 0x0354;

/// Where the title id stands.
pub const OFFSET_TITLE_ID: usize = 0x0360;

/// Where platform, executable type, disc number and disc count stand.
pub const OFFSET_PLATFORM: usize = 0x0364;

/// Where the digest of the first part's master hash list stands.
pub const OFFSET_MHT_HASH: usize = 0x037d;

/// Where the count of allocated blocks stands.
pub const OFFSET_BLOCKS_ALLOCATED: usize = 0x0392;

/// Where the count of blocks not allocated stands.
pub const OFFSET_BLOCKS_NOT_ALLOCATED: usize = 0x0395;

/// Where the number of part files stands.
pub const OFFSET_PART_COUNT: usize = 0x03a0;

/// Where the size of all part files stands, in units of 256 bytes.
pub const OFFSET_PARTS_SIZE: usize = 0x03a4;

/// Where the title stands, in the list of display names.
pub const OFFSET_DISPLAY_NAME: usize = 0x0411;

/// Where the title stands again, as the title name.
pub const OFFSET_TITLE_NAME: usize = 0x1691;

/// Where the two lengths of the icon stand.
pub const OFFSET_ICON_SIZE: usize = 0x1712;

/// Where the icon stands.
pub const OFFSET_ICON: usize = 0x171a;

/// Where the icon stands again.
pub const OFFSET_TITLE_ICON: usize = 0x571a;

/// What a container holds.
#[derive(Clone, Copy, Debug, PartialEq, Eq, Structural)]
pub enum ContentType {
    GamesOnDemand,
    XboxOriginal,
}

impl ContentType {
    /// The number that stands for the content type in headers and in paths.
    pub open spec fn spec_code(self) -> u32 {
        match self {
            ContentType::GamesOnDemand => 0x7000,
            ContentType::XboxOriginal => 0x5000,
        }
    }

    /// The number that stands for the content type in headers and in paths.
    pub fn code(self) -> (code: u32)
        ensures
            code == self.spec_code(),
    {
        match self {
            ContentType::GamesOnDemand => 0x7000,
            ContentType::XboxOriginal => 0x5000,
        }
    }
}

/// The units of `title` that a title field takes: the first 63 at most,
/// closed by a zero.
pub open spec fn title_units(title: Seq<char>) -> Seq<u16> {
    let units = utf16(title);
    if units.len() < 64 {
        units.push(0u16)
    } else {
        units.take(63).push(0u16)
    }
}

/// `header` with the counts of blocks.
pub open spec fn header_with_block_counts(
    header: Seq<u8>,
    blocks_allocated: u32,
    blocks_not_allocated: u16,
) -> Seq<u8> {
    splice(
        splice(header, 0x0392, be_bytes(blocks_allocated as nat, 3)),
        0x0395,
        be_bytes(blocks_not_allocated as nat, 2),
    )
}

/// `header` with the content type.
pub open spec fn header_with_content_type(header: Seq<u8>, content_type: ContentType) -> Seq<u8> {
    splice(header, 0x0344, be_bytes(content_type.spec_code() as nat, 4))
}

/// `header` with the number of parts, little-endian, and their size in
/// units of 256 bytes, of which the low 32 bits are kept.
pub open spec fn header_with_data_parts_info(
    header: Seq<u8>,
    part_count: u32,
    parts_total_size: u64,
) -> Seq<u8> {
    splice(
        splice(header, 0x03a0, le_bytes(part_count as nat, 4)),
        0x03a4,
        be_bytes(((parts_total_size / 0x100) % 0x1_0000_0000) as nat, 4),
    )
}

/// `header` with the identity of the title.
pub open spec fn header_with_execution_info(header: Seq<u8>, info: TitleExecutionInfo) -> Seq<u8> {
    splice(
        splice(
            splice(header, 0x0354, be_bytes(info.media_id as nat, 4)),
            0x0360,
            be_bytes(info.title_id as nat, 4),
        ),
        0x0364,
        seq![info.platform, info.executable_type, info.disc_number, info.disc_count],
    )
}

/// `header` with the icon: its length twice, and its bytes twice.
pub open spec fn header_with_game_icon(header: Seq<u8>, png_bytes: Seq<u8>) -> Seq<u8> {
    splice(
        splice(
            splice(
                splice(header, 0x1712, be_bytes(png_bytes.len(), 4)),
                0x1716,
                be_bytes(png_bytes.len(), 4),
            ),
            0x171a,
            png_bytes,
        ),
        0x571a,
        png_bytes,
    )
}

/// `header` with the title in both of its fields.
pub open spec fn header_with_game_title(header: Seq<u8>, title: Seq<char>) -> Seq<u8> {
    splice(
        splice(header, 0x0411, utf16_be_bytes(title_units(title))),
        0x1691,
        utf16_be_bytes(title_units(title)),
    )
}

/// `header` with the digest of the first part's master hash list.
pub open spec fn header_with_mht_hash(header: Seq<u8>, mht_hash: Seq<u8>) -> Seq<u8> {
    splice(header, 0x037d, mht_hash)
}

/// `header` with the three control bytes cleared.
pub open spec fn header_cleared(header: Seq<u8>) -> Seq<u8> {
    header.update(0x035b, 0u8).update(0x035f, 0u8).update(0x0391, 0u8)
}

/// The finished header: the control bytes cleared, and the digest of the
/// bytes from 0x0344 to the end stored at 0x032c.
pub open spec fn header_finalized(header: Seq<u8>) -> Seq<u8> {
    let cleared = header_cleared(header);
    splice(cleared, 0x032c, sha1(cleared.subrange(0x0344, 0xb000))@)
}

/// Builds a container header field by field.
pub struct ConHeaderBuilder {
    buffer: Vec<u8>,
}

impl View for ConHeaderBuilder {
    type V = Seq<u8>;

    /// The bytes of the header as far as it is built: always as many as a
    /// header has.
    closed spec fn view(&self) -> Seq<u8> {
        if self.buffer@.len() == HEADER_SIZE {
            self.buffer@
        } else {
            Seq::new(HEADER_SIZE as nat, |i: int| 0u8)
        }
    }
}

impl Default for ConHeaderBuilder {
    /// A builder over the blank template.
    fn default() -> (builder: ConHeaderBuilder)
        ensures
            builder@ == Seq::new(HEADER_SIZE as nat, |i: int| 0u8),
    {
        Self::new()
    }
}

impl ConHeaderBuilder {
    #[verifier::type_invariant]
    spec fn well_formed(self) -> bool {
        self.buffer@.len() == HEADER_SIZE
    }

    /// A header under construction always has the size of a header.
    pub proof fn lemma_len(&self)
        ensures
            self@.len() == HEADER_SIZE,
    {
    }

    /// Two builders that hold the same bytes finish as the same header, the
    /// digest included.
    pub proof fn lemma_finalize_deterministic(a: ConHeaderBuilder, b: ConHeaderBuilder)
        requires
            a@ == b@,
        ensures
            header_finalized(a@) == header_finalized(b@),
    {
    }

    /// A builder over the blank template: a header of zero bytes.
    pub fn new() -> (builder: ConHeaderBuilder)
        ensures
            builder@ == Seq::new(HEADER_SIZE as nat, |i: int| 0u8),
    {
        let buffer: Vec<u8> = vec![0u8; HEADER_SIZE];
        assert(buffer@ =~= Seq::new(HEADER_SIZE as nat, |i: int| 0u8));
        ConHeaderBuilder { buffer }
    }

    /// A builder over a template of the caller's. A template of another
    /// size than a header's is refused.
    pub fn from_template(template: &[u8]) -> (builder: Option<ConHeaderBuilder>)
        ensures
            match builder {
                Some(b) => template@.len() == HEADER_SIZE && b@ == template@,
                None => template@.len() != HEADER_SIZE,
            },
    {
        if template.len() != HEADER_SIZE {
            return None;
        }
        let mut buffer: Vec<u8> = Vec::new();
        buffer.extend_from_slice(template);
        assert(buffer@ =~= template@);
        Some(ConHeaderBuilder { buffer })
    }

    fn write_u8(buffer: &mut Vec<u8>, offset: usize, value: u8)
        requires
            offset < old(buffer)@.len(),
        ensures
            final(buffer)@ == old(buffer)@.update(offset as int, value),
    {
        buffer[offset] = value;
    }

    fn write_bytes(buffer: &mut Vec<u8>, offset: usize, buf: &[u8])
        requires
            offset + buf@.len() <= old(buffer)@.len(),
        ensures
            final(buffer)@ == splice(old(buffer)@, offset as int, buf@),
    {
        overwrite(buffer, offset, buf)
    }

    /// Writes the first 63 units of `s` at most, then a zero unit, each
    /// unit with its high byte first.
    fn write_utf16_be(buffer: &mut Vec<u8>, offset: usize, s: &str)
        requires
            offset + 2 * TITLE_UNITS <= old(buffer)@.len(),
        ensures
            final(buffer)@ == splice(
                old(buffer)@,
                offset as int,
                utf16_be_bytes(title_units(s@)),
            ),
    {
        let units: Vec<u16> = encode_utf16(s);
        let n: usize = if units.len() < TITLE_UNITS {
            units.len()
        } else {
            TITLE_UNITS - 1
        };
        let ghost kept = units@.take(n as int);
        let total: usize = buffer.len();
        let mut i: usize = 0;
        assert(buffer@ =~= splice(old(buffer)@, offset as int, utf16_be_bytes(kept.take(0))));
        while i < n
            invariant
                i <= n,
                n < TITLE_UNITS,
                n <= units@.len(),
                kept == units@.take(n as int),
                total == buffer@.len(),
                total == old(buffer)@.len(),
                offset + 2 * TITLE_UNITS <= total,
                buffer@ == splice(
                    old(buffer)@,
                    offset as int,
                    utf16_be_bytes(kept.take(i as int)),
                ),
            decreases n - i,
        {
            let unit: u16 = units[i];
            proof {
                lemma_be_bytes_2(unit);
            }
            write_u16_be(buffer, offset + 2 * i, unit);
            assert(buffer@ =~= splice(
                old(buffer)@,
                offset as int,
                utf16_be_bytes(kept.take(i + 1)),
            ));
            i += 1;
        }
        proof {
            lemma_be_bytes_2(0u16);
            assert(kept.take(n as int) =~= kept);
        }
        write_u16_be(buffer, offset + 2 * n, 0u16);
        assert(kept.push(0u16) == title_units(s@));
        assert(buffer@ =~= splice(
            old(buffer)@,
            offset as int,
            utf16_be_bytes(title_units(s@)),
        ));
    }

    /// Sets the counts of blocks: allocated in three bytes, not allocated
    /// in two, high bytes first.
    pub fn with_block_counts(self, blocks_allocated: u32, blocks_not_allocated: u16) -> (builder:
        ConHeaderBuilder)
        requires
            blocks_allocated < 0x100_0000,
        ensures
            builder@ == header_with_block_counts(self@, blocks_allocated, blocks_not_allocated),
    {
        proof {
            use_type_invariant(&self);
        }
        let mut buffer = self.buffer;
        write_u24_be(&mut buffer, OFFSET_BLOCKS_ALLOCATED, blocks_allocated);
        write_u16_be(&mut buffer, OFFSET_BLOCKS_NOT_ALLOCATED, blocks_not_allocated);
        ConHeaderBuilder { buffer }
    }

    /// Sets the content type, high byte first.
    pub fn with_content_type(self, content_type: ContentType) -> (builder: ConHeaderBuilder)
        ensures
            builder@ == header_with_content_type(self@, content_type),
    {
        proof {
            use_type_invariant(&self);
        }
        let mut buffer = self.buffer;
        write_u32_be(&mut buffer, OFFSET_CONTENT_TYPE, content_type.code());
        ConHeaderBuilder { buffer }
    }

    /// Sets the number of part files, low byte first, and the size of all of
    /// them in units of 256 bytes, high byte first.
    pub fn with_data_parts_info(self, part_count: u32, parts_total_size: u64) -> (builder:
        ConHeaderBuilder)
        ensures
            builder@ == header_with_data_parts_info(self@, part_count, parts_total_size),
    {
        proof {
            use_type_invariant(&self);
        }
        let mut buffer = self.buffer;
        write_u32_le(&mut buffer, OFFSET_PART_COUNT, part_count);
        let units: u64 = (parts_total_size / 0x0100) % 0x1_0000_0000;
        write_u32_be(&mut buffer, OFFSET_PARTS_SIZE, units as u32);
        ConHeaderBuilder { buffer }
    }

    /// Sets the identity of the title.
    pub fn with_execution_info(self, exe_info: &TitleExecutionInfo) -> (builder: ConHeaderBuilder)
        ensures
            builder@ == header_with_execution_info(self@, *exe_info),
    {
        proof {
            use_type_invariant(&self);
        }
        let mut buffer = self.buffer;
        write_u32_be(&mut buffer, OFFSET_MEDIA_ID, exe_info.media_id);
        write_u32_be(&mut buffer, OFFSET_TITLE_ID, exe_info.title_id);
        let ghost before = buffer@;
        Self::write_u8(&mut buffer, OFFSET_PLATFORM, exe_info.platform);
        Self::write_u8(&mut buffer, OFFSET_PLATFORM + 1, exe_info.executable_type);
        Self::write_u8(&mut buffer, OFFSET_PLATFORM + 2, exe_info.disc_number);
        Self::write_u8(&mut buffer, OFFSET_PLATFORM + 3, exe_info.disc_count);
        assert(buffer@ =~= splice(
            before,
            0x0364,
            seq![
                exe_info.platform,
                exe_info.executable_type,
                exe_info.disc_number,
                exe_info.disc_count,
            ],
        ));
        ConHeaderBuilder { buffer }
    }

    /// Sets the icon, or an empty one for `None`.
    pub fn with_game_icon(self, png_bytes: Option<&[u8]>) -> (builder: ConHeaderBuilder)
        requires
            png_bytes matches Some(bytes) ==> bytes@.len() <= MAX_ICON_SIZE,
        ensures
            builder@ == header_with_game_icon(
                self@,
                match png_bytes {
                    Some(bytes) => bytes@,
                    None => Seq::empty(),
                },
            ),
    {
        proof {
            use_type_invariant(&self);
        }
        let mut buffer = self.buffer;
        let empty: [u8; 0] = [];
        let png_bytes: &[u8] = match png_bytes {
            Some(bytes) => bytes,
            None => {
                assert(empty@ =~= Seq::<u8>::empty());
                empty.as_slice()
            },
        };
        let len: usize = png_bytes.len();
        write_u32_be(&mut buffer, OFFSET_ICON_SIZE, len as u32);
        write_u32_be(&mut buffer, OFFSET_ICON_SIZE + 4, len as u32);
        Self::write_bytes(&mut buffer, OFFSET_ICON, png_bytes);
        Self::write_bytes(&mut buffer, OFFSET_TITLE_ICON, png_bytes);
        ConHeaderBuilder { buffer }
    }

    /// Sets the title in both of its fields, as UTF-16 with the high byte
    /// of each unit first. A field takes 63 units and a closing zero: the
    /// units of a longer title that do not fit are left out.
    pub fn with_game_title(self, game_title: &str) -> (builder: ConHeaderBuilder)
        ensures
            builder@ == header_with_game_title(self@, game_title@),
    {
        proof {
            use_type_invariant(&self);
        }
        let mut buffer = self.buffer;
        Self::write_utf16_be(&mut buffer, OFFSET_DISPLAY_NAME, game_title);
        Self::write_utf16_be(&mut buffer, OFFSET_TITLE_NAME, game_title);
        ConHeaderBuilder { buffer }
    }

    /// Sets the digest of the first part's master hash list.
    pub fn with_mht_hash(self, mht_hash: &[u8; 20]) -> (builder: ConHeaderBuilder)
        ensures
            builder@ == header_with_mht_hash(self@, mht_hash@),
    {
        proof {
            use_type_invariant(&self);
        }
        let mut buffer = self.buffer;
        Self::write_bytes(&mut buffer, OFFSET_MHT_HASH, mht_hash.as_slice());
        ConHeaderBuilder { buffer }
    }

    /// Finishes the header: clears the three control bytes, then stores the
    /// digest of the bytes from 0x0344 to the end at 0x032c.
    pub fn finalize(self) -> (header: Vec<u8>)
        ensures
            header@ == header_finalized(self@),
            header@.len() == HEADER_SIZE,
    {
        proof {
            use_type_invariant(&self);
        }
        let mut buffer = self.buffer;
        Self::write_u8(&mut buffer, 0x035b, 0);
        Self::write_u8(&mut buffer, 0x035f, 0);
        Self::write_u8(&mut buffer, 0x0391, 0);
        let digest: [u8; 20] = sha1_digest(
            slice_subrange(buffer.as_slice(), OFFSET_DIGESTED, HEADER_SIZE),
        );
        Self::write_bytes(&mut buffer, OFFSET_CONTENT_DIGEST, digest.as_slice());
        buffer
    }
}

/// Finishing a header changes the three control bytes and the twenty bytes
/// of the digest, and no other byte.
pub proof fn lemma_finalize_frame(header: Seq<u8>)
    requires
        header.len() == HEADER_SIZE,
    ensures
        header_finalized(header).len() == HEADER_SIZE,
        forall|i: int|
            0 <= i < HEADER_SIZE && !(0x032c <= i < 0x0340) && i != 0x035b && i != 0x035f && i
                != 0x0391 ==> header_finalized(header)[i] == header[i],
        header_finalized(header)[0x035b] == 0,
        header_finalized(header)[0x035f] == 0,
        header_finalized(header)[0x0391] == 0,
        header_finalized(header).subrange(0x032c, 0x0340) == sha1(
            header_cleared(header).subrange(0x0344, 0xb000),
        )@,
{
    let cleared = header_cleared(header);
    lemma_splice(cleared, 0x032c, sha1(cleared.subrange(0x0344, 0xb000))@);
}

/// The identity that was set stands in the finished header where a reader
/// looks for it: media id and title id as numbers of four bytes with the
/// high byte first, and platform, executable type, disc number and disc
/// count in a byte each.
pub proof fn lemma_execution_info_reads_back(header: Seq<u8>, info: TitleExecutionInfo)
    requires
        header.len() == HEADER_SIZE,
    ensures
        ({
            let built = header_finalized(header_with_execution_info(header, info));
            &&& be_value(built.subrange(0x0354, 0x0358)) == info.media_id
            &&& be_value(built.subrange(0x0360, 0x0364)) == info.title_id
            &&& built[0x0364] == info.platform
            &&& built[0x0365] == info.executable_type
            &&& built[0x0366] == info.disc_number
            &&& built[0x0367] == info.disc_count
        }),
{
    let media = be_bytes(info.media_id as nat, 4);
    let title = be_bytes(info.title_id as nat, 4);
    let rest = seq![info.platform, info.executable_type, info.disc_number, info.disc_count];
    assert(pow256(4) == 0x1_0000_0000) by {
        reveal_with_fuel(pow256, 5);
    }
    lemma_be_round_trip(info.media_id as nat, 4);
    lemma_be_round_trip(info.title_id as nat, 4);
    let a = splice(header, 0x0354, media);
    let b = splice(a, 0x0360, title);
    let c = splice(b, 0x0364, rest);
    lemma_splice(header, 0x0354, media);
    lemma_splice(a, 0x0360, title);
    lemma_splice(b, 0x0364, rest);
    lemma_finalize_frame(c);
    let built = header_finalized(c);
    assert(built.subrange(0x0354, 0x0358) =~= media) by {
        assert forall|i: int| 0 <= i < 4 implies built[0x0354 + i] == media[i] by {
            assert(a.subrange(0x0354, 0x0358)[i] == a[0x0354 + i]);
        }
    }
    assert(built.subrange(0x0360, 0x0364) =~= title) by {
        assert forall|i: int| 0 <= i < 4 implies built[0x0360 + i] == title[i] by {
            assert(b.subrange(0x0360, 0x0364)[i] == b[0x0360 + i]);
        }
    }
}

/// The content type that was set stands in the finished header where a
/// reader looks for it, as its code in four bytes with the high byte first.
pub proof fn lemma_content_type_reads_back(header: Seq<u8>, content_type: ContentType)
    requires
        header.len() == HEADER_SIZE,
    ensures
        be_value(
            header_finalized(header_with_content_type(header, content_type)).subrange(
                0x0344,
                0x0348,
            ),
        ) == content_type.spec_code(),
{
    let code = be_bytes(content_type.spec_code() as nat, 4);
    assert(pow256(4) == 0x1_0000_0000) by {
        reveal_with_fuel(pow256, 5);
    }
    lemma_be_round_trip(content_type.spec_code() as nat, 4);
    let a = splice(header, 0x0344, code);
    lemma_splice(header, 0x0344, code);
    lemma_finalize_frame(a);
    let built = header_finalized(a);
    assert(built.subrange(0x0344, 0x0348) =~= code) by {
        assert forall|i: int| 0 <= i < 4 implies built[0x0344 + i] == code[i] by {
            assert(a.subrange(0x0344, 0x0348)[i] == a[0x0344 + i]);
        }
    }
}

/// The number of parts that was set stands in the finished header as a
/// number of four bytes with the low byte first, and the size of the parts
/// in units of 256 bytes behind it with the high byte first.
pub proof fn lemma_data_parts_info_reads_back(
    header: Seq<u8>,
    part_count: u32,
    parts_total_size: u64,
)
    requires
        header.len() == HEADER_SIZE,
    ensures
        ({
            let built = header_finalized(
                header_with_data_parts_info(header, part_count, parts_total_size),
            );
            &&& le_value(built.subrange(0x03a0, 0x03a4)) == part_count
            &&& be_value(built.subrange(0x03a4, 0x03a8)) == (parts_total_size / 0x100)
                % 0x1_0000_0000
        }),
{
    let count = le_bytes(part_count as nat, 4);
    let units = ((parts_total_size / 0x100) % 0x1_0000_0000) as nat;
    let size = be_bytes(units, 4);
    assert(pow256(4) == 0x1_0000_0000) by {
        reveal_with_fuel(pow256, 5);
    }
    lemma_le_round_trip(part_count as nat, 4);
    lemma_be_round_trip(units, 4);
    let a = splice(header, 0x03a0, count);
    let b = splice(a, 0x03a4, size);
    lemma_splice(header, 0x03a0, count);
    lemma_splice(a, 0x03a4, size);
    lemma_finalize_frame(b);
    let built = header_finalized(b);
    assert(built.subrange(0x03a0, 0x03a4) =~= count) by {
        assert forall|i: int| 0 <= i < 4 implies built[0x03a0 + i] == count[i] by {
            assert(a.subrange(0x03a0, 0x03a4)[i] == a[0x03a0 + i]);
        }
    }
    assert(built.subrange(0x03a4, 0x03a8) =~= size) by {
        assert forall|i: int| 0 <= i < 4 implies built[0x03a4 + i] == size[i] by {
            assert(b.subrange(0x03a4, 0x03a8)[i] == b[0x03a4 + i]);
        }
    }
}

/// The two big-endian digits of a 16-bit number.
proof fn lemma_be_bytes_2(value: u16)
    ensures
        be_bytes(value as nat, 2) == seq![(value / 256) as u8, (value % 256) as u8],
{
    reveal_with_fuel(be_bytes, 3);
    assert(be_bytes(value as nat, 2) =~= seq![(value / 256) as u8, (value % 256) as u8]);
}

} // verus!
