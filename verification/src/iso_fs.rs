//! The filesystem of a disc image, read one directory entry at a time.
//!
//! A volume starts at one of four offsets of the image. Its descriptor, 32
//! sectors in, carries a signature, the extent of the root directory and the
//! time of creation. A directory is a run of sectors; each sector holds
//! entries back to back, every entry on a multiple of four bytes, up to an
//! entry marked as the end.

use crate::byte_order::le_value;
use crate::error::Error;
use crate::stream::{
    bytes_at, bytes_equal, in_bounds, read_bytes, read_u16_le_at, read_u32_le_at, read_u64_le_at,
};
use vstd::prelude::*;

pub use crate::stream::{slice_from, suffix};

verus! {

/// Bytes in one sector.
pub const SECTOR_SIZE: u64 = 2048;

/// Where the descriptor stands in a volume.
pub const DESCRIPTOR_OFFSET: u64 = 0x10000;

/// The signature of a volume's descriptor: `MICROSOFT*XBOX*MEDIA`.
pub const MAGIC_BYTES: [u8; 20] = [
    0x4d, 0x49, 0x43, 0x52, 0x4f, 0x53, 0x4f, 0x46, 0x54, 0x2a, 0x58, 0x42, 0x4f, 0x58, 0x2a, 0x4d,
    0x45, 0x44, 0x49, 0x41,
];

/// The bit of an archived file.
pub const ATTR_ARCHIVE: u8 = 0x20;

/// The bit of a directory.
pub const ATTR_DIRECTORY: u8 = 0x10;

/// The bit of a hidden file.
pub const ATTR_HIDDEN: u8 = 0x02;

/// The bit of a file without other attributes.
pub const ATTR_NORMAL: u8 = 0x80;

/// The bit of a file that is not to be written.
pub const ATTR_READ_ONLY: u8 = 0x01;

/// The bit of a system file.
pub const ATTR_SYSTEM: u8 = 0x04;

/// All bits that have a meaning.
pub const ATTR_ALL: u8 = 0xb7;

/// The value in either link field that marks the end of a sector's entries.
pub const END_OF_ENTRIES: u16 = 0xffff;

/// The signature, as a byte string.
pub open spec fn magic() -> Seq<u8> {
    seq![
        0x4du8, 0x49u8, 0x43u8, 0x52u8, 0x4fu8, 0x53u8, 0x4fu8, 0x46u8, 0x54u8, 0x2au8, 0x58u8,
        0x42u8, 0x4fu8, 0x58u8, 0x2au8, 0x4du8, 0x45u8, 0x44u8, 0x49u8, 0x41u8,
    ]
}

/// Whether the volume at `offset` of `image` carries the signature.
pub open spec fn has_magic(image: Seq<u8>, offset: int) -> bool {
    in_bounds(image, offset + DESCRIPTOR_OFFSET, 20) && bytes_at(
        image,
        offset + DESCRIPTOR_OFFSET,
        20,
    ) == magic()
}

/// `pos` rounded up to a multiple of four.
pub open spec fn align4(pos: int) -> int {
    pos + (4 - pos % 4) % 4
}

/// The attributes of a directory entry: a set of bits, of which those
/// without a meaning are dropped.
#[derive(Clone, Copy, Debug, PartialEq, Eq, Structural)]
pub struct DirEntryAttrs {
    bits: u8,
}

impl DirEntryAttrs {
    /// The bits that are set.
    pub closed spec fn spec_bits(self) -> u8 {
        self.bits
    }

    /// The attributes in `bits`, without the bits that have no meaning.
    pub fn from_bits_truncate(bits: u8) -> (attrs: DirEntryAttrs)
        ensures
            attrs.spec_bits() == bits & ATTR_ALL,
    {
        DirEntryAttrs { bits: bits & ATTR_ALL }
    }

    /// The bits that are set.
    pub fn bits(self) -> (bits: u8)
        ensures
            bits == self.spec_bits(),
    {
        self.bits
    }

    /// Whether all bits of `flags` are set.
    pub fn contains(self, flags: u8) -> (all: bool)
        ensures
            all == (self.spec_bits() & flags == flags),
    {
        self.bits & flags == flags
    }
}

/// What a directory entry says.
pub ghost struct EntryView {
    pub subtree_left: u16,
    pub subtree_right: u16,
    pub sector: u32,
    pub size: u32,
    pub attrs: u8,
    pub name: Seq<u8>,
}

/// The entry that stands at `pos`: `None` for the mark of the end, else
/// the entry and the position behind its name. An entry is two link fields,
/// sector and size of its data, attributes, the length of its name and the
/// name, numbers with their low byte first.
pub open spec fn entry_at(data: Seq<u8>, pos: int) -> Result<Option<(EntryView, int)>, Error> {
    if !in_bounds(data, pos, 4) {
        Err(Error::UnexpectedEof)
    } else {
        let left = le_value(bytes_at(data, pos, 2));
        let right = le_value(bytes_at(data, pos + 2, 2));
        if left == 0xffff || right == 0xffff {
            Ok(None)
        } else if !in_bounds(data, pos, 14) {
            Err(Error::UnexpectedEof)
        } else {
            let name_len = data[pos + 13] as int;
            if !in_bounds(data, pos + 14, name_len) {
                Err(Error::UnexpectedEof)
            } else {
                Ok(
                    Some(
                        (
                            EntryView {
                                subtree_left: left as u16,
                                subtree_right: right as u16,
                                sector: le_value(bytes_at(data, pos + 4, 4)) as u32,
                                size: le_value(bytes_at(data, pos + 8, 4)) as u32,
                                attrs: data[pos + 12] & ATTR_ALL,
                                name: bytes_at(data, pos + 14, name_len),
                            },
                            pos + 14 + name_len,
                        ),
                    ),
                )
            }
        }
    }
}

/// `first` put before the entries of `rest`, where there is no error.
pub open spec fn prepend(first: Seq<EntryView>, rest: Result<Seq<EntryView>, Error>) -> Result<
    Seq<EntryView>,
    Error,
> {
    match rest {
        Ok(entries) => Ok(first + entries),
        Err(e) => Err(e),
    }
}

/// The entries of one sector from `pos` on, in the order in which they
/// stand, up to the mark of the end. Each entry after the first stands on
/// the next multiple of four behind the one before it.
pub open spec fn sector_entries(data: Seq<u8>, pos: int) -> Result<Seq<EntryView>, Error>
    decreases data.len() + 4 - pos,
{
    match entry_at(data, pos) {
        Err(e) => Err(e),
        Ok(None) => Ok(Seq::empty()),
        Ok(Some((entry, end))) => prepend(seq![entry], sector_entries(data, align4(end))),
    }
}

/// The entries of a directory of `size` bytes that starts at `pos`: those
/// of its first sector, then those of the sectors behind it. A mark of the
/// end closes one sector, not the directory.
pub open spec fn dir_entries(data: Seq<u8>, pos: int, size: int) -> Result<Seq<EntryView>, Error>
    decreases size,
{
    if size <= 0 {
        Ok(Seq::empty())
    } else {
        match sector_entries(data, pos) {
            Err(e) => Err(e),
            Ok(entries) => prepend(
                entries,
                dir_entries(
                    data,
                    pos + 2048,
                    if size > 2048 {
                        size - 2048
                    } else {
                        0
                    },
                ),
            ),
        }
    }
}

/// A directory entry as it stands in the image.
#[derive(Clone, Copy, Debug)]
pub struct DirEntry {
    pub attrs: DirEntryAttrs,
    pub name_buf: [u8; 256],
    pub name_len: u8,
    pub data_extent: FsExtent,
    pub subtree_left: u16,
    pub subtree_right: u16,
}

impl View for DirEntry {
    type V = EntryView;

    open spec fn view(&self) -> EntryView {
        EntryView {
            subtree_left: self.subtree_left,
            subtree_right: self.subtree_right,
            sector: self.data_extent.sector,
            size: self.data_extent.size,
            attrs: self.attrs.spec_bits(),
            name: self.name_buf@.take(self.name_len as int),
        }
    }
}

/// A run of bytes in a volume: the sector where it starts and its size.
#[derive(Clone, Copy, Debug, PartialEq, Eq, Structural)]
pub struct FsExtent {
    pub sector: u32,
    pub size: u32,
}

impl FsExtent {
    /// The extent without its first sector.
    pub open spec fn spec_advance_start(self) -> FsExtent {
        if self.size == 0 {
            self
        } else {
            FsExtent {
                sector: (self.sector + 1) as u32,
                size: if self.size > 2048 {
                    (self.size - 2048) as u32
                } else {
                    0
                },
            }
        }
    }

    /// The extent without its first sector; an empty extent stays as it is.
    pub fn advance_start(self) -> (rest: FsExtent)
        requires
            self.size == 0 || self.sector < u32::MAX,
        ensures
            rest == self.spec_advance_start(),
    {
        if self.size == 0 {
            return self;
        }
        FsExtent { sector: self.sector + 1, size: self.size.saturating_sub(SECTOR_SIZE as u32) }
    }

    pub fn is_empty(self) -> (empty: bool)
        ensures
            empty == (self.size == 0),
    {
        self.size == 0
    }
}

impl DirEntry {
    /// The name: the first `name_len` bytes of the buffer.
    pub fn name(&self) -> (name: &[u8])
        ensures
            name@ == self@.name,
    {
        vstd::slice::slice_subrange(self.name_buf.as_slice(), 0, self.name_len as usize)
    }

    /// The directory that the entry stands for, where it is one.
    pub fn as_dir(&self) -> (dir: Option<Dir>)
        ensures
            dir == if self@.attrs & ATTR_DIRECTORY == ATTR_DIRECTORY {
                Some(Dir { extent: self.data_extent })
            } else {
                None
            },
    {
        if self.attrs.contains(ATTR_DIRECTORY) {
            Some(Dir { extent: self.data_extent })
        } else {
            None
        }
    }

    /// Reads the entry at `pos` of `reader`: `None` for the mark of the end,
    /// else the entry and the position behind its name.
    pub fn try_read(reader: &[u8], pos: u64) -> (result: Result<Option<(DirEntry, u64)>, Error>)
        ensures
            match result {
                Ok(Some((entry, end))) => entry_at(reader@, pos as int) == Ok::<
                    Option<(EntryView, int)>,
                    Error,
                >(Some((entry@, end as int))),
                Ok(None) => entry_at(reader@, pos as int) == Ok::<Option<(EntryView, int)>, Error>(
                    None,
                ),
                Err(e) => entry_at(reader@, pos as int) == Err::<Option<(EntryView, int)>, Error>(
                    e,
                ),
            },
    {
        let len: usize = reader.len();
        match read_bytes(reader, pos, 4) {
            Ok(_) => {},
            Err(e) => {
                return Err(e);
            },
        }
        let subtree_left: u16 = match read_u16_le_at(reader, pos) {
            Ok(v) => v,
            Err(e) => {
                return Err(e);
            },
        };
        let subtree_right: u16 = match read_u16_le_at(reader, pos + 2) {
            Ok(v) => v,
            Err(e) => {
                return Err(e);
            },
        };
        if subtree_left == END_OF_ENTRIES || subtree_right == END_OF_ENTRIES {
            return Ok(None);
        }
        let fixed = match read_bytes(reader, pos, 14) {
            Ok(fixed) => fixed,
            Err(e) => {
                return Err(e);
            },
        };
        let sector: u32 = match read_u32_le_at(reader, pos + 4) {
            Ok(v) => v,
            Err(e) => {
                return Err(e);
            },
        };
        let size: u32 = match read_u32_le_at(reader, pos + 8) {
            Ok(v) => v,
            Err(e) => {
                return Err(e);
            },
        };
        let attrs = DirEntryAttrs::from_bits_truncate(fixed[12]);
        let name_len: u8 = fixed[13];
        let name = match read_bytes(reader, pos + 14, name_len as usize) {
            Ok(name) => name,
            Err(e) => {
                return Err(e);
            },
        };
        let mut name_buf: [u8; 256] = [0u8;256];
        let mut i: usize = 0;
        while i < name_len as usize
            invariant
                i <= name_len,
                name@.len() == name_len,
                forall|j: int| 0 <= j < i ==> name_buf@[j] == name@[j],
            decreases name_len - i,
        {
            name_buf[i] = name[i];
            i += 1;
        }
        assert(name_buf@.take(name_len as int) =~= name@);
        let entry = DirEntry {
            attrs,
            name_buf,
            name_len,
            data_extent: FsExtent { sector, size },
            subtree_left,
            subtree_right,
        };
        Ok(Some((entry, pos + 14 + name_len as u64)))
    }
}

/// A directory: the extent of its entries.
#[derive(Clone, Copy, Debug, PartialEq, Eq, Structural)]
pub struct Dir {
    pub extent: FsExtent,
}

/// The entries that a vector holds.
pub open spec fn entry_views(entries: Seq<DirEntry>) -> Seq<EntryView> {
    Seq::new(entries.len(), |i: int| entries[i]@)
}

/// Putting entries before a result, one lot after another, is putting both
/// lots before it at once.
proof fn lemma_prepend_twice(
    first: Seq<EntryView>,
    second: Seq<EntryView>,
    rest: Result<Seq<EntryView>, Error>,
)
    ensures
        prepend(first, prepend(second, rest)) == prepend(first + second, rest),
{
    match rest {
        Ok(entries) => {
            assert(first + (second + entries) =~= (first + second) + entries);
        },
        Err(_) => {},
    }
}

/// Reads the entries of one sector from `pos` on and appends them to
/// `entries`.
pub fn read_sector_entries(reader: &[u8], pos: u64, entries: &mut Vec<DirEntry>) -> (result:
    Result<(), Error>)
    ensures
        match result {
            Ok(()) => prepend(entry_views(old(entries)@), sector_entries(reader@, pos as int))
                == Ok::<Seq<EntryView>, Error>(entry_views(final(entries)@)),
            Err(e) => sector_entries(reader@, pos as int) == Err::<Seq<EntryView>, Error>(e),
        },
{
    let len: usize = reader.len();
    let mut cur: u64 = pos;
    proof {
        lemma_prepend_twice(
            entry_views(old(entries)@),
            Seq::empty(),
            sector_entries(reader@, pos as int),
        );
        assert(entry_views(old(entries)@) + Seq::<EntryView>::empty() =~= entry_views(
            old(entries)@,
        ));
    }
    let ghost added: Seq<EntryView> = Seq::empty();
    loop
        invariant
            len == reader@.len(),
            entry_views(entries@) == entry_views(old(entries)@) + added,
            sector_entries(reader@, pos as int) == prepend(
                added,
                sector_entries(reader@, cur as int),
            ),
        decreases len + 4 - cur,
    {
        match DirEntry::try_read(reader, cur) {
            Err(e) => {
                return Err(e);
            },
            Ok(None) => {
                assert(added + Seq::<EntryView>::empty() =~= added);
                return Ok(());
            },
            Ok(Some((entry, end))) => {
                let pad: u64 = (4 - end % 4) % 4;
                proof {
                    lemma_prepend_twice(
                        added,
                        seq![entry@],
                        sector_entries(reader@, align4(end as int)),
                    );
                }
                let ghost before = entries@;
                entries.push(entry);
                proof {
                    assert(entry_views(entries@) =~= entry_views(before).push(entry@));
                    assert(entry_views(before).push(entry@) =~= entry_views(old(entries)@) + (added
                        + seq![entry@]));
                    added = added + seq![entry@];
                }
                match end.checked_add(pad) {
                    Some(next) => {
                        cur = next;
                    },
                    None => {
                        return Err(Error::UnexpectedEof);
                    },
                }
            },
        }
    }
}

/// Reads the entries of the directory of `size` bytes that starts at `pos`:
/// sector by sector, each up to its mark of the end.
pub fn read_dir_entries(reader: &[u8], pos: u64, size: u64) -> (result: Result<
    Vec<DirEntry>,
    Error,
>)
    ensures
        match result {
            Ok(entries) => dir_entries(reader@, pos as int, size as int) == Ok::<
                Seq<EntryView>,
                Error,
            >(entry_views(entries@)),
            Err(e) => dir_entries(reader@, pos as int, size as int) == Err::<
                Seq<EntryView>,
                Error,
            >(e),
        },
{
    let len: usize = reader.len();
    let mut entries: Vec<DirEntry> = Vec::new();
    let mut cur: u64 = pos;
    let mut left: u64 = size;
    assert(entry_views(entries@) =~= Seq::<EntryView>::empty());
    proof {
        lemma_prepend_twice(
            Seq::empty(),
            Seq::empty(),
            dir_entries(reader@, pos as int, size as int),
        );
        assert(Seq::<EntryView>::empty() + Seq::<EntryView>::empty() =~= Seq::<
            EntryView,
        >::empty());
        match dir_entries(reader@, pos as int, size as int) {
            Ok(all) => {
                assert(Seq::<EntryView>::empty() + all =~= all);
            },
            Err(_) => {},
        }
    }
    while left > 0
        invariant
            len == reader@.len(),
            dir_entries(reader@, pos as int, size as int) == prepend(
                entry_views(entries@),
                dir_entries(reader@, cur as int, left as int),
            ),
        decreases left,
    {
        let ghost before = entry_views(entries@);
        match read_sector_entries(reader, cur, &mut entries) {
            Err(e) => {
                return Err(e);
            },
            Ok(()) => {},
        }
        let rest: u64 = if left > SECTOR_SIZE {
            left - SECTOR_SIZE
        } else {
            0
        };
        proof {
            let in_sector = sector_entries(reader@, cur as int)->Ok_0;
            assert(entry_views(entries@) == before + in_sector);
            lemma_prepend_twice(
                before,
                in_sector,
                dir_entries(reader@, cur + 2048, rest as int),
            );
        }
        match cur.checked_add(SECTOR_SIZE) {
            Some(next) => {
                cur = next;
                left = rest;
            },
            None => {
                if rest > 0 {
                    assert(sector_entries(reader@, cur + 2048) == Err::<Seq<EntryView>, Error>(
                        Error::UnexpectedEof,
                    ));
                    return Err(Error::UnexpectedEof);
                }
                assert(entry_views(entries@) + Seq::<EntryView>::empty() =~= entry_views(
                    entries@,
                ));
                return Ok(entries);
            },
        }
    }
    assert(entry_views(entries@) + Seq::<EntryView>::empty() =~= entry_views(entries@));
    Ok(entries)
}

/// The layouts of a disc image: where the volume starts.
#[derive(Clone, Copy, Debug, PartialEq, Eq, Structural)]
pub enum IsoType {
    Xgd3,
    Xgd2,
    Xgd1,
    Xsf,
}

impl IsoType {
    /// The offset of the volume in an image of this layout.
    pub open spec fn spec_gdfx_volume_offset(self) -> u64 {
        match self {
            IsoType::Xgd3 => 0x2080000,
            IsoType::Xgd2 => 0xfd90000,
            IsoType::Xgd1 => 0x18300000,
            IsoType::Xsf => 0,
        }
    }

    /// The offset of the volume in an image of this layout.
    pub fn gdfx_volume_offset(self) -> (offset: u64)
        ensures
            offset == self.spec_gdfx_volume_offset(),
    {
        match self {
            IsoType::Xgd3 => 0x2080000,
            IsoType::Xgd2 => 0xfd90000,
            IsoType::Xgd1 => 0x18300000,
            IsoType::Xsf => 0,
        }
    }

    /// The place of the layout in the order in which the layouts are tried:
    /// Xgd3 first, then Xgd2, Xgd1 and Xsf.
    pub open spec fn priority(self) -> int {
        match self {
            IsoType::Xgd3 => 0,
            IsoType::Xgd2 => 1,
            IsoType::Xgd1 => 2,
            IsoType::Xsf => 3,
        }
    }

    /// The layouts in the order in which they are tried.
    pub fn supported_types() -> (types: [IsoType; 4])
        ensures
            types@ == seq![IsoType::Xgd3, IsoType::Xgd2, IsoType::Xgd1, IsoType::Xsf],
    {
        let types = [IsoType::Xgd3, IsoType::Xgd2, IsoType::Xgd1, IsoType::Xsf];
        assert(types@ =~= seq![IsoType::Xgd3, IsoType::Xgd2, IsoType::Xgd1, IsoType::Xsf]);
        types
    }
}

/// Why no volume was read.
#[derive(Clone, Copy, Debug, PartialEq, Eq, Structural)]
pub enum FsTryReadError {
    /// The signature is not there.
    NotFound,
    /// The signature is there and the descriptor could not be read.
    Io(Error),
}

/// What a volume is: the image, where the volume starts in it, how many
/// bytes follow, and what its descriptor says.
pub ghost struct FsView {
    pub image: Seq<u8>,
    pub offset: u64,
    pub size: u64,
    pub root_dir_extent: FsExtent,
    pub creation_time: u64,
}

/// The volume at `offset` of `image`. Without the signature, there is none;
/// behind the signature stand the root directory's sector and size in four
/// bytes each and the time of creation in eight, low bytes first.
pub open spec fn volume_at(image: Seq<u8>, offset: int) -> Result<FsView, FsTryReadError> {
    if !has_magic(image, offset) {
        Err(FsTryReadError::NotFound)
    } else if !in_bounds(image, offset + 0x10014, 16) {
        Err(FsTryReadError::Io(Error::UnexpectedEof))
    } else {
        Ok(
            FsView {
                image,
                offset: offset as u64,
                size: (image.len() - offset) as u64,
                root_dir_extent: FsExtent {
                    sector: le_value(bytes_at(image, offset + 0x10014, 4)) as u32,
                    size: le_value(bytes_at(image, offset + 0x10018, 4)) as u32,
                },
                creation_time: le_value(bytes_at(image, offset + 0x1001c, 8)) as u64,
            },
        )
    }
}

/// `first`, or `second` where `first` found no signature.
pub open spec fn or_else(
    first: Result<FsView, FsTryReadError>,
    second: Result<FsView, FsTryReadError>,
) -> Result<FsView, FsTryReadError> {
    if first == Err::<FsView, FsTryReadError>(FsTryReadError::NotFound) {
        second
    } else {
        first
    }
}

/// The volume of `image`: that of the first layout, in the order Xgd3, Xgd2,
/// Xgd1, Xsf, at whose offset the signature stands.
pub open spec fn volume_of(image: Seq<u8>) -> Result<FsView, FsTryReadError> {
    or_else(
        volume_at(image, 0x2080000),
        or_else(
            volume_at(image, 0xfd90000),
            or_else(volume_at(image, 0x18300000), volume_at(image, 0)),
        ),
    )
}

/// The volume of an image is that of the layout whose signature the image
/// carries, unless a layout that is tried before it carries its signature
/// too: no layout that is tried later, and none without its signature, is
/// taken in its place.
pub proof fn lemma_volume_of_first_match(image: Seq<u8>, iso_type: IsoType)
    requires
        has_magic(image, iso_type.spec_gdfx_volume_offset() as int),
        forall|other: IsoType|
            other.priority() < iso_type.priority() ==> !has_magic(
                image,
                other.spec_gdfx_volume_offset() as int,
            ),
    ensures
        volume_of(image) == volume_at(image, iso_type.spec_gdfx_volume_offset() as int),
        volume_of(image) != Err::<FsView, FsTryReadError>(FsTryReadError::NotFound),
{
    assert(IsoType::Xgd3.priority() == 0);
    assert(IsoType::Xgd2.priority() == 1);
    assert(IsoType::Xgd1.priority() == 2);
    assert(IsoType::Xsf.priority() == 3);
}

/// The filesystem of one volume of an image.
#[derive(Clone, Copy, Debug)]
pub struct Fs<'a> {
    reader: &'a [u8],
    offset: u64,
    size: u64,
    root_dir_extent: FsExtent,
    creation_time: u64,
}

impl<'a> View for Fs<'a> {
    type V = FsView;

    closed spec fn view(&self) -> FsView {
        FsView {
            image: self.reader@,
            offset: self.offset,
            size: self.size,
            root_dir_extent: self.root_dir_extent,
            creation_time: self.creation_time,
        }
    }
}

impl<'a> Fs<'a> {
    /// Where the volume starts in the image.
    pub fn offset(&self) -> (offset: u64)
        ensures
            offset == self@.offset,
    {
        self.offset
    }

    /// How many bytes of the image the volume has.
    pub fn size(&self) -> (size: u64)
        ensures
            size == self@.size,
    {
        self.size
    }

    /// The image.
    pub fn borrow_reader(&self) -> (reader: &'a [u8])
        ensures
            reader@ == self@.image,
    {
        self.reader
    }

    /// The image from the start of sector `sector` of the volume on.
    pub fn seek_to_sector(&self, sector: u32) -> (reader: &'a [u8])
        ensures
            reader@ == suffix(self@.image, self@.offset + sector * 2048),
    {
        let len: usize = self.reader.len();
        match self.offset.checked_add(sector as u64 * SECTOR_SIZE) {
            Some(pos) => slice_from(self.reader, pos),
            None => {
                let rest = slice_from(self.reader, u64::MAX);
                assert(rest@ =~= Seq::<u8>::empty());
                rest
            },
        }
    }

    /// The image from the start of the volume on.
    pub fn seek_to_start(&self) -> (reader: &'a [u8])
        ensures
            reader@ == suffix(self@.image, self@.offset as int),
    {
        slice_from(self.reader, self.offset)
    }

    /// Reads the volume of an image. An image without a volume is an error
    /// like any other.
    pub fn read_from_iso(reader: &'a [u8]) -> (result: Result<Fs<'a>, Error>)
        ensures
            match result {
                Ok(fs) => volume_of(reader@) == Ok::<FsView, FsTryReadError>(fs@),
                Err(e) => match volume_of(reader@) {
                    Ok(_) => false,
                    Err(FsTryReadError::NotFound) => e == Error::MagicNotFound,
                    Err(FsTryReadError::Io(io)) => e == io,
                },
            },
    {
        match Self::try_read_from_iso(reader) {
            Ok(fs) => Ok(fs),
            Err(FsTryReadError::NotFound) => Err(Error::MagicNotFound),
            Err(FsTryReadError::Io(e)) => Err(e),
        }
    }

    /// Reads the volume of an image: that of the first layout, in the order
    /// Xgd3, Xgd2, Xgd1, Xsf, at whose offset the signature stands.
    pub fn try_read_from_iso(reader: &'a [u8]) -> (result: Result<Fs<'a>, FsTryReadError>)
        ensures
            match result {
                Ok(fs) => volume_of(reader@) == Ok::<FsView, FsTryReadError>(fs@),
                Err(e) => volume_of(reader@) == Err::<FsView, FsTryReadError>(e),
            },
    {
        match Self::try_read_from_offset(reader, IsoType::Xgd3.gdfx_volume_offset()) {
            Err(FsTryReadError::NotFound) => {},
            other => {
                return other;
            },
        }
        match Self::try_read_from_offset(reader, IsoType::Xgd2.gdfx_volume_offset()) {
            Err(FsTryReadError::NotFound) => {},
            other => {
                return other;
            },
        }
        match Self::try_read_from_offset(reader, IsoType::Xgd1.gdfx_volume_offset()) {
            Err(FsTryReadError::NotFound) => {},
            other => {
                return other;
            },
        }
        Self::try_read_from_offset(reader, IsoType::Xsf.gdfx_volume_offset())
    }

    /// Reads the volume that starts at `offset` of an image.
    pub fn try_read_from_offset(reader: &'a [u8], offset: u64) -> (result: Result<
        Fs<'a>,
        FsTryReadError,
    >)
        ensures
            match result {
                Ok(fs) => volume_at(reader@, offset as int) == Ok::<FsView, FsTryReadError>(fs@),
                Err(e) => volume_at(reader@, offset as int) == Err::<FsView, FsTryReadError>(e),
            },
    {
        let len: usize = reader.len();
        let descriptor: u64 = match offset.checked_add(DESCRIPTOR_OFFSET) {
            Some(pos) => pos,
            None => {
                return Err(FsTryReadError::NotFound);
            },
        };
        let actual_magic = match read_bytes(reader, descriptor, 20) {
            Ok(bytes) => bytes,
            Err(_) => {
                return Err(FsTryReadError::NotFound);
            },
        };
        assert(MAGIC_BYTES@ =~= magic());
        if !bytes_equal(actual_magic, MAGIC_BYTES.as_slice()) {
            return Err(FsTryReadError::NotFound);
        }
        match read_bytes(reader, descriptor + 20, 16) {
            Ok(_) => {},
            Err(e) => {
                return Err(FsTryReadError::Io(e));
            },
        }
        let sector: u32 = match read_u32_le_at(reader, descriptor + 20) {
            Ok(v) => v,
            Err(e) => {
                return Err(FsTryReadError::Io(e));
            },
        };
        let size: u32 = match read_u32_le_at(reader, descriptor + 24) {
            Ok(v) => v,
            Err(e) => {
                return Err(FsTryReadError::Io(e));
            },
        };
        let creation_time: u64 = match read_u64_le_at(reader, descriptor + 28) {
            Ok(v) => v,
            Err(e) => {
                return Err(FsTryReadError::Io(e));
            },
        };
        Ok(
            Fs {
                reader,
                offset,
                size: len as u64 - offset,
                root_dir_extent: FsExtent { sector, size },
                creation_time,
            },
        )
    }

    /// The root directory.
    pub fn root_dir(&self) -> (dir: Dir)
        ensures
            dir.extent == self@.root_dir_extent,
    {
        Dir { extent: self.root_dir_extent }
    }
}

/// Where an iteration over a directory stands: the sectors that are left,
/// the first of them the one in reading, and the position of the next entry.
pub ghost struct DirIterView {
    pub image: Seq<u8>,
    pub offset: int,
    pub extent: FsExtent,
    pub pos: int,
}

/// The next entry of a directory and where the iteration stands behind it.
/// Behind the mark of the end of one sector the next sector is read, as
/// long as the extent has one. `None` is the end of the directory.
pub open spec fn next_entry(image: Seq<u8>, offset: int, extent: FsExtent, pos: int) -> Result<
    (Option<EntryView>, FsExtent, int),
    Error,
>
    decreases extent.size,
{
    if extent.size == 0 {
        Ok((None, extent, pos))
    } else {
        match entry_at(image, pos) {
            Err(e) => Err(e),
            Ok(Some((entry, end))) => Ok((Some(entry), extent, align4(end))),
            Ok(None) => if extent.sector < u32::MAX {
                let rest = extent.spec_advance_start();
                next_entry(image, offset, rest, offset + rest.sector * 2048)
            } else if extent.size <= 2048 {
                Ok((None, FsExtent { sector: extent.sector, size: 0 }, pos))
            } else {
                Err(Error::InvalidData)
            },
        }
    }
}

/// An iteration over the entries of a directory.
pub struct DirIter<'a> {
    reader: &'a [u8],
    offset: u64,
    extent: FsExtent,
    at_sector_start: bool,
    end: u64,
}

impl<'a> View for DirIter<'a> {
    type V = DirIterView;

    closed spec fn view(&self) -> DirIterView {
        DirIterView {
            image: self.reader@,
            offset: self.offset as int,
            extent: self.extent,
            pos: if self.at_sector_start {
                self.offset + self.extent.sector * 2048
            } else {
                align4(self.end as int)
            },
        }
    }
}

impl Dir {
    /// An iteration over the entries of the directory, from its first
    /// sector on.
    pub fn read_entries<'a>(self, fs: &Fs<'a>) -> (iter: DirIter<'a>)
        ensures
            iter@ == (DirIterView {
                image: fs@.image,
                offset: fs@.offset as int,
                extent: self.extent,
                pos: fs@.offset + self.extent.sector * 2048,
            }),
    {
        DirIter::new(fs, self.extent)
    }
}

impl<'a> DirIter<'a> {
    /// An iteration over the entries in `extent`, from its first sector on.
    pub fn new(fs: &Fs<'a>, extent: FsExtent) -> (iter: DirIter<'a>)
        ensures
            iter@ == (DirIterView {
                image: fs@.image,
                offset: fs@.offset as int,
                extent,
                pos: fs@.offset + extent.sector * 2048,
            }),
    {
        DirIter { reader: fs.reader, offset: fs.offset, extent, at_sector_start: true, end: 0 }
    }

    /// The next entry, or `None` at the end of the directory.
    pub fn try_next(&mut self) -> (result: Result<Option<DirEntry>, Error>)
        ensures
            final(self)@.image == old(self)@.image,
            final(self)@.offset == old(self)@.offset,
            match result {
                Ok(entry) => next_entry(
                    old(self)@.image,
                    old(self)@.offset,
                    old(self)@.extent,
                    old(self)@.pos,
                ) == Ok::<(Option<EntryView>, FsExtent, int), Error>(
                    (
                        match entry {
                            Some(e) => Some(e@),
                            None => None,
                        },
                        final(self)@.extent,
                        final(self)@.pos,
                    ),
                ),
                Err(e) => next_entry(
                    old(self)@.image,
                    old(self)@.offset,
                    old(self)@.extent,
                    old(self)@.pos,
                ) == Err::<(Option<EntryView>, FsExtent, int), Error>(e) && next_entry(
                    final(self)@.image,
                    final(self)@.offset,
                    final(self)@.extent,
                    final(self)@.pos,
                ) == Err::<(Option<EntryView>, FsExtent, int), Error>(e),
            },
    {
        let len: usize = self.reader.len();
        while !self.extent.is_empty()
            invariant
                len == self.reader@.len(),
                self@.image == old(self)@.image,
                self@.offset == old(self)@.offset,
                next_entry(old(self)@.image, old(self)@.offset, old(self)@.extent, old(self)@.pos)
                    == next_entry(self@.image, self@.offset, self@.extent, self@.pos),
            decreases self.extent.size,
        {
            let pos: Option<u64> = if self.at_sector_start {
                self.offset.checked_add(self.extent.sector as u64 * SECTOR_SIZE)
            } else {
                self.end.checked_add((4 - self.end % 4) % 4)
            };
            let pos: u64 = match pos {
                Some(pos) => pos,
                None => {
                    return Err(Error::UnexpectedEof);
                },
            };
            match DirEntry::try_read(self.reader, pos) {
                Err(e) => {
                    return Err(e);
                },
                Ok(Some((entry, end))) => {
                    self.at_sector_start = false;
                    self.end = end;
                    return Ok(Some(entry));
                },
                Ok(None) => {
                    if self.extent.sector < u32::MAX {
                        self.extent = self.extent.advance_start();
                        self.at_sector_start = true;
                    } else if self.extent.size <= 2048 {
                        self.extent = FsExtent { sector: self.extent.sector, size: 0 };
                        return Ok(None);
                    } else {
                        return Err(Error::InvalidData);
                    }
                },
            }
        }
        Ok(None)
    }
}

/// What an iteration that stands at `pos` gives once it has met the mark
/// of the end of the sector that it reads: the entries of the sectors that
/// are left.
pub open spec fn iterated_behind_end(image: Seq<u8>, offset: int, extent: FsExtent) -> Result<
    Seq<EntryView>,
    Error,
>
    decreases extent.size, 0int,
{
    if extent.size == 0 {
        Ok(Seq::empty())
    } else if extent.sector < u32::MAX {
        let rest = extent.spec_advance_start();
        iterated(image, offset, rest, offset + rest.sector * 2048)
    } else if extent.size <= 2048 {
        Ok(Seq::empty())
    } else {
        Err(Error::InvalidData)
    }
}

/// All the entries that an iteration gives from where it stands, one call
/// of `try_next` after the other, up to the end of the directory or to the
/// first error.
pub open spec fn iterated(image: Seq<u8>, offset: int, extent: FsExtent, pos: int) -> Result<
    Seq<EntryView>,
    Error,
>
    decreases extent.size, image.len() + 5 - pos,
{
    if extent.size == 0 {
        Ok(Seq::empty())
    } else {
        match entry_at(image, pos) {
            Err(e) => Err(e),
            Ok(Some((entry, end))) => prepend(
                seq![entry],
                iterated(image, offset, extent, align4(end)),
            ),
            Ok(None) => iterated_behind_end(image, offset, extent),
        }
    }
}

/// One call of `try_next` gives the first of the entries that the
/// iteration gives in all, and leaves the iteration where it gives the
/// others; it gives none where there is none, and fails where the
/// iteration fails before its first entry.
pub proof fn lemma_iterated_step(image: Seq<u8>, offset: int, extent: FsExtent, pos: int)
    ensures
        match next_entry(image, offset, extent, pos) {
            Err(e) => iterated(image, offset, extent, pos) == Err::<Seq<EntryView>, Error>(e),
            Ok((None, rest, next)) => iterated(image, offset, extent, pos) == Ok::<
                Seq<EntryView>,
                Error,
            >(Seq::empty()) && rest.size == 0,
            Ok((Some(entry), rest, next)) => iterated(image, offset, extent, pos) == prepend(
                seq![entry],
                iterated(image, offset, rest, next),
            ),
        },
    decreases extent.size,
{
    if extent.size != 0 {
        match entry_at(image, pos) {
            Ok(None) => {
                assert(iterated(image, offset, extent, pos) == iterated_behind_end(
                    image,
                    offset,
                    extent,
                ));
                if extent.sector < u32::MAX {
                    let rest = extent.spec_advance_start();
                    lemma_iterated_step(image, offset, rest, offset + rest.sector * 2048);
                    assert(next_entry(image, offset, extent, pos) == next_entry(
                        image,
                        offset,
                        rest,
                        offset + rest.sector * 2048,
                    ));
                    assert(iterated_behind_end(image, offset, extent) == iterated(
                        image,
                        offset,
                        rest,
                        offset + rest.sector * 2048,
                    ));
                }
            },
            Ok(Some((entry, end))) => {
                assert(next_entry(image, offset, extent, pos) == Ok::<
                    (Option<EntryView>, FsExtent, int),
                    Error,
                >((Some(entry), extent, align4(end))));
            },
            Err(e) => {},
        }
    }
}

/// Within a sector an iteration gives the entries of the sector from where
/// it stands, and then what it gives behind the mark of the end.
proof fn lemma_iterated_sector(image: Seq<u8>, offset: int, extent: FsExtent, pos: int)
    requires
        extent.size > 0,
    ensures
        iterated(image, offset, extent, pos) == match sector_entries(image, pos) {
            Err(e) => Err::<Seq<EntryView>, Error>(e),
            Ok(entries) => prepend(entries, iterated_behind_end(image, offset, extent)),
        },
    decreases image.len() + 5 - pos,
{
    match entry_at(image, pos) {
        Ok(Some((entry, end))) => {
            lemma_iterated_sector(image, offset, extent, align4(end));
            match sector_entries(image, align4(end)) {
                Ok(rest) => {
                    lemma_prepend_twice(
                        seq![entry],
                        rest,
                        iterated_behind_end(image, offset, extent),
                    );
                },
                Err(_) => {},
            }
        },
        Ok(None) => {
            match iterated_behind_end(image, offset, extent) {
                Ok(all) => {
                    assert(Seq::<EntryView>::empty() + all =~= all);
                },
                Err(_) => {},
            }
        },
        Err(_) => {},
    }
}

/// Iteration and reading at once give the same entries in the same order,
/// and fail alike: what an iteration over an extent gives, from the first
/// sector of the extent on, is what the directory in that extent holds. The
/// extent must end within the sectors that 32 bits can number.
pub proof fn lemma_iteration_is_enumeration(image: Seq<u8>, offset: int, extent: FsExtent)
    requires
        extent.sector * 2048 + extent.size <= 0x1_0000_0000 * 2048,
    ensures
        iterated(image, offset, extent, offset + extent.sector * 2048) == dir_entries(
            image,
            offset + extent.sector * 2048,
            extent.size as int,
        ),
    decreases extent.size,
{
    let pos = offset + extent.sector * 2048;
    if extent.size > 0 {
        lemma_iterated_sector(image, offset, extent, pos);
        let left: int = if extent.size > 2048 {
            extent.size - 2048
        } else {
            0
        };
        if extent.sector < u32::MAX {
            let rest = extent.spec_advance_start();
            lemma_iteration_is_enumeration(image, offset, rest);
            assert(rest.size == left);
            assert(offset + rest.sector * 2048 == pos + 2048);
            assert(iterated_behind_end(image, offset, extent) == dir_entries(
                image,
                pos + 2048,
                left,
            ));
        } else {
            assert(left == 0);
            assert(iterated_behind_end(image, offset, extent) == dir_entries(
                image,
                pos + 2048,
                left,
            ));
        }
    }
}

} // verus!
