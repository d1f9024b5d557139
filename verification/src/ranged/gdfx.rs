//! The filesystem of a volume, read by ranges.

use crate::byte_order::le_value;
use crate::error::Error;
use crate::iso_fs::{
    dir_entries, entry_views, has_magic, magic, read_dir_entries, DirEntryAttrs, EntryView,
    ATTR_DIRECTORY,
};
use crate::ranged::io::{RangeRef, ReadFromRange};
use crate::stream::{
    bytes_at, bytes_equal, in_bounds, read_bytes, read_u32_le_at, read_u64_le_at,
};
use core::ops::Range;
use vstd::prelude::*;
use vstd::slice::slice_subrange;

pub use crate::iso_fs::{DESCRIPTOR_OFFSET, MAGIC_BYTES, SECTOR_SIZE};

verus! {

/// A run of bytes in a volume: the sector where it starts and its size.
#[derive(Clone, Copy, Debug, PartialEq, Eq, Structural)]
pub struct Extent {
    /// The first sector.
    pub sector: u32,
    /// The size in bytes.
    pub size: u32,
}

impl Extent {
    /// The bytes of the extent, counted from the start of the volume.
    pub fn bytes(&self) -> (range: Range<u64>)
        ensures
            range.start == 2048 * self.sector,
            range.end == 2048 * self.sector + self.size,
    {
        let start: u64 = SECTOR_SIZE * self.sector as u64;
        let end: u64 = start + self.size as u64;
        start..end
    }
}

/// What the descriptor of a volume says.
#[derive(Clone, Copy, Debug, PartialEq, Eq, Structural)]
pub struct FileSystem {
    pub root_dir: Extent,
    pub creation_time: u64,
}

impl FileSystem {
    /// The range of the root directory, in the volume with the range
    /// `fs_ref`.
    pub fn root_dir(&self, fs_ref: RangeRef<FileSystem>) -> (dir: RangeRef<Dir>)
        requires
            fs_ref.spec_offset() + 2048 * self.root_dir.sector + self.root_dir.size <= u64::MAX,
        ensures
            dir.spec_offset() == fs_ref.spec_offset() + 2048 * self.root_dir.sector,
            dir.spec_length() == self.root_dir.size,
    {
        fs_ref.slice(self.root_dir.bytes())
    }

    /// The descriptor of the volume that starts at `off` of `r`: behind the
    /// signature, 32 sectors in, stand sector and size of the root directory
    /// in four bytes each and the time of creation in eight, low bytes
    /// first.
    pub open spec fn at(r: Seq<u8>, off: u64) -> Result<FileSystem, Error> {
        if !in_bounds(r, off + 0x10000, 20) {
            Err(Error::UnexpectedEof)
        } else if !has_magic(r, off as int) {
            Err(Error::MagicNotFound)
        } else if !in_bounds(r, off + 0x10014, 16) {
            Err(Error::UnexpectedEof)
        } else {
            Ok(
                FileSystem {
                    root_dir: Extent {
                        sector: le_value(bytes_at(r, off + 0x10014, 4)) as u32,
                        size: le_value(bytes_at(r, off + 0x10018, 4)) as u32,
                    },
                    creation_time: le_value(bytes_at(r, off + 0x1001c, 8)) as u64,
                },
            )
        }
    }
}

/// A directory: its entries, in the order in which they stand.
pub struct Dir {
    pub entries: Vec<DirEntry>,
}

/// A directory entry as it stands in the image.
#[derive(Clone, Copy, Debug)]
pub struct DirEntry {
    pub attrs: DirEntryAttrs,
    pub name_buf: [u8; 256],
    pub name_len: u8,
    pub data: Extent,
    pub subtree_left: u16,
    pub subtree_right: u16,
}

impl View for DirEntry {
    type V = EntryView;

    open spec fn view(&self) -> EntryView {
        EntryView {
            subtree_left: self.subtree_left,
            subtree_right: self.subtree_right,
            sector: self.data.sector,
            size: self.data.size,
            attrs: self.attrs.spec_bits(),
            name: self.name_buf@.take(self.name_len as int),
        }
    }
}

impl DirEntry {
    /// The name: the first `name_len` bytes of the buffer.
    pub fn name(&self) -> (name: &[u8])
        ensures
            name@ == self@.name,
    {
        slice_subrange(self.name_buf.as_slice(), 0, self.name_len as usize)
    }

    /// The range of the data of a file, in the volume with the range
    /// `fs_ref`; `None` for a directory.
    pub fn as_file<T>(&self, fs_ref: RangeRef<FileSystem>) -> (file: Option<RangeRef<T>>)
        requires
            fs_ref.spec_offset() + 2048 * self.data.sector + self.data.size <= u64::MAX,
        ensures
            match file {
                Some(range) => self@.attrs & ATTR_DIRECTORY != ATTR_DIRECTORY && range.spec_offset()
                    == fs_ref.spec_offset() + 2048 * self.data.sector && range.spec_length()
                    == self.data.size,
                None => self@.attrs & ATTR_DIRECTORY == ATTR_DIRECTORY,
            },
    {
        if self.attrs.contains(ATTR_DIRECTORY) {
            None
        } else {
            Some(fs_ref.slice(self.data.bytes()))
        }
    }

    /// The range of the entries of a directory, in the volume with the
    /// range `fs_ref`; `None` for a file.
    pub fn as_dir(&self, fs_ref: RangeRef<FileSystem>) -> (dir: Option<RangeRef<Dir>>)
        requires
            fs_ref.spec_offset() + 2048 * self.data.sector + self.data.size <= u64::MAX,
        ensures
            match dir {
                Some(range) => self@.attrs & ATTR_DIRECTORY == ATTR_DIRECTORY && range.spec_offset()
                    == fs_ref.spec_offset() + 2048 * self.data.sector && range.spec_length()
                    == self.data.size,
                None => self@.attrs & ATTR_DIRECTORY != ATTR_DIRECTORY,
            },
    {
        if self.attrs.contains(ATTR_DIRECTORY) {
            Some(fs_ref.slice(self.data.bytes()))
        } else {
            None
        }
    }
}

/// The entries in a vector, as what they are.
pub open spec fn views(entries: Seq<DirEntry>) -> Seq<EntryView> {
    Seq::new(entries.len(), |i: int| entries[i]@)
}

impl ReadFromRange for FileSystem {
    /// The descriptor at `off`, or why there is none.
    open spec fn parsed(r: Seq<u8>, off: u64, len: u64, result: Result<Self, Error>) -> bool {
        result == FileSystem::at(r, off)
    }

    /// Reads the descriptor of the volume that starts at `off` of `r`.
    fn read_from_range(r: &[u8], off: u64, len: u64) -> (result: Result<Self, Error>) {
        let total: usize = r.len();
        let descriptor: u64 = match off.checked_add(DESCRIPTOR_OFFSET) {
            Some(pos) => pos,
            None => {
                return Err(Error::UnexpectedEof);
            },
        };
        let found = match read_bytes(r, descriptor, 20) {
            Ok(found) => found,
            Err(e) => {
                return Err(e);
            },
        };
        assert(MAGIC_BYTES@ =~= magic());
        if !bytes_equal(found, MAGIC_BYTES.as_slice()) {
            return Err(Error::MagicNotFound);
        }
        match read_bytes(r, descriptor + 20, 16) {
            Ok(_) => {},
            Err(e) => {
                return Err(e);
            },
        }
        let sector: u32 = match read_u32_le_at(r, descriptor + 20) {
            Ok(v) => v,
            Err(e) => {
                return Err(e);
            },
        };
        let size: u32 = match read_u32_le_at(r, descriptor + 24) {
            Ok(v) => v,
            Err(e) => {
                return Err(e);
            },
        };
        let creation_time: u64 = match read_u64_le_at(r, descriptor + 28) {
            Ok(v) => v,
            Err(e) => {
                return Err(e);
            },
        };
        Ok(FileSystem { root_dir: Extent { sector, size }, creation_time })
    }
}

impl ReadFromRange for Dir {
    /// The entries of the directory of `len` bytes at `off`, sector by
    /// sector, or the error that reading them meets.
    open spec fn parsed(r: Seq<u8>, off: u64, len: u64, result: Result<Self, Error>) -> bool {
        match result {
            Ok(dir) => dir_entries(r, off as int, len as int) == Ok::<Seq<EntryView>, Error>(
                views(dir.entries@),
            ),
            Err(e) => dir_entries(r, off as int, len as int) == Err::<Seq<EntryView>, Error>(e),
        }
    }

    /// Reads the entries of the directory of `len` bytes at `off` of `r`.
    fn read_from_range(r: &[u8], off: u64, len: u64) -> (result: Result<Self, Error>) {
        let raw = match read_dir_entries(r, off, len) {
            Ok(raw) => raw,
            Err(e) => {
                return Err(e);
            },
        };
        let n: usize = raw.len();
        let mut entries: Vec<DirEntry> = Vec::new();
        let mut i: usize = 0;
        while i < n
            invariant
                i <= n,
                n == raw@.len(),
                entries@.len() == i,
                forall|k: int| 0 <= k < i ==> (#[trigger] entries@[k])@ == raw@[k]@,
            decreases n - i,
        {
            let e = &raw[i];
            entries.push(
                DirEntry {
                    attrs: e.attrs,
                    name_buf: e.name_buf,
                    name_len: e.name_len,
                    data: Extent { sector: e.data_extent.sector, size: e.data_extent.size },
                    subtree_left: e.subtree_left,
                    subtree_right: e.subtree_right,
                },
            );
            i += 1;
        }
        assert(views(entries@) =~= entry_views(raw@));
        Ok(Dir { entries })
    }
}

/// How many directories deep a walk goes. A directory below that is an
/// error.
pub const MAX_WALK_DEPTH: usize = 128;

/// What a walk finds: an entry, and the names from the root of the walk
/// down to it, its own being the last.
pub type WalkItem = (Vec<Vec<u8>>, DirEntry);

/// The names in a path.
pub open spec fn path_view(path: Seq<Vec<u8>>) -> Seq<Seq<u8>> {
    Seq::new(path.len(), |i: int| path[i]@)
}

/// What the items of a walk are.
pub open spec fn items_view(items: Seq<WalkItem>) -> Seq<(Seq<Seq<u8>>, EntryView)> {
    Seq::new(items.len(), |i: int| (path_view(items[i].0@), items[i].1@))
}

/// What a walk finds in the directory of `size` bytes at `pos` and below
/// it, down to `depth` directories below it: each entry in the order in
/// which it stands, and behind each directory what the walk finds in it.
/// `fs_off` is where the volume starts, and `prefix` the path of the
/// directory.
pub open spec fn walked(
    image: Seq<u8>,
    fs_off: int,
    pos: int,
    size: int,
    prefix: Seq<Seq<u8>>,
    depth: nat,
) -> Result<Seq<(Seq<Seq<u8>>, EntryView)>, Error>
    decreases depth, 2int, 0int,
{
    match dir_entries(image, pos, size) {
        Err(e) => Err(e),
        Ok(entries) => walked_entries(image, fs_off, entries, prefix, depth),
    }
}

/// What a walk finds at the entries `entries` of one directory and below
/// them. The first that cannot be read decides the error.
pub open spec fn walked_entries(
    image: Seq<u8>,
    fs_off: int,
    entries: Seq<EntryView>,
    prefix: Seq<Seq<u8>>,
    depth: nat,
) -> Result<Seq<(Seq<Seq<u8>>, EntryView)>, Error>
    decreases depth, 1int, entries.len(),
{
    if entries.len() == 0 {
        Ok(Seq::empty())
    } else {
        match walked_entries(image, fs_off, entries.drop_last(), prefix, depth) {
            Err(e) => Err(e),
            Ok(first) => match walked_entry(image, fs_off, entries.last(), prefix, depth) {
                Err(e) => Err(e),
                Ok(items) => Ok(first + items),
            },
        }
    }
}

/// What a walk finds at the entry `entry` and below it. A directory where
/// `depth` is used up is an error.
pub open spec fn walked_entry(
    image: Seq<u8>,
    fs_off: int,
    entry: EntryView,
    prefix: Seq<Seq<u8>>,
    depth: nat,
) -> Result<Seq<(Seq<Seq<u8>>, EntryView)>, Error>
    decreases depth, 0int, 0int,
{
    let path = prefix.push(entry.name);
    if entry.attrs & ATTR_DIRECTORY != ATTR_DIRECTORY {
        Ok(seq![(path, entry)])
    } else if depth == 0 {
        Err(Error::DirectoryTooDeep)
    } else {
        match walked(
            image,
            fs_off,
            fs_off + 2048 * entry.sector,
            entry.size as int,
            path,
            (depth - 1) as nat,
        ) {
            Err(e) => Err(e),
            Ok(below) => Ok(seq![(path, entry)] + below),
        }
    }
}

/// Entries that fail within the first `k` fail as a whole, and in the same
/// way.
proof fn lemma_walked_entries_fail(
    image: Seq<u8>,
    fs_off: int,
    entries: Seq<EntryView>,
    prefix: Seq<Seq<u8>>,
    k: int,
    depth: nat,
)
    requires
        0 <= k <= entries.len(),
        walked_entries(image, fs_off, entries.take(k), prefix, depth) is Err,
    ensures
        walked_entries(image, fs_off, entries, prefix, depth) == walked_entries(
            image,
            fs_off,
            entries.take(k),
            prefix,
            depth,
        ),
    decreases entries.len() - k,
{
    if k < entries.len() {
        assert(entries.take(k + 1).drop_last() =~= entries.take(k));
        lemma_walked_entries_fail(image, fs_off, entries, prefix, k + 1, depth);
    } else {
        assert(entries.take(k) =~= entries);
    }
}

/// A copy of `path` with `name` behind it.
pub fn path_with(path: &Vec<Vec<u8>>, name: &[u8]) -> (longer: Vec<Vec<u8>>)
    ensures
        path_view(longer@) == path_view(path@).push(name@),
{
    let mut longer: Vec<Vec<u8>> = Vec::new();
    let n: usize = path.len();
    let mut i: usize = 0;
    while i < n
        invariant
            i <= n,
            n == path@.len(),
            longer@.len() == i,
            forall|k: int| 0 <= k < i ==> (#[trigger] longer@[k])@ == path@[k]@,
        decreases n - i,
    {
        let mut part: Vec<u8> = Vec::new();
        part.extend_from_slice(path[i].as_slice());
        assert(part@ =~= path@[i as int]@);
        longer.push(part);
        i += 1;
    }
    let mut last: Vec<u8> = Vec::new();
    last.extend_from_slice(name);
    assert(last@ =~= name@);
    longer.push(last);
    assert(path_view(longer@) =~= path_view(path@).push(name@));
    longer
}

/// Walks the directory of `size` bytes at `pos` and what is below it, and
/// appends to `items` what it finds.
fn walk_dir(
    r: &[u8],
    fs_off: u64,
    pos: u64,
    size: u64,
    path: &Vec<Vec<u8>>,
    depth: usize,
    items: &mut Vec<WalkItem>,
) -> (result: Result<(), Error>)
    ensures
        match result {
            Ok(()) => walked(
                r@,
                fs_off as int,
                pos as int,
                size as int,
                path_view(path@),
                depth as nat,
            ) is Ok && items_view(final(items)@) == items_view(old(items)@) + walked(
                r@,
                fs_off as int,
                pos as int,
                size as int,
                path_view(path@),
                depth as nat,
            )->Ok_0,
            Err(e) => walked(
                r@,
                fs_off as int,
                pos as int,
                size as int,
                path_view(path@),
                depth as nat,
            ) == Err::<Seq<(Seq<Seq<u8>>, EntryView)>, Error>(e),
        },
    decreases depth,
{
    let total: usize = r.len();
    let dir = match Dir::read_from_range(r, pos, size) {
        Ok(dir) => dir,
        Err(e) => {
            return Err(e);
        },
    };
    let ghost entries = views(dir.entries@);
    let ghost prefix = path_view(path@);
    let ghost found: Seq<(Seq<Seq<u8>>, EntryView)> = Seq::empty();
    let n: usize = dir.entries.len();
    let mut k: usize = 0;
    assert(entries.take(0) =~= Seq::<EntryView>::empty());
    assert(items_view(items@) =~= items_view(old(items)@) + found);
    while k < n
        invariant
            k <= n,
            n == dir.entries@.len(),
            total == r@.len(),
            entries == views(dir.entries@),
            prefix == path_view(path@),
            dir_entries(r@, pos as int, size as int) == Ok::<Seq<EntryView>, Error>(entries),
            walked_entries(r@, fs_off as int, entries.take(k as int), prefix, depth as nat) == Ok::<
                Seq<(Seq<Seq<u8>>, EntryView)>,
                Error,
            >(found),
            items_view(items@) == items_view(old(items)@) + found,
        decreases n - k,
    {
        let entry: DirEntry = dir.entries[k];
        let entry_path = path_with(path, entry.name());
        let is_dir: bool = entry.attrs.contains(ATTR_DIRECTORY);
        proof {
            assert(entries.take(k + 1).drop_last() =~= entries.take(k as int));
            assert(entries.take(k + 1).last() == entry@);
        }
        let ghost own = (path_view(entry_path@), entry@);
        let ghost before = items@;
        if !is_dir {
            items.push((entry_path, entry));
            proof {
                assert(items_view(items@) =~= items_view(before).push(own));
                assert(items_view(before).push(own) =~= items_view(old(items)@) + (found
                    + seq![own]));
                found = found + seq![own];
            }
        } else {
            if depth == 0 {
                proof {
                    assert(walked_entry(r@, fs_off as int, entry@, prefix, depth as nat) is Err);
                    assert(walked_entries(
                        r@,
                        fs_off as int,
                        entries.take(k + 1),
                        prefix,
                        depth as nat,
                    ) == Err::<Seq<(Seq<Seq<u8>>, EntryView)>, Error>(Error::DirectoryTooDeep));
                    lemma_walked_entries_fail(
                        r@,
                        fs_off as int,
                        entries,
                        prefix,
                        k + 1,
                        depth as nat,
                    );
                }
                return Err(Error::DirectoryTooDeep);
            }
            let sub_pos: Option<u64> = fs_off.checked_add(SECTOR_SIZE * entry.data.sector as u64);
            let sub_size: u64 = entry.data.size as u64;
            let ghost sub_path = path_view(entry_path@);
            let ghost below = walked(
                r@,
                fs_off as int,
                fs_off + 2048 * entry.data.sector,
                sub_size as int,
                sub_path,
                (depth - 1) as nat,
            );
            let copy = path_with(path, entry.name());
            items.push((copy, entry));
            assert(items_view(items@) =~= items_view(before).push(own));
            let walked_below: Result<(), Error> = match sub_pos {
                Some(p) => walk_dir(r, fs_off, p, sub_size, &entry_path, depth - 1, items),
                None => {
                    if sub_size > 0 {
                        Err(Error::UnexpectedEof)
                    } else {
                        assert(items_view(items@) + Seq::<(Seq<Seq<u8>>, EntryView)>::empty()
                            =~= items_view(items@));
                        Ok(())
                    }
                },
            };
            match walked_below {
                Ok(()) => {
                    proof {
                        let sub = below->Ok_0;
                        assert(items_view(items@) =~= items_view(old(items)@) + (found + (seq![own]
                            + sub)));
                        found = found + (seq![own] + sub);
                    }
                },
                Err(e) => {
                    proof {
                        assert(walked_entry(r@, fs_off as int, entry@, prefix, depth as nat)
                            == Err::<Seq<(Seq<Seq<u8>>, EntryView)>, Error>(e));
                        assert(walked_entries(
                            r@,
                            fs_off as int,
                            entries.take(k + 1),
                            prefix,
                            depth as nat,
                        ) == Err::<Seq<(Seq<Seq<u8>>, EntryView)>, Error>(e));
                        lemma_walked_entries_fail(
                            r@,
                            fs_off as int,
                            entries,
                            prefix,
                            k + 1,
                            depth as nat,
                        );
                    }
                    return Err(e);
                },
            }
        }
        k += 1;
    }
    assert(entries.take(n as int) =~= entries);
    Ok(())
}

/// Walks the directory with the range `root_ref` and all that is below it,
/// in the volume with the range `fs_ref`: each entry in the order in which
/// it stands, with the names that lead to it, and behind each directory
/// what is in it.
pub fn walk(r: &[u8], fs_ref: RangeRef<FileSystem>, root_ref: RangeRef<Dir>) -> (result: Result<
    Vec<WalkItem>,
    Error,
>)
    ensures
        match result {
            Ok(items) => walked(
                r@,
                fs_ref.spec_offset() as int,
                root_ref.spec_offset() as int,
                root_ref.spec_length() as int,
                Seq::empty(),
                MAX_WALK_DEPTH as nat,
            ) == Ok::<Seq<(Seq<Seq<u8>>, EntryView)>, Error>(items_view(items@)),
            Err(e) => walked(
                r@,
                fs_ref.spec_offset() as int,
                root_ref.spec_offset() as int,
                root_ref.spec_length() as int,
                Seq::empty(),
                MAX_WALK_DEPTH as nat,
            ) == Err::<Seq<(Seq<Seq<u8>>, EntryView)>, Error>(e),
        },
{
    let mut items: Vec<WalkItem> = Vec::new();
    let path: Vec<Vec<u8>> = Vec::new();
    assert(path_view(path@) =~= Seq::<Seq<u8>>::empty());
    assert(items_view(items@) =~= Seq::<(Seq<Seq<u8>>, EntryView)>::empty());
    match walk_dir(
        r,
        fs_ref.offset(),
        root_ref.offset(),
        root_ref.length(),
        &path,
        MAX_WALK_DEPTH,
        &mut items,
    ) {
        Ok(()) => {
            proof {
                let all = walked(
                    r@,
                    fs_ref.spec_offset() as int,
                    root_ref.spec_offset() as int,
                    root_ref.spec_length() as int,
                    Seq::empty(),
                    MAX_WALK_DEPTH as nat,
                )->Ok_0;
                assert(Seq::<(Seq<Seq<u8>>, EntryView)>::empty() + all =~= all);
            }
            Ok(items)
        },
        Err(e) => Err(e),
    }
}

} // verus!
