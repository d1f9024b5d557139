//! The tree of the directories of a volume.

use crate::error::Error;
use crate::iso::volume_descriptor::VolumeDescriptor;
use crate::iso_fs::{
    dir_entries, entry_views, read_dir_entries, DirEntry, DirEntryAttrs, EntryView, ATTR_DIRECTORY,
};
use crate::text::{string_from_utf8_lossy, utf8_lossy};
use vstd::prelude::*;
use vstd::string::StrSliceExecFns;

verus! {

/// How many directories deep the tree is read. A directory below that is an
/// error.
pub const MAX_DIRECTORY_DEPTH: usize = 128;

/// The attributes of a directory entry.
pub type DirectoryEntryAttributes = DirEntryAttrs;

/// A directory: where its entries stand, and the entries.
pub struct DirectoryTable {
    pub sector: u32,
    pub size: u32,
    pub entries: Vec<DirectoryEntry>,
}

/// A directory entry, with the directory below it where it is one.
pub struct DirectoryEntry {
    pub attributes: DirectoryEntryAttributes,
    pub name: String,
    pub name_length: u8,
    pub sector: u32,
    pub size: u32,
    pub subtree_left: u16,
    pub subtree_right: u16,
    pub subdirectory: Option<DirectoryTable>,
}

/// What a directory is.
pub ghost struct TableView {
    pub sector: u32,
    pub size: u32,
    pub entries: Seq<TreeEntryView>,
}

/// What a directory entry of the tree is.
pub ghost struct TreeEntryView {
    pub attributes: u8,
    pub name: Seq<char>,
    pub name_length: u8,
    pub sector: u32,
    pub size: u32,
    pub subtree_left: u16,
    pub subtree_right: u16,
    pub subdirectory: Option<TableView>,
}

/// What the directory `table` is.
pub open spec fn table_view(table: DirectoryTable) -> TableView
    decreases table,
{
    TableView {
        sector: table.sector,
        size: table.size,
        entries: Seq::new(
            table.entries@.len(),
            |i: int|
                if 0 <= i < table.entries@.len() {
                    entry_view(table.entries@[i])
                } else {
                    arbitrary()
                },
        ),
    }
}

/// What the entry `entry` is.
pub open spec fn entry_view(entry: DirectoryEntry) -> TreeEntryView
    decreases entry,
{
    TreeEntryView {
        attributes: entry.attributes.spec_bits(),
        name: entry.name@,
        name_length: entry.name_length,
        sector: entry.sector,
        size: entry.size,
        subtree_left: entry.subtree_left,
        subtree_right: entry.subtree_right,
        subdirectory: match entry.subdirectory {
            Some(table) => Some(table_view(table)),
            None => None,
        },
    }
}

/// The entries in a vector, as what they are.
pub open spec fn tree_entry_views(entries: Seq<DirectoryEntry>) -> Seq<TreeEntryView> {
    Seq::new(
        entries.len(),
        |i: int|
            if 0 <= i < entries.len() {
                entry_view(entries[i])
            } else {
                arbitrary()
            },
    )
}

/// Where sector `sector` of the volume starts in the image.
pub open spec fn sector_position(volume: VolumeDescriptor, sector: u32) -> int {
    sector * volume.sector_size + volume.root_offset
}

/// The directory of `size` bytes in sector `sector` of the volume, with
/// all that is below it, down to `depth` directories below it.
pub open spec fn table_at(
    image: Seq<u8>,
    volume: VolumeDescriptor,
    sector: u32,
    size: u32,
    depth: nat,
) -> Result<TableView, Error>
    decreases depth, 2int, 0int,
{
    match dir_entries(image, sector_position(volume, sector), size as int) {
        Err(e) => Err(e),
        Ok(entries) => match subtrees(image, volume, entries, depth) {
            Err(e) => Err(e),
            Ok(trees) => Ok(TableView { sector, size, entries: trees }),
        },
    }
}

/// The entries `entries` of one directory, each with what is below it. The
/// first that cannot be read decides the error.
pub open spec fn subtrees(
    image: Seq<u8>,
    volume: VolumeDescriptor,
    entries: Seq<EntryView>,
    depth: nat,
) -> Result<Seq<TreeEntryView>, Error>
    decreases depth, 1int, entries.len(),
{
    if entries.len() == 0 {
        Ok(Seq::empty())
    } else {
        match subtrees(image, volume, entries.drop_last(), depth) {
            Err(e) => Err(e),
            Ok(first) => match entry_tree(image, volume, entries.last(), depth) {
                Err(e) => Err(e),
                Ok(tree) => Ok(first.push(tree)),
            },
        }
    }
}

/// The entry `entry` with what is below it. Its name is decoded as UTF-8,
/// lossily. A directory where `depth` is used up is an error.
pub open spec fn entry_tree(
    image: Seq<u8>,
    volume: VolumeDescriptor,
    entry: EntryView,
    depth: nat,
) -> Result<TreeEntryView, Error>
    decreases depth, 0int, 0int,
{
    let plain = TreeEntryView {
        attributes: entry.attrs,
        name: utf8_lossy(entry.name),
        name_length: entry.name.len() as u8,
        sector: entry.sector,
        size: entry.size,
        subtree_left: entry.subtree_left,
        subtree_right: entry.subtree_right,
        subdirectory: None,
    };
    if entry.attrs & ATTR_DIRECTORY != ATTR_DIRECTORY {
        Ok(plain)
    } else if depth == 0 {
        Err(Error::DirectoryTooDeep)
    } else {
        match table_at(image, volume, entry.sector, entry.size, (depth - 1) as nat) {
            Err(e) => Err(e),
            Ok(table) => Ok(TreeEntryView { subdirectory: Some(table), ..plain }),
        }
    }
}

/// The code of `c` with capital letters of ASCII taken as small ones.
pub open spec fn folded(c: char) -> u32 {
    if 'A' <= c <= 'Z' {
        (c as u32 + 32) as u32
    } else {
        c as u32
    }
}

/// Whether two names are the same but for the case of their ASCII letters.
pub open spec fn same_name(a: Seq<char>, b: Seq<char>) -> bool {
    a.len() == b.len() && forall|i: int| 0 <= i < a.len() ==> folded(a[i]) == folded(b[i])
}

/// The index of the first entry from `from` on that has the name `name`.
pub open spec fn first_named(entries: Seq<TreeEntryView>, name: Seq<char>, from: int) -> Option<
    int,
>
    decreases entries.len() - from,
{
    if from < 0 || from >= entries.len() {
        None
    } else if same_name(entries[from].name, name) {
        Some(from)
    } else {
        first_named(entries, name, from + 1)
    }
}

/// An index that `first_named` gives lies in the entries, at `from` or
/// behind it, and the entry there has the name.
pub(crate) proof fn lemma_first_named(entries: Seq<TreeEntryView>, name: Seq<char>, from: int)
    requires
        first_named(entries, name, from) is Some,
    ensures
        from <= first_named(entries, name, from)->Some_0 < entries.len(),
        0 <= first_named(entries, name, from)->Some_0,
        same_name(entries[first_named(entries, name, from)->Some_0].name, name),
    decreases entries.len() - from,
{
    if 0 <= from < entries.len() && !same_name(entries[from].name, name) {
        lemma_first_named(entries, name, from + 1);
    }
}

/// The code of `c` with capital letters of ASCII taken as small ones.
pub fn fold_case(c: char) -> (code: u32)
    ensures
        code == folded(c),
{
    if 'A' <= c && c <= 'Z' {
        c as u32 + 32
    } else {
        c as u32
    }
}

/// Whether two names are the same but for the case of their ASCII letters.
pub fn names_match(a: &str, b: &str) -> (same: bool)
    ensures
        same == same_name(a@, b@),
{
    let n: usize = a.unicode_len();
    if n != b.unicode_len() {
        return false;
    }
    let mut i: usize = 0;
    while i < n
        invariant
            i <= n,
            n == a@.len(),
            n == b@.len(),
            forall|k: int| 0 <= k < i ==> folded(a@[k]) == folded(b@[k]),
        decreases n - i,
    {
        if fold_case(a.get_char(i)) != fold_case(b.get_char(i)) {
            return false;
        }
        i += 1;
    }
    true
}

impl DirectoryTable {
    /// Reads the root directory of the volume with all that is below it.
    pub fn read_root(reader: &[u8], volume: &VolumeDescriptor) -> (result: Result<
        DirectoryTable,
        Error,
    >)
        ensures
            match result {
                Ok(table) => table_at(
                    reader@,
                    *volume,
                    volume.root_directory_sector,
                    volume.root_directory_size,
                    MAX_DIRECTORY_DEPTH as nat,
                ) == Ok::<TableView, Error>(table_view(table)),
                Err(e) => table_at(
                    reader@,
                    *volume,
                    volume.root_directory_sector,
                    volume.root_directory_size,
                    MAX_DIRECTORY_DEPTH as nat,
                ) == Err::<TableView, Error>(e),
            },
    {
        Self::read(
            reader,
            volume,
            volume.root_directory_sector,
            volume.root_directory_size,
            MAX_DIRECTORY_DEPTH,
        )
    }

    /// Reads the directory of `size` bytes in sector `sector` with all that
    /// is below it, down to `depth` directories below it.
    pub fn read(
        reader: &[u8],
        volume: &VolumeDescriptor,
        sector: u32,
        size: u32,
        depth: usize,
    ) -> (result: Result<DirectoryTable, Error>)
        ensures
            match result {
                Ok(table) => table_at(reader@, *volume, sector, size, depth as nat) == Ok::<
                    TableView,
                    Error,
                >(table_view(table)),
                Err(e) => table_at(reader@, *volume, sector, size, depth as nat) == Err::<
                    TableView,
                    Error,
                >(e),
            },
        decreases depth, 1int,
    {
        let len: usize = reader.len();
        let position: Option<u64> = match (sector as u64).checked_mul(volume.sector_size) {
            Some(p) => p.checked_add(volume.root_offset),
            None => None,
        };
        let raw: Vec<DirEntry> = match position {
            Some(pos) => match read_dir_entries(reader, pos, size as u64) {
                Ok(raw) => raw,
                Err(e) => {
                    return Err(e);
                },
            },
            None => {
                if size > 0 {
                    return Err(Error::UnexpectedEof);
                }
                let raw: Vec<DirEntry> = Vec::new();
                assert(entry_views(raw@) =~= Seq::<EntryView>::empty());
                raw
            },
        };
        let ghost raw_views = entry_views(raw@);
        let mut entries: Vec<DirectoryEntry> = Vec::new();
        let n: usize = raw.len();
        let mut k: usize = 0;
        assert(raw_views.take(0) =~= Seq::<EntryView>::empty());
        assert(tree_entry_views(entries@) =~= Seq::<TreeEntryView>::empty());
        while k < n
            invariant
                k <= n,
                n == raw@.len(),
                raw_views == entry_views(raw@),
                dir_entries(reader@, sector_position(*volume, sector), size as int) == Ok::<
                    Seq<EntryView>,
                    Error,
                >(raw_views),
                subtrees(reader@, *volume, raw_views.take(k as int), depth as nat) == Ok::<
                    Seq<TreeEntryView>,
                    Error,
                >(tree_entry_views(entries@)),
            decreases n - k,
        {
            let raw_entry: &DirEntry = &raw[k];
            proof {
                assert(raw_views.take(k + 1).drop_last() =~= raw_views.take(k as int));
                assert(raw_views.take(k + 1).last() == raw_entry@);
            }
            let entry = match DirectoryEntry::read(reader, volume, raw_entry, depth) {
                Ok(entry) => entry,
                Err(e) => {
                    proof {
                        assert(subtrees(reader@, *volume, raw_views.take(k + 1), depth as nat)
                            == Err::<Seq<TreeEntryView>, Error>(e));
                        lemma_subtrees_fail(reader@, *volume, raw_views, k + 1, depth as nat);
                    }
                    return Err(e);
                },
            };
            let ghost before = entries@;
            entries.push(entry);
            assert(tree_entry_views(entries@) =~= tree_entry_views(before).push(
                entry_view(entry),
            ));
            k += 1;
        }
        assert(raw_views.take(n as int) =~= raw_views);
        let table = DirectoryTable { sector, size, entries };
        assert(table_view(table).entries =~= tree_entry_views(table.entries@));
        Ok(table)
    }

    /// The first entry of the directory with the name `name`, the case of
    /// ASCII letters aside.
    pub fn get_entry(&self, name: &str) -> (entry: Option<&DirectoryEntry>)
        ensures
            match entry {
                Some(e) => first_named(tree_entry_views(self.entries@), name@, 0) is Some && *e
                    == self.entries@[first_named(
                    tree_entry_views(self.entries@),
                    name@,
                    0,
                )->Some_0],
                None => first_named(tree_entry_views(self.entries@), name@, 0) is None,
            },
    {
        let n: usize = self.entries.len();
        let mut i: usize = 0;
        while i < n
            invariant
                i <= n,
                n == self.entries@.len(),
                first_named(tree_entry_views(self.entries@), name@, 0) == first_named(
                    tree_entry_views(self.entries@),
                    name@,
                    i as int,
                ),
            decreases n - i,
        {
            if names_match(self.entries[i].name.as_str(), name) {
                return Some(&self.entries[i]);
            }
            i += 1;
        }
        None
    }
}

impl DirectoryEntry {
    /// Makes of the entry `raw`, as it stands in the image, an entry of the
    /// tree: its name is decoded, and where it is a directory, the
    /// directory is read with all that is below it, down to `depth - 1`
    /// directories below it.
    pub fn read(reader: &[u8], volume: &VolumeDescriptor, raw: &DirEntry, depth: usize) -> (result:
        Result<DirectoryEntry, Error>)
        ensures
            match result {
                Ok(entry) => entry_tree(reader@, *volume, raw@, depth as nat) == Ok::<
                    TreeEntryView,
                    Error,
                >(entry_view(entry)),
                Err(e) => entry_tree(reader@, *volume, raw@, depth as nat) == Err::<
                    TreeEntryView,
                    Error,
                >(e),
            },
        decreases depth, 0int,
    {
        let name: String = string_from_utf8_lossy(raw.name());
        let subdirectory: Option<DirectoryTable> = if raw.attrs.contains(ATTR_DIRECTORY) {
            if depth == 0 {
                return Err(Error::DirectoryTooDeep);
            }
            match DirectoryTable::read(
                reader,
                volume,
                raw.data_extent.sector,
                raw.data_extent.size,
                depth - 1,
            ) {
                Ok(table) => Some(table),
                Err(e) => {
                    return Err(e);
                },
            }
        } else {
            None
        };
        Ok(
            DirectoryEntry {
                attributes: raw.attrs,
                name,
                name_length: raw.name_len,
                sector: raw.data_extent.sector,
                size: raw.data_extent.size,
                subtree_left: raw.subtree_left,
                subtree_right: raw.subtree_right,
                subdirectory,
            },
        )
    }

    /// Whether the entry stands for a directory.
    pub fn is_directory(&self) -> (directory: bool)
        ensures
            directory == (self.attributes.spec_bits() & ATTR_DIRECTORY == ATTR_DIRECTORY),
    {
        self.attributes.contains(ATTR_DIRECTORY)
    }
}

/// Entries that fail within the first `k` fail as a whole, and in the same
/// way.
proof fn lemma_subtrees_fail(
    image: Seq<u8>,
    volume: VolumeDescriptor,
    entries: Seq<EntryView>,
    k: int,
    depth: nat,
)
    requires
        0 <= k <= entries.len(),
        subtrees(image, volume, entries.take(k), depth) is Err,
    ensures
        subtrees(image, volume, entries, depth) == subtrees(image, volume, entries.take(k), depth),
    decreases entries.len() - k,
{
    if k < entries.len() {
        assert(entries.take(k + 1).drop_last() =~= entries.take(k));
        lemma_subtrees_fail(image, volume, entries, k + 1, depth);
    } else {
        assert(entries.take(k) =~= entries);
    }
}

} // verus!
