//! The filesystem of a disc image, read as a whole: the descriptor of the
//! volume and the tree of its directories.

use crate::error::Error;
use crate::iso::directory_table::{
    entry_view, first_named, lemma_first_named, table_at, table_view, tree_entry_views,
    TableView, TreeEntryView,
    MAX_DIRECTORY_DEPTH,
};
use crate::iso_fs::{slice_from, suffix};
use crate::stream::in_bounds;
use vstd::prelude::*;
use vstd::string::StrSliceExecFns;

pub mod directory_table;
pub mod iso_type;
pub mod volume_descriptor;

pub use directory_table::{DirectoryEntry, DirectoryEntryAttributes, DirectoryTable};
pub use iso_type::IsoType;
pub use volume_descriptor::VolumeDescriptor;

verus! {

/// Bytes in one sector.
pub const SECTOR_SIZE: u64 = 0x800;

/// The character that separates the components of a path.
pub const SEPARATOR: char = '\\';

/// The components of the first `k` characters of `path`: those that a
/// separator has closed, and the one that is still open.
pub open spec fn scan(path: Seq<char>, k: nat) -> (Seq<Seq<char>>, Seq<char>)
    decreases k,
{
    if k == 0 {
        (Seq::empty(), Seq::empty())
    } else {
        let (closed, open) = scan(path, (k - 1) as nat);
        let c = path[k - 1];
        if c != '\\' {
            (closed, open.push(c))
        } else if open.len() > 0 {
            (closed.push(open), Seq::empty())
        } else {
            (closed, open)
        }
    }
}

/// The components of `path`: the runs of characters between separators
/// that are not empty, in their order.
pub open spec fn components_of(path: Seq<char>) -> Seq<Seq<char>> {
    let (closed, open) = scan(path, path.len());
    if open.len() > 0 {
        closed.push(open)
    } else {
        closed
    }
}

/// A path in the filesystem of an image: its components, none of them
/// empty.
#[derive(Clone, Debug)]
pub struct WindowsPath {
    pub components: Vec<String>,
}

impl WindowsPath {
    /// The components as texts.
    pub open spec fn spec_components(&self) -> Seq<Seq<char>> {
        Seq::new(self.components@.len(), |i: int| self.components@[i]@)
    }

    /// The path that `path` spells, with `\` between its components. A
    /// separator at the start or the end, or a second one in a row, adds no
    /// component.
    pub fn from(path: &str) -> (result: WindowsPath)
        ensures
            result.spec_components() == components_of(path@),
    {
        let n: usize = path.unicode_len();
        let mut components: Vec<String> = Vec::new();
        let mut start: usize = 0;
        let mut i: usize = 0;
        let ghost closed: Seq<Seq<char>> = Seq::empty();
        assert(path@.subrange(0, 0) =~= Seq::<char>::empty());
        while i < n
            invariant
                start <= i <= n,
                n == path@.len(),
                closed.len() == components@.len(),
                forall|k: int| 0 <= k < closed.len() ==> (#[trigger] components@[k])@ == closed[k],
                scan(path@, i as nat) == (closed, path@.subrange(start as int, i as int)),
            decreases n - i,
        {
            let c: char = path.get_char(i);
            if c == SEPARATOR {
                if i > start {
                    let component = path.substring_char(start, i).to_owned();
                    components.push(component);
                    proof {
                        closed = closed.push(path@.subrange(start as int, i as int));
                    }
                }
                start = i + 1;
                assert(path@.subrange(start as int, i + 1) =~= Seq::<char>::empty());
            } else {
                assert(path@.subrange(start as int, i + 1) =~= path@.subrange(
                    start as int,
                    i as int,
                ).push(c));
            }
            i += 1;
        }
        if n > start {
            let component = path.substring_char(start, n).to_owned();
            components.push(component);
            proof {
                closed = closed.push(path@.subrange(start as int, n as int));
            }
        }
        let result = WindowsPath { components };
        assert(result.spec_components() =~= closed);
        result
    }
}

/// The entry that the last of the first `k` components names, and the
/// directory in which the next component is looked up. The first component
/// is looked up in `root`, each other in the directory that the one before
/// it names; where that is no directory, nothing is found.
pub open spec fn walk(root: TableView, components: Seq<Seq<char>>, k: nat) -> (
    Option<TreeEntryView>,
    Option<TableView>,
)
    decreases k,
{
    if k == 0 {
        (None, Some(root))
    } else {
        let dir = walk(root, components, (k - 1) as nat).1;
        let entry = match dir {
            Some(table) => match first_named(table.entries, components[k - 1], 0) {
                Some(i) => Some(table.entries[i]),
                None => None,
            },
            None => None,
        };
        let next = match entry {
            Some(e) => e.subdirectory,
            None => None,
        };
        (entry, next)
    }
}

/// The entry that the path with the components `components` names below
/// `root`. The path without components names none.
pub open spec fn resolve(root: TableView, components: Seq<Seq<char>>) -> Option<TreeEntryView> {
    walk(root, components, components.len()).0
}

/// The end of the data of the entry that reaches furthest among the first
/// `k` of `entries` and all that is below them, in bytes from the start of
/// the volume.
pub open spec fn max_used(entries: Seq<TreeEntryView>, k: nat) -> nat
    decreases entries, k,
{
    if k == 0 || k > entries.len() {
        0
    } else {
        let rest = max_used(entries, (k - 1) as nat);
        let last = entry_used(entries[k - 1]);
        if last > rest {
            last
        } else {
            rest
        }
    }
}

/// The end of the data of `entry`, or of what reaches furthest below it.
pub open spec fn entry_used(entry: TreeEntryView) -> nat
    decreases entry,
{
    let own = (entry.sector * 2048 + entry.size) as nat;
    match entry.subdirectory {
        Some(table) => {
            let below = max_used(table.entries, table.entries.len());
            if below > own {
                below
            } else {
                own
            }
        },
        None => own,
    }
}

/// An image with the descriptor of its volume and the tree of its
/// directories.
pub struct IsoReader<'a> {
    pub volume_descriptor: VolumeDescriptor,
    pub directory_table: DirectoryTable,
    pub reader: &'a [u8],
}

impl<'a> IsoReader<'a> {
    /// Reads the descriptor of the volume and the tree of the directories.
    pub fn read(reader: &'a [u8]) -> (result: Result<IsoReader<'a>, Error>)
        ensures
            match result {
                Ok(iso) => {
                    &&& iso.reader@ == reader@
                    &&& IsoType::detect(reader@) is Some
                    &&& iso.volume_descriptor.describes(reader@, IsoType::detect(reader@)->Some_0)
                    &&& table_at(
                        reader@,
                        iso.volume_descriptor,
                        iso.volume_descriptor.root_directory_sector,
                        iso.volume_descriptor.root_directory_size,
                        MAX_DIRECTORY_DEPTH as nat,
                    ) == Ok::<TableView, Error>(table_view(iso.directory_table))
                },
                Err(e) => match IsoType::detect(reader@) {
                    None => e == Error::InvalidIsoFormat,
                    Some(iso_type) => if !in_bounds(
                        reader@,
                        iso_type.spec_root_offset() + 0x10000,
                        36,
                    ) {
                        e == Error::UnexpectedEof
                    } else {
                        exists|volume: VolumeDescriptor|
                            volume.describes(reader@, iso_type) && table_at(
                                reader@,
                                volume,
                                volume.root_directory_sector,
                                volume.root_directory_size,
                                MAX_DIRECTORY_DEPTH as nat,
                            ) == Err::<TableView, Error>(e)
                    },
                },
            },
    {
        let volume_descriptor = match VolumeDescriptor::read(reader) {
            Ok(volume) => volume,
            Err(e) => {
                return Err(e);
            },
        };
        let directory_table = match DirectoryTable::read_root(reader, &volume_descriptor) {
            Ok(table) => table,
            Err(e) => {
                assert(volume_descriptor.describes(reader@, IsoType::detect(reader@)->Some_0)
                    && table_at(
                    reader@,
                    volume_descriptor,
                    volume_descriptor.root_directory_sector,
                    volume_descriptor.root_directory_size,
                    MAX_DIRECTORY_DEPTH as nat,
                ) == Err::<TableView, Error>(e));
                return Err(e);
            },
        };
        Ok(IsoReader { volume_descriptor, directory_table, reader })
    }

    /// The image from the start of the volume on.
    pub fn get_root(&self) -> (reader: &'a [u8])
        ensures
            reader@ == suffix(self.reader@, self.volume_descriptor.root_offset as int),
    {
        slice_from(self.reader, self.volume_descriptor.root_offset)
    }

    /// The entry that `path` names, each component looked up without regard
    /// to the case of ASCII letters.
    pub fn find_entry(&self, path: &WindowsPath) -> (entry: Option<&DirectoryEntry>)
        ensures
            match entry {
                Some(e) => resolve(table_view(self.directory_table), path.spec_components())
                    == Some(entry_view(*e)),
                None => resolve(table_view(self.directory_table), path.spec_components()) is None,
            },
    {
        let ghost root = table_view(self.directory_table);
        let ghost components = path.spec_components();
        let mut entry: Option<&DirectoryEntry> = None;
        let mut dir: Option<&DirectoryTable> = Some(&self.directory_table);
        let n: usize = path.components.len();
        let mut k: usize = 0;
        while k < n
            invariant
                k <= n,
                n == path.components@.len(),
                root == table_view(self.directory_table),
                components == path.spec_components(),
                walk(root, components, k as nat).0 == match entry {
                    Some(e) => Some(entry_view(*e)),
                    None => None,
                },
                walk(root, components, k as nat).1 == match dir {
                    Some(t) => Some(table_view(*t)),
                    None => None,
                },
            decreases n - k,
        {
            let name: &str = path.components[k].as_str();
            assert(components[k as int] == name@);
            entry = match dir {
                Some(table) => {
                    let found = table.get_entry(name);
                    proof {
                        let views = table_view(*table).entries;
                        assert(views =~= tree_entry_views(table.entries@));
                        if first_named(views, name@, 0) is Some {
                            lemma_first_named(views, name@, 0);
                        }
                    }
                    found
                },
                None => None,
            };
            dir = match entry {
                Some(e) => match &e.subdirectory {
                    Some(table) => Some(table),
                    None => None,
                },
                None => None,
            };
            k += 1;
        }
        entry
    }

    /// The image from the data of the entry that `path` names on.
    pub fn get_entry(&self, path: &WindowsPath) -> (reader: Option<&'a [u8]>)
        ensures
            match resolve(table_view(self.directory_table), path.spec_components()) {
                Some(e) => reader is Some && reader->Some_0@ == suffix(
                    self.reader@,
                    self.volume_descriptor.root_offset + e.sector
                        * self.volume_descriptor.sector_size,
                ),
                None => reader is None,
            },
    {
        match self.find_entry(path) {
            Some(entry) => {
                let len: usize = self.reader.len();
                let position: Option<u64> = match (entry.sector as u64).checked_mul(
                    self.volume_descriptor.sector_size,
                ) {
                    Some(p) => self.volume_descriptor.root_offset.checked_add(p),
                    None => None,
                };
                match position {
                    Some(pos) => Some(slice_from(self.reader, pos)),
                    None => {
                        let rest = slice_from(self.reader, u64::MAX);
                        assert(rest@ =~= Seq::<u8>::empty());
                        Some(rest)
                    },
                }
            },
            None => None,
        }
    }

    /// How many bytes of the volume are in use: the end of the data of the
    /// entry that reaches furthest, 0 for a volume without entries.
    pub fn get_max_used_prefix_size(&self) -> (size: u64)
        ensures
            size == max_used(
                table_view(self.directory_table).entries,
                table_view(self.directory_table).entries.len(),
            ),
    {
        max_used_in(&self.directory_table)
    }
}

/// The end of the data of the entry that reaches furthest in `dir` and
/// below it.
pub fn max_used_in(dir: &DirectoryTable) -> (size: u64)
    ensures
        size == max_used(table_view(*dir).entries, table_view(*dir).entries.len()),
    decreases dir,
{
    let ghost views = table_view(*dir).entries;
    assert(views =~= tree_entry_views(dir.entries@));
    let n: usize = dir.entries.len();
    let mut size: u64 = 0;
    let mut k: usize = 0;
    while k < n
        invariant
            k <= n,
            n == dir.entries@.len(),
            views == tree_entry_views(dir.entries@),
            size == max_used(views, k as nat),
        decreases n - k,
    {
        let entry: &DirectoryEntry = &dir.entries[k];
        let mut v: u64 = (entry.sector as u64) * SECTOR_SIZE + (entry.size as u64);
        match &entry.subdirectory {
            Some(subdir) => {
                let below: u64 = max_used_in(subdir);
                if below > v {
                    v = below;
                }
            },
            None => {},
        }
        assert(v == entry_used(views[k as int]));
        if v > size {
            size = v;
        }
        k += 1;
    }
    size
}

} // verus!
