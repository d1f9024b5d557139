//! The header of a modern executable, read by ranges. All of its numbers
//! have their high byte first.

use crate::error::Error;
use crate::executable::xex::{be32, xex_magic, XEX_MAGIC};
use crate::ranged::io::{RangeRef, ReadFromRange};
use crate::stream::{
    bytes_at, bytes_equal, has_bytes, in_bounds, read_bytes, read_u32_be_at,
};
use vstd::prelude::*;

verus! {

/// The flags of a module: a set of bits, kept as they are read.
#[derive(Clone, Copy, Debug, PartialEq, Eq, Structural)]
pub struct ModuleFlags {
    pub bits: u32,
}

impl ModuleFlags {
    /// The flags in `bits`, all of them.
    pub fn from_bits_retain(bits: u32) -> (flags: ModuleFlags)
        ensures
            flags.bits == bits,
    {
        ModuleFlags { bits }
    }

    /// The bits that are set.
    pub fn bits(self) -> (bits: u32)
        ensures
            bits == self.bits,
    {
        self.bits
    }

    /// Whether all bits of `flags` are set.
    pub fn contains(self, flags: u32) -> (all: bool)
        ensures
            all == (self.bits & flags == flags),
    {
        self.bits & flags == flags
    }
}

/// One entry of the table of fields.
#[derive(Clone, Copy, Debug, PartialEq, Eq, Structural)]
pub struct FieldEntry {
    pub key: u32,
    pub val: u32,
}

/// The header of a modern executable with the table of its fields.
#[derive(Debug)]
pub struct Xex {
    pub module_flags: ModuleFlags,
    pub code_offset: u32,
    pub cert_offset: u32,
    pub fields: Vec<FieldEntry>,
}

/// What a header is.
pub ghost struct XexView {
    pub module_flags: u32,
    pub code_offset: u32,
    pub cert_offset: u32,
    pub fields: Seq<FieldEntry>,
}

impl View for Xex {
    type V = XexView;

    open spec fn view(&self) -> XexView {
        XexView {
            module_flags: self.module_flags.bits,
            code_offset: self.code_offset,
            cert_offset: self.cert_offset,
            fields: self.fields@,
        }
    }
}

/// The header that stands at `off` of `r`: the signature, the module flags,
/// the offset of the code, four bytes of no interest, the offset of the
/// certificate, the number of fields, and for each field its key and its
/// value.
pub open spec fn xex_at(r: Seq<u8>, off: u64) -> Result<XexView, Error> {
    if !in_bounds(r, off as int, 4) {
        Err(Error::UnexpectedEof)
    } else if bytes_at(r, off as int, 4) != xex_magic() {
        Err(Error::MissingXexMagic)
    } else if !in_bounds(r, off as int, 24) {
        Err(Error::UnexpectedEof)
    } else {
        let count = be32(r, off + 20);
        if !in_bounds(r, off + 24, 8 * count) {
            Err(Error::UnexpectedEof)
        } else {
            Ok(
                XexView {
                    module_flags: be32(r, off + 4),
                    code_offset: be32(r, off + 8),
                    cert_offset: be32(r, off + 16),
                    fields: Seq::new(
                        count as nat,
                        |i: int|
                            FieldEntry {
                                key: be32(r, off + 24 + 8 * i),
                                val: be32(r, off + 28 + 8 * i),
                            },
                    ),
                },
            )
        }
    }
}

/// The index of the first entry from `from` on that has the key `key`.
pub open spec fn first_with_key(fields: Seq<FieldEntry>, key: u32, from: int) -> Option<int>
    decreases fields.len() - from,
{
    if from < 0 || from >= fields.len() {
        None
    } else if fields[from].key == key {
        Some(from)
    } else {
        first_with_key(fields, key, from + 1)
    }
}

/// An index that `first_with_key` gives lies in the table, and the entry
/// there has the key.
proof fn lemma_first_with_key(fields: Seq<FieldEntry>, key: u32, from: int)
    requires
        first_with_key(fields, key, from) is Some,
    ensures
        0 <= first_with_key(fields, key, from)->Some_0 < fields.len(),
        from <= first_with_key(fields, key, from)->Some_0,
        fields[first_with_key(fields, key, from)->Some_0].key == key,
    decreases fields.len() - from,
{
    if 0 <= from < fields.len() && fields[from].key != key {
        lemma_first_with_key(fields, key, from + 1);
    }
}

/// The range of a field with the key `key` and the value `val`, in a header
/// with the range of `length` bytes at `offset`: it starts `val` bytes into
/// the header. The low byte of the key is the length of the field in words
/// of four bytes; for 0xFF the field reaches to the end of the header's
/// range. `None` where such a range does not lie within 64 bits, or starts
/// behind the end to which it is to reach.
pub open spec fn field_range(key: u32, val: u32, offset: u64, length: u64) -> Option<(u64, u64)> {
    let words = key & 0xFF;
    if words == 0xFF {
        if val <= length {
            Some(((offset + val) as u64, (length - val) as u64))
        } else {
            None
        }
    } else if offset + val + 4 * words <= u64::MAX {
        Some(((offset + val) as u64, (4 * words) as u64))
    } else {
        None
    }
}

impl Xex {
    /// The first entry of the table with the key `key`.
    pub fn find(&self, key: u32) -> (entry: Option<FieldEntry>)
        ensures
            match entry {
                Some(e) => first_with_key(self.fields@, key, 0) is Some && e
                    == self.fields@[first_with_key(self.fields@, key, 0)->Some_0],
                None => first_with_key(self.fields@, key, 0) is None,
            },
    {
        let n: usize = self.fields.len();
        let mut i: usize = 0;
        while i < n
            invariant
                i <= n,
                n == self.fields@.len(),
                first_with_key(self.fields@, key, 0) == first_with_key(self.fields@, key, i as int),
            decreases n - i,
        {
            if self.fields[i].key == key {
                return Some(self.fields[i]);
            }
            i += 1;
        }
        None
    }

    /// The range of the field `F`, in the header with the range `xex_ref`:
    /// that of the first entry with the key of `F`. The key of `F` must say
    /// that the field lies in a range of its own.
    pub fn field<F: Field>(&self, xex_ref: RangeRef<Self>) -> (range: Option<RangeRef<F>>)
        requires
            F::KEY & 0xFF > 0,
        ensures
            match first_with_key(self.fields@, F::KEY, 0) {
                Some(i) => match field_range(
                    F::KEY,
                    self.fields@[i].val,
                    xex_ref.spec_offset(),
                    xex_ref.spec_length(),
                ) {
                    Some((offset, length)) => range is Some && range->Some_0.spec_offset()
                        == offset && range->Some_0.spec_length() == length,
                    None => range is None,
                },
                None => range is None,
            },
    {
        match self.find(F::KEY) {
            Some(e) => {
                proof {
                    lemma_first_with_key(self.fields@, F::KEY, 0);
                }
                let off: u64 = e.val as u64;
                let len_words: u64 = (e.key & 0xFF) as u64;
                let offset: u64 = xex_ref.offset();
                let length: u64 = xex_ref.length();
                let key: u32 = e.key;
                assert(key & 0xFF <= 0xFF) by (bit_vector);
                if len_words == 0xFF {
                    if off <= length {
                        Some(xex_ref.slice_from(off))
                    } else {
                        None
                    }
                } else if off + 4 * len_words <= u64::MAX - offset {
                    Some(xex_ref.slice(off..off + 4 * len_words))
                } else {
                    None
                }
            },
            None => None,
        }
    }

    /// The value of the field `F`: that of the first entry with the key of
    /// `F`.
    pub fn field_value<F: Field>(&self) -> (value: Option<u32>)
        ensures
            match first_with_key(self.fields@, F::KEY, 0) {
                Some(i) => value == Some(self.fields@[i].val),
                None => value is None,
            },
    {
        match self.find(F::KEY) {
            Some(e) => Some(e.val),
            None => None,
        }
    }
}

impl ReadFromRange for Xex {
    /// The header at `off`, or why there is none.
    open spec fn parsed(r: Seq<u8>, off: u64, len: u64, result: Result<Self, Error>) -> bool {
        match result {
            Ok(xex) => xex_at(r, off) == Ok::<XexView, Error>(xex@),
            Err(e) => xex_at(r, off) == Err::<XexView, Error>(e),
        }
    }

    /// Reads the header that stands at `off` of `r`.
    fn read_from_range(r: &[u8], off: u64, len: u64) -> (result: Result<Self, Error>) {
        let total: usize = r.len();
        let magic = match read_bytes(r, off, 4) {
            Ok(magic) => magic,
            Err(e) => {
                return Err(e);
            },
        };
        assert(XEX_MAGIC@ =~= xex_magic());
        if !bytes_equal(magic, XEX_MAGIC.as_slice()) {
            return Err(Error::MissingXexMagic);
        }
        match read_bytes(r, off, 24) {
            Ok(_) => {},
            Err(e) => {
                return Err(e);
            },
        }
        let module_flags: u32 = match read_u32_be_at(r, off + 4) {
            Ok(v) => v,
            Err(e) => {
                return Err(e);
            },
        };
        let code_offset: u32 = match read_u32_be_at(r, off + 8) {
            Ok(v) => v,
            Err(e) => {
                return Err(e);
            },
        };
        let cert_offset: u32 = match read_u32_be_at(r, off + 16) {
            Ok(v) => v,
            Err(e) => {
                return Err(e);
            },
        };
        let field_count: u32 = match read_u32_be_at(r, off + 20) {
            Ok(v) => v,
            Err(e) => {
                return Err(e);
            },
        };
        if !has_bytes(r, off + 24, 8 * (field_count as u64)) {
            return Err(Error::UnexpectedEof);
        }
        let mut fields: Vec<FieldEntry> = Vec::new();
        let mut i: u32 = 0;
        while i < field_count
            invariant
                i <= field_count,
                total == r@.len(),
                in_bounds(r@, off + 24, 8 * field_count),
                fields@.len() == i,
                forall|k: int|
                    0 <= k < i ==> fields@[k] == (FieldEntry {
                        key: be32(r@, off + 24 + 8 * k),
                        val: be32(r@, off + 28 + 8 * k),
                    }),
            decreases field_count - i,
        {
            let at: u64 = off + 24 + 8 * (i as u64);
            let key: u32 = match read_u32_be_at(r, at) {
                Ok(v) => v,
                Err(e) => {
                    return Err(e);
                },
            };
            let val: u32 = match read_u32_be_at(r, at + 4) {
                Ok(v) => v,
                Err(e) => {
                    return Err(e);
                },
            };
            fields.push(FieldEntry { key, val });
            i += 1;
        }
        let xex = Xex {
            module_flags: ModuleFlags::from_bits_retain(module_flags),
            code_offset,
            cert_offset,
            fields,
        };
        assert(xex@.fields =~= xex_at(r@, off)->Ok_0.fields);
        Ok(xex)
    }
}

/// A field of the header: the key under which the table of fields has it.
/// The low byte of the key is 0 for a field whose value stands in the table
/// itself, and else says how long the range of the field is.
pub trait Field {
    const KEY: u32;
}

/// Where the resources are.
#[derive(Clone, Copy, Debug)]
pub struct ResourceInfo;

impl Field for ResourceInfo {
    const KEY: u32 = 0x2FF;
}

/// How the image is packed and encrypted.
#[derive(Clone, Copy, Debug)]
pub struct BaseFileFormat;

impl Field for BaseFileFormat {
    const KEY: u32 = 0x3FF;
}

/// The base that a patch refers to.
#[derive(Clone, Copy, Debug)]
pub struct BaseReference;

impl Field for BaseReference {
    const KEY: u32 = 0x405;
}

/// What a delta patch changes.
#[derive(Clone, Copy, Debug)]
pub struct DeltaPatchDescriptor;

impl Field for DeltaPatchDescriptor {
    const KEY: u32 = 0x5FF;
}

/// The path that the executable is bound to.
#[derive(Clone, Copy, Debug)]
pub struct BoundingPath;

impl Field for BoundingPath {
    const KEY: u32 = 0x80FF;
}

/// The device that the executable is bound to.
#[derive(Clone, Copy, Debug)]
pub struct DeviceId;

impl Field for DeviceId {
    const KEY: u32 = 0x8105;
}

/// The base address before relocation.
#[derive(Clone, Copy, Debug)]
pub struct OriginalBaseAddress;

impl Field for OriginalBaseAddress {
    const KEY: u32 = 0x10001;
}

/// The address at which execution starts.
#[derive(Clone, Copy, Debug)]
pub struct EntryPoint;

impl Field for EntryPoint {
    const KEY: u32 = 0x10100;
}

/// The address at which the image is loaded.
#[derive(Clone, Copy, Debug)]
pub struct ImageBaseAddress;

impl Field for ImageBaseAddress {
    const KEY: u32 = 0x10201;
}

/// The libraries that are imported.
#[derive(Clone, Copy, Debug)]
pub struct ImportLibraries;

impl Field for ImportLibraries {
    const KEY: u32 = 0x103FF;
}

/// Checksum and time of the build.
#[derive(Clone, Copy, Debug)]
pub struct ChecksumTimestamp;

impl Field for ChecksumTimestamp {
    const KEY: u32 = 0x18002;
}

/// Whether call capture is enabled.
#[derive(Clone, Copy, Debug)]
pub struct EnabledForCallcap;

impl Field for EnabledForCallcap {
    const KEY: u32 = 0x18102;
}

/// Whether fast capture is enabled.
#[derive(Clone, Copy, Debug)]
pub struct EnabledForFastcap;

impl Field for EnabledForFastcap {
    const KEY: u32 = 0x18200;
}

/// The name of the original executable.
#[derive(Clone, Copy, Debug)]
pub struct OriginalPeName;

impl Field for OriginalPeName {
    const KEY: u32 = 0x183FF;
}

/// The libraries that are linked in.
#[derive(Clone, Copy, Debug)]
pub struct StaticLibraries;

impl Field for StaticLibraries {
    const KEY: u32 = 0x200FF;
}

/// The layout of thread-local storage.
#[derive(Clone, Copy, Debug)]
pub struct TlsInfo;

impl Field for TlsInfo {
    const KEY: u32 = 0x20104;
}

/// The size of a thread's stack.
#[derive(Clone, Copy, Debug)]
pub struct DefaultStackSize;

impl Field for DefaultStackSize {
    const KEY: u32 = 0x20200;
}

/// The size of the filesystem cache.
#[derive(Clone, Copy, Debug)]
pub struct DefaultFileSystemCacheSize;

impl Field for DefaultFileSystemCacheSize {
    const KEY: u32 = 0x20301;
}

/// The size of the heap.
#[derive(Clone, Copy, Debug)]
pub struct DefaultHeapSize;

impl Field for DefaultHeapSize {
    const KEY: u32 = 0x20401;
}

/// Size and flags of the page heap.
#[derive(Clone, Copy, Debug)]
pub struct PageHeapSizeAndflags;

impl Field for PageHeapSizeAndflags {
    const KEY: u32 = 0x28002;
}

/// The flags of the system.
#[derive(Clone, Copy, Debug)]
pub struct SystemFlags;

impl Field for SystemFlags {
    const KEY: u32 = 0x30000;
}

/// The services that are used.
#[derive(Clone, Copy, Debug)]
pub struct SerivceIdList;

impl Field for SerivceIdList {
    const KEY: u32 = 0x401FF;
}

/// The size of the title's workspace.
#[derive(Clone, Copy, Debug)]
pub struct TitleWorkspaceSize;

impl Field for TitleWorkspaceSize {
    const KEY: u32 = 0x40201;
}

/// The ratings of the game.
#[derive(Clone, Copy, Debug)]
pub struct GameRatings;

impl Field for GameRatings {
    const KEY: u32 = 0x40310;
}

/// The key for play over a local network.
#[derive(Clone, Copy, Debug)]
pub struct LanKey;

impl Field for LanKey {
    const KEY: u32 = 0x40404;
}

/// The logo.
#[derive(Clone, Copy, Debug)]
pub struct Xbox360Logo;

impl Field for Xbox360Logo {
    const KEY: u32 = 0x405FF;
}

/// The media ids of the other discs.
#[derive(Clone, Copy, Debug)]
pub struct MultidiscMediaIds;

impl Field for MultidiscMediaIds {
    const KEY: u32 = 0x406FF;
}

/// Other ids of the title.
#[derive(Clone, Copy, Debug)]
pub struct AlternateTitleIds;

impl Field for AlternateTitleIds {
    const KEY: u32 = 0x407FF;
}

/// Memory that the title has on top.
#[derive(Clone, Copy, Debug)]
pub struct AdditionalTitleMemory;

impl Field for AdditionalTitleMemory {
    const KEY: u32 = 0x40801;
}

/// What is exported by name.
#[derive(Clone, Copy, Debug)]
pub struct ExportsByName;

impl Field for ExportsByName {
    const KEY: u32 = 0xE10402;
}

/// The identity record of a title.
#[derive(Clone, Copy, Debug, PartialEq, Eq, Structural)]
pub struct ExecutionId {
    pub media_id: u32,
    pub version: u32,
    pub base_version: u32,
    pub title_id: u32,
    pub platform: u8,
    pub executable_type: u8,
    pub disc_number: u8,
    pub disc_count: u8,
}

impl Field for ExecutionId {
    const KEY: u32 = 0x40006;
}

impl ExecutionId {
    /// The record that stands at `off` of `r`: media id, version, base
    /// version and title id in four bytes each, then platform, executable
    /// type, disc number and disc count in one byte each.
    pub open spec fn at(r: Seq<u8>, off: u64) -> Result<ExecutionId, Error> {
        if !in_bounds(r, off as int, 20) {
            Err(Error::UnexpectedEof)
        } else {
            Ok(
                ExecutionId {
                    media_id: be32(r, off as int),
                    version: be32(r, off + 4),
                    base_version: be32(r, off + 8),
                    title_id: be32(r, off + 12),
                    platform: r[off + 16],
                    executable_type: r[off + 17],
                    disc_number: r[off + 18],
                    disc_count: r[off + 19],
                },
            )
        }
    }
}

impl ReadFromRange for ExecutionId {
    /// The record at `off`, or the error that the input ends before it does.
    open spec fn parsed(r: Seq<u8>, off: u64, len: u64, result: Result<Self, Error>) -> bool {
        result == ExecutionId::at(r, off)
    }

    /// Reads the record that stands at `off` of `r`.
    fn read_from_range(r: &[u8], off: u64, len: u64) -> (result: Result<Self, Error>) {
        match crate::executable::xex::read_execution_info(r, off) {
            Ok(info) => Ok(
                ExecutionId {
                    media_id: info.media_id,
                    version: info.version,
                    base_version: info.base_version,
                    title_id: info.title_id,
                    platform: info.platform,
                    executable_type: info.executable_type,
                    disc_number: info.disc_number,
                    disc_count: info.disc_count,
                },
            ),
            Err(e) => Err(e),
        }
    }
}

} // verus!
