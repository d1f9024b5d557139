//! The header of a package, as it is read back.
//!
//! All numbers have their high byte first. Texts are UTF-16 in fields of 64
//! units, closed by a zero unit where they are shorter.

use crate::byte_order::{be_value, read_u16_be};
use crate::error::Error;
use crate::ranged::io::ReadFromRange;
use crate::stream::{
    array_of, bytes_at, bytes_equal, in_bounds, read_bytes_rel, read_u16_be_rel, read_u24_be_rel,
    read_u32_be_rel, read_u64_be_rel, read_u8_rel, slice_from, slice_from_rel, suffix,
};
use crate::text::{string_from_utf16_lossy, utf16_lossy};
use vstd::prelude::*;
use vstd::slice::slice_subrange;

verus! {

/// Code units in the field of a text.
pub const SMALL_STRING_UNITS: usize = 64;

/// Bytes in the field of a text.
pub const SMALL_STRING_SIZE: u64 = 128;

/// Texts in a localized text, in a header of any version.
pub const LOCALES: usize = 18;

/// Texts more in a localized text, from version 1 of the metadata on.
pub const ADDITIONAL_LOCALES: usize = 6;

/// How a package is signed.
#[derive(Clone, Copy, Debug, PartialEq, Eq, Structural)]
pub enum PackageKind {
    Con,
    Pirs,
    Live,
}

impl PackageKind {
    /// The four bytes with which a package of this kind starts.
    pub open spec fn spec_magic(self) -> Seq<u8> {
        match self {
            PackageKind::Con => seq![0x43u8, 0x4fu8, 0x4eu8, 0x20u8],
            PackageKind::Pirs => seq![0x50u8, 0x49u8, 0x52u8, 0x53u8],
            PackageKind::Live => seq![0x4cu8, 0x49u8, 0x56u8, 0x45u8],
        }
    }

    /// The kind of the package that starts with `magic`.
    pub open spec fn of(magic: Seq<u8>) -> Option<PackageKind> {
        if magic == PackageKind::Con.spec_magic() {
            Some(PackageKind::Con)
        } else if magic == PackageKind::Pirs.spec_magic() {
            Some(PackageKind::Pirs)
        } else if magic == PackageKind::Live.spec_magic() {
            Some(PackageKind::Live)
        } else {
            None
        }
    }

    /// The kinds, in the order in which they are tried.
    pub fn all() -> (all: [PackageKind; 3])
        ensures
            all@ == seq![PackageKind::Con, PackageKind::Pirs, PackageKind::Live],
    {
        let all = [PackageKind::Con, PackageKind::Pirs, PackageKind::Live];
        assert(all@ =~= seq![PackageKind::Con, PackageKind::Pirs, PackageKind::Live]);
        all
    }

    /// The four bytes with which a package of this kind starts: `CON `,
    /// `PIRS` or `LIVE`.
    pub fn magic(self) -> (magic: [u8; 4])
        ensures
            magic@ == self.spec_magic(),
    {
        let magic: [u8; 4] = match self {
            PackageKind::Con => [0x43, 0x4f, 0x4e, 0x20],
            PackageKind::Pirs => [0x50, 0x49, 0x52, 0x53],
            PackageKind::Live => [0x4c, 0x49, 0x56, 0x45],
        };
        assert(magic@ =~= self.spec_magic());
        magic
    }

    /// The kind of the package that starts with `magic`.
    pub fn from_magic(magic: &[u8]) -> (kind: Option<PackageKind>)
        ensures
            kind == Self::of(magic@),
    {
        if bytes_equal(magic, PackageKind::Con.magic().as_slice()) {
            Some(PackageKind::Con)
        } else if bytes_equal(magic, PackageKind::Pirs.magic().as_slice()) {
            Some(PackageKind::Pirs)
        } else if bytes_equal(magic, PackageKind::Live.magic().as_slice()) {
            Some(PackageKind::Live)
        } else {
            None
        }
    }
}

/// What a package holds.
#[derive(Clone, Copy, Debug, PartialEq, Eq, Structural)]
pub enum ContentType {
    SavedGame,
    MarketplaceContent,
    Publisher,
    Xbox360Title,
    IptvPauseBuffer,
    InstalledGame,
    XboxOriginalGame,
    GameOnDemand,
    AvatarItem,
    Profile,
    GamerPicture,
    Theme,
    CacheFile,
    StorageDownload,
    XboxSavedGame,
    XboxDownload,
    GameDemo,
    Video,
    GameTitle,
    Installer,
    GameTrailer,
    ArcadeTitle,
    Xna,
    LicenseStore,
    Movie,
    Tv,
    MusicVideo,
    GameVideo,
    PodcastVideo,
    ViralVideo,
    CommunityGame,
}

impl ContentType {
    /// The number that stands for the content type in a header.
    pub open spec fn spec_code(self) -> u32 {
        match self {
            ContentType::SavedGame => 0x0000001,
            ContentType::MarketplaceContent => 0x0000002,
            ContentType::Publisher => 0x0000003,
            ContentType::Xbox360Title => 0x0001000,
            ContentType::IptvPauseBuffer => 0x0002000,
            ContentType::InstalledGame => 0x0004000,
            ContentType::XboxOriginalGame => 0x0005000,
            ContentType::GameOnDemand => 0x0007000,
            ContentType::AvatarItem => 0x0009000,
            ContentType::Profile => 0x0010000,
            ContentType::GamerPicture => 0x0020000,
            ContentType::Theme => 0x0030000,
            ContentType::CacheFile => 0x0040000,
            ContentType::StorageDownload => 0x0050000,
            ContentType::XboxSavedGame => 0x0060000,
            ContentType::XboxDownload => 0x0070000,
            ContentType::GameDemo => 0x0080000,
            ContentType::Video => 0x0090000,
            ContentType::GameTitle => 0x00a0000,
            ContentType::Installer => 0x00b0000,
            ContentType::GameTrailer => 0x00c0000,
            ContentType::ArcadeTitle => 0x00d0000,
            ContentType::Xna => 0x00e0000,
            ContentType::LicenseStore => 0x00f0000,
            ContentType::Movie => 0x0100000,
            ContentType::Tv => 0x0200000,
            ContentType::MusicVideo => 0x0300000,
            ContentType::GameVideo => 0x0400000,
            ContentType::PodcastVideo => 0x0500000,
            ContentType::ViralVideo => 0x0600000,
            ContentType::CommunityGame => 0x2000000,
        }
    }

    /// The number that stands for the content type in a header.
    pub fn code(self) -> (code: u32)
        ensures
            code == self.spec_code(),
    {
        match self {
            ContentType::SavedGame => 0x0000001,
            ContentType::MarketplaceContent => 0x0000002,
            ContentType::Publisher => 0x0000003,
            ContentType::Xbox360Title => 0x0001000,
            ContentType::IptvPauseBuffer => 0x0002000,
            ContentType::InstalledGame => 0x0004000,
            ContentType::XboxOriginalGame => 0x0005000,
            ContentType::GameOnDemand => 0x0007000,
            ContentType::AvatarItem => 0x0009000,
            ContentType::Profile => 0x0010000,
            ContentType::GamerPicture => 0x0020000,
            ContentType::Theme => 0x0030000,
            ContentType::CacheFile => 0x0040000,
            ContentType::StorageDownload => 0x0050000,
            ContentType::XboxSavedGame => 0x0060000,
            ContentType::XboxDownload => 0x0070000,
            ContentType::GameDemo => 0x0080000,
            ContentType::Video => 0x0090000,
            ContentType::GameTitle => 0x00a0000,
            ContentType::Installer => 0x00b0000,
            ContentType::GameTrailer => 0x00c0000,
            ContentType::ArcadeTitle => 0x00d0000,
            ContentType::Xna => 0x00e0000,
            ContentType::LicenseStore => 0x00f0000,
            ContentType::Movie => 0x0100000,
            ContentType::Tv => 0x0200000,
            ContentType::MusicVideo => 0x0300000,
            ContentType::GameVideo => 0x0400000,
            ContentType::PodcastVideo => 0x0500000,
            ContentType::ViralVideo => 0x0600000,
            ContentType::CommunityGame => 0x2000000,
        }
    }

    /// The content type that `code` stands for.
    pub open spec fn of(code: u32) -> Option<ContentType> {
        match code {
            0x0000001 => Some(ContentType::SavedGame),
            0x0000002 => Some(ContentType::MarketplaceContent),
            0x0000003 => Some(ContentType::Publisher),
            0x0001000 => Some(ContentType::Xbox360Title),
            0x0002000 => Some(ContentType::IptvPauseBuffer),
            0x0004000 => Some(ContentType::InstalledGame),
            0x0005000 => Some(ContentType::XboxOriginalGame),
            0x0007000 => Some(ContentType::GameOnDemand),
            0x0009000 => Some(ContentType::AvatarItem),
            0x0010000 => Some(ContentType::Profile),
            0x0020000 => Some(ContentType::GamerPicture),
            0x0030000 => Some(ContentType::Theme),
            0x0040000 => Some(ContentType::CacheFile),
            0x0050000 => Some(ContentType::StorageDownload),
            0x0060000 => Some(ContentType::XboxSavedGame),
            0x0070000 => Some(ContentType::XboxDownload),
            0x0080000 => Some(ContentType::GameDemo),
            0x0090000 => Some(ContentType::Video),
            0x00a0000 => Some(ContentType::GameTitle),
            0x00b0000 => Some(ContentType::Installer),
            0x00c0000 => Some(ContentType::GameTrailer),
            0x00d0000 => Some(ContentType::ArcadeTitle),
            0x00e0000 => Some(ContentType::Xna),
            0x00f0000 => Some(ContentType::LicenseStore),
            0x0100000 => Some(ContentType::Movie),
            0x0200000 => Some(ContentType::Tv),
            0x0300000 => Some(ContentType::MusicVideo),
            0x0400000 => Some(ContentType::GameVideo),
            0x0500000 => Some(ContentType::PodcastVideo),
            0x0600000 => Some(ContentType::ViralVideo),
            0x2000000 => Some(ContentType::CommunityGame),
            _ => None,
        }
    }

    /// The content type that `code` stands for.
    pub fn try_from(code: u32) -> (content_type: Option<ContentType>)
        ensures
            content_type == Self::of(code),
            match content_type {
                Some(c) => c.spec_code() == code,
                None => forall|c: ContentType| c.spec_code() != code,
            },
    {
        match code {
            0x0000001 => Some(ContentType::SavedGame),
            0x0000002 => Some(ContentType::MarketplaceContent),
            0x0000003 => Some(ContentType::Publisher),
            0x0001000 => Some(ContentType::Xbox360Title),
            0x0002000 => Some(ContentType::IptvPauseBuffer),
            0x0004000 => Some(ContentType::InstalledGame),
            0x0005000 => Some(ContentType::XboxOriginalGame),
            0x0007000 => Some(ContentType::GameOnDemand),
            0x0009000 => Some(ContentType::AvatarItem),
            0x0010000 => Some(ContentType::Profile),
            0x0020000 => Some(ContentType::GamerPicture),
            0x0030000 => Some(ContentType::Theme),
            0x0040000 => Some(ContentType::CacheFile),
            0x0050000 => Some(ContentType::StorageDownload),
            0x0060000 => Some(ContentType::XboxSavedGame),
            0x0070000 => Some(ContentType::XboxDownload),
            0x0080000 => Some(ContentType::GameDemo),
            0x0090000 => Some(ContentType::Video),
            0x00a0000 => Some(ContentType::GameTitle),
            0x00b0000 => Some(ContentType::Installer),
            0x00c0000 => Some(ContentType::GameTrailer),
            0x00d0000 => Some(ContentType::ArcadeTitle),
            0x00e0000 => Some(ContentType::Xna),
            0x00f0000 => Some(ContentType::LicenseStore),
            0x0100000 => Some(ContentType::Movie),
            0x0200000 => Some(ContentType::Tv),
            0x0300000 => Some(ContentType::MusicVideo),
            0x0400000 => Some(ContentType::GameVideo),
            0x0500000 => Some(ContentType::PodcastVideo),
            0x0600000 => Some(ContentType::ViralVideo),
            0x2000000 => Some(ContentType::CommunityGame),
            _ => None,
        }
    }
}

/// The machine that a package is for.
#[derive(Clone, Copy, Debug, PartialEq, Eq, Structural)]
pub enum Platform {
    Unknown,
    Xbox360,
    Pc,
}

impl Platform {
    /// The number that stands for the platform in a header.
    pub open spec fn spec_code(self) -> u8 {
        match self {
            Platform::Unknown => 0,
            Platform::Xbox360 => 2,
            Platform::Pc => 4,
        }
    }

    /// The number that stands for the platform in a header.
    pub fn code(self) -> (code: u8)
        ensures
            code == self.spec_code(),
    {
        match self {
            Platform::Unknown => 0,
            Platform::Xbox360 => 2,
            Platform::Pc => 4,
        }
    }

    /// The platform that `code` stands for.
    pub open spec fn of(code: u8) -> Option<Platform> {
        match code {
            0 => Some(Platform::Unknown),
            2 => Some(Platform::Xbox360),
            4 => Some(Platform::Pc),
            _ => None,
        }
    }

    /// The platform that `code` stands for.
    pub fn try_from(code: u8) -> (platform: Option<Platform>)
        ensures
            platform == Self::of(code),
            match platform {
                Some(p) => p.spec_code() == code,
                None => forall|p: Platform| p.spec_code() != code,
            },
    {
        match code {
            0 => Some(Platform::Unknown),
            2 => Some(Platform::Xbox360),
            4 => Some(Platform::Pc),
            _ => None,
        }
    }
}

/// Deep links are supported.
pub const DEEP_LINK_SUPPORTED: u8 = 0x04;

/// Storage on the network is disabled.
pub const DISABLE_NETWORK_STORAGE: u8 = 0x08;

/// The title uses the camera.
pub const KINECT_ENABLED: u8 = 0x10;

/// The package can be moved, not copied.
pub const MOVE_ONLY_TRANSFER: u8 = 0x20;

/// The package moves with the device.
pub const DEVICE_ID_TRANSFER: u8 = 0x40;

/// The package moves with the profile.
pub const PROFILE_ID_TRANSFER: u8 = 0x80;

/// How a package may be moved: a set of bits, kept as they are read.
#[derive(Clone, Copy, Debug, PartialEq, Eq, Structural)]
pub struct TransferFlags {
    pub bits: u8,
}

impl TransferFlags {
    /// No flag.
    pub fn empty() -> (flags: TransferFlags)
        ensures
            flags.bits == 0,
    {
        TransferFlags { bits: 0 }
    }

    /// The flags in `bits`, all of them.
    pub fn from_bits_retain(bits: u8) -> (flags: TransferFlags)
        ensures
            flags.bits == bits,
    {
        TransferFlags { bits }
    }

    /// The bits that are set.
    pub fn bits(self) -> (bits: u8)
        ensures
            bits == self.bits,
    {
        self.bits
    }

    /// Whether all bits of `flags` are set.
    pub fn contains(self, flags: u8) -> (all: bool)
        ensures
            all == (self.bits & flags == flags),
    {
        self.bits & flags == flags
    }
}

/// The first `n` bytes of `r`, with zero bytes where `r` ends before.
pub open spec fn zero_padded(r: Seq<u8>, n: int) -> Seq<u8> {
    Seq::new(
        n as nat,
        |i: int|
            if i < r.len() {
                r[i]
            } else {
                0u8
            },
    )
}

/// The `n` units that `2 * n` bytes hold, the high byte of each first.
pub open spec fn be_units(bytes: Seq<u8>, n: int) -> Seq<u16> {
    Seq::new(n as nat, |i: int| (bytes[2 * i] * 256 + bytes[2 * i + 1]) as u16)
}

/// How many units stand before the first zero unit from `from` on.
pub open spec fn units_before_zero(units: Seq<u16>, from: int) -> int
    decreases units.len() - from,
{
    if from < 0 || from >= units.len() || units[from] == 0 {
        from
    } else {
        units_before_zero(units, from + 1)
    }
}

/// The units of the text in the field that starts `r`: those before the
/// first zero unit of the 64. A field that the input cuts short is taken to
/// go on in zero bytes.
pub open spec fn small_string_units(r: Seq<u8>) -> Seq<u16> {
    let units = be_units(zero_padded(r, 128), 64);
    units.take(units_before_zero(units, 0))
}

/// The text in the field that starts `r`, decoded lossily.
pub open spec fn small_string(r: Seq<u8>) -> Seq<char> {
    utf16_lossy(small_string_units(r))
}

/// The texts in the `n` fields that start `r`, one behind the other.
pub open spec fn small_strings(r: Seq<u8>, n: int) -> Seq<Seq<char>> {
    Seq::new(n as nat, |i: int| small_string(suffix(r, 128 * i)))
}

/// A text of fewer than 64 UTF-16 code units.
#[derive(Debug)]
pub struct SmallString(pub String);

impl View for SmallString {
    type V = Seq<char>;

    open spec fn view(&self) -> Seq<char> {
        self.0@
    }
}

impl SmallString {
    /// The empty text.
    pub fn new() -> (text: SmallString)
        ensures
            text@ == Seq::<char>::empty(),
    {
        SmallString(String::new())
    }

    /// The text as a string slice.
    pub fn as_str(&self) -> (text: &str)
        ensures
            text@ == self@,
    {
        self.0.as_str()
    }

    /// Reads the text in the field that starts `r`.
    pub fn read_from(r: &[u8]) -> (text: SmallString)
        ensures
            text@ == small_string(r@),
    {
        let len: usize = r.len();
        let mut buf: Vec<u16> = Vec::new();
        let mut pair: [u8; 2] = [0u8;2];
        let mut i: usize = 0;
        let ghost padded = zero_padded(r@, 128);
        while i < SMALL_STRING_UNITS
            invariant
                i <= 64,
                len == r@.len(),
                padded == zero_padded(r@, 128),
                buf@ == be_units(padded, 64).take(i as int),
            decreases 64 - i,
        {
            pair[0] = if 2 * i < len {
                r[2 * i]
            } else {
                0
            };
            pair[1] = if 2 * i + 1 < len {
                r[2 * i + 1]
            } else {
                0
            };
            let unit: u16 = read_u16_be(pair.as_slice());
            proof {
                reveal_with_fuel(be_value, 3);
                assert(pair@.take(2) =~= pair@);
                assert(pair@.drop_last() =~= seq![pair@[0]]);
                assert(unit == padded[2 * i] * 256 + padded[2 * i + 1]);
            }
            buf.push(unit);
            assert(buf@ =~= be_units(padded, 64).take(i + 1));
            i += 1;
        }
        assert(buf@ =~= be_units(padded, 64));
        let mut n: usize = 0;
        while n < SMALL_STRING_UNITS && buf[n] != 0
            invariant
                n <= 64,
                buf@.len() == 64,
                units_before_zero(buf@, 0) == units_before_zero(buf@, n as int),
            decreases 64 - n,
        {
            n += 1;
        }
        let units = slice_subrange(buf.as_slice(), 0, n);
        assert(units@ =~= buf@.take(n as int));
        SmallString(string_from_utf16_lossy(units))
    }
}

/// One text in each of several languages.
#[derive(Debug)]
pub struct LocalizedString(pub Vec<SmallString>);

impl View for LocalizedString {
    type V = Seq<Seq<char>>;

    open spec fn view(&self) -> Seq<Seq<char>> {
        Seq::new(self.0@.len(), |i: int| self.0@[i]@)
    }
}

impl LocalizedString {
    /// No text.
    pub fn new() -> (texts: LocalizedString)
        ensures
            texts@ == Seq::<Seq<char>>::empty(),
    {
        let texts = LocalizedString(Vec::new());
        assert(texts@ =~= Seq::<Seq<char>>::empty());
        texts
    }

    /// Reads the 18 texts in the fields that start `r`.
    pub fn read_from(r: &[u8]) -> (texts: LocalizedString)
        ensures
            texts@ == small_strings(r@, 18),
    {
        let mut texts = LocalizedString::new();
        texts.read_more(r, LOCALES);
        assert(texts@ =~= small_strings(r@, 18));
        texts
    }

    /// Reads six texts more from the fields that start `r`.
    pub fn read_additional_from(&mut self, r: &[u8])
        ensures
            final(self)@ == old(self)@ + small_strings(r@, 6),
    {
        self.read_more(r, ADDITIONAL_LOCALES)
    }

    /// Reads `n` texts more from the fields that start `r`.
    fn read_more(&mut self, r: &[u8], n: usize)
        requires
            n <= 18,
        ensures
            final(self)@ == old(self)@ + small_strings(r@, n as int),
    {
        let mut i: usize = 0;
        assert(self@ =~= old(self)@ + small_strings(r@, 0));
        while i < n
            invariant
                i <= n,
                n <= 18,
                self@ == old(self)@ + small_strings(r@, i as int),
            decreases n - i,
        {
            let s = SmallString::read_from(slice_from(r, SMALL_STRING_SIZE * (i as u64)));
            let ghost before = self@;
            self.0.push(s);
            assert(self@ =~= before.push(small_string(suffix(r@, 128 * i))));
            assert(self@ =~= old(self)@ + small_strings(r@, i + 1));
            i += 1;
        }
    }
}

/// How the data of a package is laid out.
#[derive(Clone, Copy, Debug)]
pub enum FileSystem {
    Stfs,
    Svod {
        block_cache_element_count: u8,
        worker_thread_processor: u8,
        worker_thread_priority: u8,
        digest: [u8; 20],
        device_features: u8,
        data_block_count: u32,
        data_block_offset: u32,
    },
}

/// What the descriptor of a package's data says.
pub ghost enum FileSystemView {
    Stfs,
    Svod {
        block_cache_element_count: u8,
        worker_thread_processor: u8,
        worker_thread_priority: u8,
        digest: Seq<u8>,
        device_features: u8,
        data_block_count: u32,
        data_block_offset: u32,
    },
}

impl View for FileSystem {
    type V = FileSystemView;

    open spec fn view(&self) -> FileSystemView {
        match *self {
            FileSystem::Stfs => FileSystemView::Stfs,
            FileSystem::Svod {
                block_cache_element_count,
                worker_thread_processor,
                worker_thread_priority,
                digest,
                device_features,
                data_block_count,
                data_block_offset,
            } => FileSystemView::Svod {
                block_cache_element_count,
                worker_thread_processor,
                worker_thread_priority,
                digest: digest@,
                device_features,
                data_block_count,
                data_block_offset,
            },
        }
    }
}

/// The descriptor that stands at `off`, of a package with data in parts:
/// its size, which is 0x24, three bytes for the cache and the worker
/// thread, the digest of the first part's master hash list, the features of
/// the device, and the count and the offset of the data blocks in three
/// bytes each.
pub open spec fn svod_at(r: Seq<u8>, off: int) -> Result<FileSystemView, Error> {
    if !in_bounds(r, off, 1) {
        Err(Error::UnexpectedEof)
    } else if r[off] != 0x24 {
        Err(Error::InvalidData)
    } else if !in_bounds(r, off, 31) {
        Err(Error::UnexpectedEof)
    } else {
        Ok(
            FileSystemView::Svod {
                block_cache_element_count: r[off + 1],
                worker_thread_processor: r[off + 2],
                worker_thread_priority: r[off + 3],
                digest: bytes_at(r, off + 4, 20),
                device_features: r[off + 24],
                data_block_count: be_value(bytes_at(r, off + 25, 3)) as u32,
                data_block_offset: be_value(bytes_at(r, off + 28, 3)) as u32,
            },
        )
    }
}

impl FileSystem {
    /// The number that stands for the layout in a header.
    pub fn magic(&self) -> (magic: u32)
        ensures
            magic == match self@ {
                FileSystemView::Stfs => 0u32,
                FileSystemView::Svod { .. } => 1u32,
            },
    {
        match self {
            FileSystem::Stfs => 0,
            FileSystem::Svod { .. } => 1,
        }
    }

    /// The descriptor of a package with data in one file: it says nothing
    /// that is of use here.
    pub fn read_stfs(r: &[u8], off: u64, len: u64) -> (result: Result<FileSystem, Error>)
        ensures
            result matches Ok(fs) && fs@ == FileSystemView::Stfs,
    {
        Ok(FileSystem::Stfs)
    }

    /// Reads the descriptor at `off` of a package with data in parts.
    pub fn read_svod(r: &[u8], off: u64, len: u64) -> (result: Result<FileSystem, Error>)
        ensures
            match result {
                Ok(fs) => svod_at(r@, off as int) == Ok::<FileSystemView, Error>(fs@),
                Err(e) => svod_at(r@, off as int) == Err::<FileSystemView, Error>(e),
            },
    {
        let size: u8 = match read_u8_rel(r, off, 0) {
            Ok(v) => v,
            Err(e) => {
                return Err(e);
            },
        };
        if size != 0x24 {
            return Err(Error::InvalidData);
        }
        let raw = match read_bytes_rel(r, off, 0, 31) {
            Ok(raw) => raw,
            Err(e) => {
                return Err(e);
            },
        };
        let digest: [u8; 20] = array_of(slice_subrange(raw, 4, 24));
        let data_block_count: u32 = match read_u24_be_rel(r, off, 25) {
            Ok(v) => v,
            Err(e) => {
                return Err(e);
            },
        };
        let data_block_offset: u32 = match read_u24_be_rel(r, off, 28) {
            Ok(v) => v,
            Err(e) => {
                return Err(e);
            },
        };
        let fs = FileSystem::Svod {
            block_cache_element_count: raw[1],
            worker_thread_processor: raw[2],
            worker_thread_priority: raw[3],
            digest,
            device_features: raw[24],
            data_block_count,
            data_block_offset,
        };
        assert(digest@ =~= bytes_at(r@, off + 4, 20));
        Ok(fs)
    }
}

/// All that the header of a package says.
#[derive(Debug)]
pub struct Package {
    pub kind: PackageKind,
    pub content_type: ContentType,
    pub metadata_version: u32,
    pub content_size: u64,
    pub media_id: u32,
    pub version: u32,
    pub base_version: u32,
    pub title_id: u32,
    pub platform: Platform,
    pub executable_type: u8,
    pub disc_number: u8,
    pub disc_count: u8,
    pub save_game_id: u32,
    pub console_id: [u8; 5],
    pub profile_id: [u8; 8],
    pub file_system: FileSystem,
    pub data_file_count: u32,
    pub data_size: u64,
    pub series_id: [u8; 16],
    pub season_id: [u8; 16],
    pub season_number: u16,
    pub episode_number: u16,
    pub device_id: [u8; 20],
    pub display_name: LocalizedString,
    pub display_description: LocalizedString,
    pub publisher_name: SmallString,
    pub title_name: SmallString,
    pub transfer_flags: TransferFlags,
    pub thumbnail: Vec<u8>,
    pub title_thumbnail: Vec<u8>,
}

/// What the header of a package says.
pub ghost struct PackageView {
    pub kind: PackageKind,
    pub content_type: ContentType,
    pub metadata_version: u32,
    pub content_size: u64,
    pub media_id: u32,
    pub version: u32,
    pub base_version: u32,
    pub title_id: u32,
    pub platform: Platform,
    pub executable_type: u8,
    pub disc_number: u8,
    pub disc_count: u8,
    pub save_game_id: u32,
    pub console_id: Seq<u8>,
    pub profile_id: Seq<u8>,
    pub file_system: FileSystemView,
    pub data_file_count: u32,
    pub data_size: u64,
    pub series_id: Seq<u8>,
    pub season_id: Seq<u8>,
    pub season_number: u16,
    pub episode_number: u16,
    pub device_id: Seq<u8>,
    pub display_name: Seq<Seq<char>>,
    pub display_description: Seq<Seq<char>>,
    pub publisher_name: Seq<char>,
    pub title_name: Seq<char>,
    pub transfer_flags: u8,
    pub thumbnail: Seq<u8>,
    pub title_thumbnail: Seq<u8>,
}

impl View for Package {
    type V = PackageView;

    open spec fn view(&self) -> PackageView {
        PackageView {
            kind: self.kind,
            content_type: self.content_type,
            metadata_version: self.metadata_version,
            content_size: self.content_size,
            media_id: self.media_id,
            version: self.version,
            base_version: self.base_version,
            title_id: self.title_id,
            platform: self.platform,
            executable_type: self.executable_type,
            disc_number: self.disc_number,
            disc_count: self.disc_count,
            save_game_id: self.save_game_id,
            console_id: self.console_id@,
            profile_id: self.profile_id@,
            file_system: self.file_system@,
            data_file_count: self.data_file_count,
            data_size: self.data_size,
            series_id: self.series_id@,
            season_id: self.season_id@,
            season_number: self.season_number,
            episode_number: self.episode_number,
            device_id: self.device_id@,
            display_name: self.display_name@,
            display_description: self.display_description@,
            publisher_name: self.publisher_name@,
            title_name: self.title_name@,
            transfer_flags: self.transfer_flags.bits,
            thumbnail: self.thumbnail@,
            title_thumbnail: self.title_thumbnail@,
        }
    }
}

/// The number in the `width` bytes at `pos`, high byte first.
pub open spec fn be(r: Seq<u8>, pos: int, width: int) -> nat {
    be_value(bytes_at(r, pos, width))
}

/// Up to `n` bytes of `r` from `pos` on: fewer where `r` ends before.
pub open spec fn take_at(r: Seq<u8>, pos: int, n: int) -> Seq<u8> {
    let start = if pos < r.len() {
        pos
    } else {
        r.len() as int
    };
    let end = if pos + n < r.len() {
        pos + n
    } else {
        r.len() as int
    };
    r.subrange(start, end)
}

/// The descriptor of the data of the package at `off`: the number at 0x3a9
/// says of which kind it is, 0 for data in one file and 1 for data in
/// parts, and the descriptor itself is read 0x244 bytes into the package.
pub open spec fn file_system_at(r: Seq<u8>, off: int) -> Result<FileSystemView, Error> {
    let kind = be(r, off + 0x3a9, 4);
    if kind == 0 {
        Ok(FileSystemView::Stfs)
    } else if kind == 1 {
        svod_at(r, off + 0x244)
    } else {
        Err(Error::InvalidData)
    }
}

/// Why the fields from the start of the package at `off` to its profile id
/// cannot be read, if they cannot: the first that the input does not hold,
/// or that holds no value of its kind.
pub open spec fn head_error(r: Seq<u8>, off: int) -> Option<Error> {
    if !in_bounds(r, off, 4) {
        Some(Error::UnexpectedEof)
    } else if PackageKind::of(bytes_at(r, off, 4)) is None {
        Some(Error::InvalidData)
    } else if !in_bounds(r, off + 0x344, 4) {
        Some(Error::UnexpectedEof)
    } else if ContentType::of(be(r, off + 0x344, 4) as u32) is None {
        Some(Error::InvalidData)
    } else if !in_bounds(r, off + 0x348, 0x1d) {
        Some(Error::UnexpectedEof)
    } else if Platform::of(r[off + 0x364]) is None {
        Some(Error::InvalidData)
    } else if !in_bounds(r, off + 0x365, 0x14) {
        Some(Error::UnexpectedEof)
    } else {
        None
    }
}

/// Why the count and the size of the data files and the descriptor of the
/// data cannot be read, if they cannot.
pub open spec fn data_error(r: Seq<u8>, off: int) -> Option<Error> {
    if !in_bounds(r, off + 0x39d, 16) {
        Some(Error::UnexpectedEof)
    } else {
        match file_system_at(r, off) {
            Err(e) => Some(e),
            Ok(_) => None,
        }
    }
}

/// Why the fields behind the descriptor of the data cannot be read, if
/// they cannot: the fields of a series, from version 1 of the metadata on,
/// the id of the device, the flags, or the lengths of the icons.
pub open spec fn tail_error(r: Seq<u8>, off: int) -> Option<Error> {
    if be(r, off + 0x348, 4) >= 1 && !in_bounds(r, off + 0x3b1, 36) {
        Some(Error::UnexpectedEof)
    } else if !in_bounds(r, off + 0x3fd, 20) || !in_bounds(r, off + 0x1711, 1) || !in_bounds(
        r,
        0x1712,
        8,
    ) {
        Some(Error::UnexpectedEof)
    } else {
        None
    }
}

/// The first icon: as many bytes as the number at 0x1712 says, from 0x171a
/// on, or as many as `r` has there.
pub open spec fn thumbnail_at(r: Seq<u8>) -> Seq<u8> {
    take_at(r, 0x171a, be(r, 0x1712, 4) as int)
}

/// The second icon: as many bytes as the number at 0x1716 says, from the
/// end of the first icon on, or as many as `r` has there.
pub open spec fn title_thumbnail_at(r: Seq<u8>) -> Seq<u8> {
    take_at(r, 0x171a + thumbnail_at(r).len() as int, be(r, 0x1716, 4) as int)
}

/// The names of the package at `off`: 18 at 0x411, and from version 1 of
/// the metadata on 6 more at 0x541a.
pub open spec fn display_names_at(r: Seq<u8>, off: int) -> Seq<Seq<char>> {
    let names = small_strings(suffix(r, off + 0x411), 18);
    if be(r, off + 0x348, 4) >= 1 {
        names + small_strings(suffix(r, off + 0x541a), 6)
    } else {
        names
    }
}

/// The descriptions of the package at `off`: 18 at 0xd11, and from version
/// 1 of the metadata on 6 more, which are taken from behind the end of `r`,
/// where no byte stands.
pub open spec fn display_descriptions_at(r: Seq<u8>, off: int) -> Seq<Seq<char>> {
    let descriptions = small_strings(suffix(r, off + 0xd11), 18);
    if be(r, off + 0x348, 4) >= 1 {
        descriptions + small_strings(Seq::empty(), 6)
    } else {
        descriptions
    }
}

/// The `n` bytes at `pos` from version 1 of the metadata on, and `n` zero
/// bytes before.
pub open spec fn from_version_1(r: Seq<u8>, off: int, pos: int, n: int) -> Seq<u8> {
    if be(r, off + 0x348, 4) >= 1 {
        bytes_at(r, pos, n)
    } else {
        Seq::new(n as nat, |i: int| 0u8)
    }
}

/// The number in the two bytes at `pos` from version 1 of the metadata on,
/// and zero before.
pub open spec fn number_from_version_1(r: Seq<u8>, off: int, pos: int) -> u16 {
    if be(r, off + 0x348, 4) >= 1 {
        be(r, pos, 2) as u16
    } else {
        0
    }
}

/// The header of the package that stands at `off` of `r`, field by field in
/// the order of their offsets; the first field that cannot be read or holds
/// no value of its kind decides the error. Texts are never an error. The
/// icons are looked for 0x1712 bytes into `r`, whatever `off` is.
pub open spec fn package_at(r: Seq<u8>, off: int) -> Result<PackageView, Error> {
    if head_error(r, off) is Some {
        Err(head_error(r, off)->Some_0)
    } else if data_error(r, off) is Some {
        Err(data_error(r, off)->Some_0)
    } else if tail_error(r, off) is Some {
        Err(tail_error(r, off)->Some_0)
    } else {
        Ok(
            PackageView {
                kind: PackageKind::of(bytes_at(r, off, 4))->Some_0,
                content_type: ContentType::of(be(r, off + 0x344, 4) as u32)->Some_0,
                metadata_version: be(r, off + 0x348, 4) as u32,
                content_size: be(r, off + 0x34c, 8) as u64,
                media_id: be(r, off + 0x354, 4) as u32,
                version: be(r, off + 0x358, 4) as u32,
                base_version: be(r, off + 0x35c, 4) as u32,
                title_id: be(r, off + 0x360, 4) as u32,
                platform: Platform::of(r[off + 0x364])->Some_0,
                executable_type: r[off + 0x365],
                disc_number: r[off + 0x366],
                disc_count: r[off + 0x367],
                save_game_id: be(r, off + 0x368, 4) as u32,
                console_id: bytes_at(r, off + 0x36c, 5),
                profile_id: bytes_at(r, off + 0x371, 8),
                file_system: file_system_at(r, off)->Ok_0,
                data_file_count: be(r, off + 0x39d, 4) as u32,
                data_size: be(r, off + 0x3a1, 8) as u64,
                series_id: from_version_1(r, off, off + 0x3b1, 16),
                season_id: from_version_1(r, off, off + 0x3c1, 16),
                season_number: number_from_version_1(r, off, off + 0x3d1),
                episode_number: number_from_version_1(r, off, off + 0x3d3),
                device_id: bytes_at(r, off + 0x3fd, 20),
                display_name: display_names_at(r, off),
                display_description: display_descriptions_at(r, off),
                publisher_name: small_string(suffix(r, off + 0x1611)),
                title_name: small_string(suffix(r, off + 0x1691)),
                transfer_flags: r[off + 0x1711],
                thumbnail: thumbnail_at(r),
                title_thumbnail: title_thumbnail_at(r),
            },
        )
    }
}

/// Up to `n` bytes of `r` from `pos` on, as a vector.
pub fn read_up_to(r: &[u8], pos: u64, n: u32) -> (bytes: Vec<u8>)
    ensures
        bytes@ == take_at(r@, pos as int, n as int),
{
    let len: usize = r.len();
    let rest = slice_from(r, pos);
    let count: usize = if rest.len() as u64 > n as u64 {
        n as usize
    } else {
        rest.len()
    };
    let mut bytes: Vec<u8> = Vec::new();
    bytes.extend_from_slice(slice_subrange(rest, 0, count));
    assert(bytes@ =~= take_at(r@, pos as int, n as int));
    bytes
}

impl Package {
    /// A package of the given kind, content type and layout of its data,
    /// with every other field zero or empty.
    pub fn new(kind: PackageKind, content_type: ContentType, file_system: FileSystem) -> (package:
        Package)
        ensures
            package@ == (PackageView {
                kind,
                content_type,
                metadata_version: 0,
                content_size: 0,
                media_id: 0,
                version: 0,
                base_version: 0,
                title_id: 0,
                platform: Platform::Unknown,
                executable_type: 0,
                disc_number: 0,
                disc_count: 0,
                save_game_id: 0,
                console_id: Seq::new(5, |i: int| 0u8),
                profile_id: Seq::new(8, |i: int| 0u8),
                file_system: file_system@,
                data_file_count: 0,
                data_size: 0,
                series_id: Seq::new(16, |i: int| 0u8),
                season_id: Seq::new(16, |i: int| 0u8),
                season_number: 0,
                episode_number: 0,
                device_id: Seq::new(20, |i: int| 0u8),
                display_name: Seq::empty(),
                display_description: Seq::empty(),
                publisher_name: Seq::empty(),
                title_name: Seq::empty(),
                transfer_flags: 0,
                thumbnail: Seq::empty(),
                title_thumbnail: Seq::empty(),
            }),
    {
        let package = Package {
            kind,
            content_type,
            metadata_version: 0,
            content_size: 0,
            media_id: 0,
            version: 0,
            base_version: 0,
            title_id: 0,
            platform: Platform::Unknown,
            executable_type: 0,
            disc_number: 0,
            disc_count: 0,
            save_game_id: 0,
            console_id: [0u8;5],
            profile_id: [0u8;8],
            file_system,
            data_file_count: 0,
            data_size: 0,
            series_id: [0u8;16],
            season_id: [0u8;16],
            season_number: 0,
            episode_number: 0,
            device_id: [0u8;20],
            display_name: LocalizedString::new(),
            display_description: LocalizedString::new(),
            publisher_name: SmallString::new(),
            title_name: SmallString::new(),
            transfer_flags: TransferFlags::empty(),
            thumbnail: Vec::new(),
            title_thumbnail: Vec::new(),
        };
        assert(package@.console_id =~= Seq::new(5, |i: int| 0u8));
        assert(package@.profile_id =~= Seq::new(8, |i: int| 0u8));
        assert(package@.series_id =~= Seq::new(16, |i: int| 0u8));
        assert(package@.season_id =~= Seq::new(16, |i: int| 0u8));
        assert(package@.device_id =~= Seq::new(20, |i: int| 0u8));
        package
    }
}

/// The fields of a package from its start to its profile id.
struct Head {
    kind: PackageKind,
    content_type: ContentType,
    metadata_version: u32,
    content_size: u64,
    media_id: u32,
    version: u32,
    base_version: u32,
    title_id: u32,
    platform: Platform,
    executable_type: u8,
    disc_number: u8,
    disc_count: u8,
    save_game_id: u32,
    console_id: [u8; 5],
    profile_id: [u8; 8],
}

/// The fields of a series, the id of the device and the flags.
struct Tail {
    series_id: [u8; 16],
    season_id: [u8; 16],
    season_number: u16,
    episode_number: u16,
    device_id: [u8; 20],
    transfer_flags: u8,
}

/// Reads the fields of the package at `off` from its start to its profile
/// id.
fn read_head(r: &[u8], off: u64) -> (result: Result<Head, Error>)
    ensures
        match result {
            Ok(head) => {
                &&& head_error(r@, off as int) is None
                &&& head.kind == PackageKind::of(bytes_at(r@, off as int, 4))->Some_0
                &&& head.content_type == ContentType::of(be(r@, off + 0x344, 4) as u32)->Some_0
                &&& head.metadata_version == be(r@, off + 0x348, 4)
                &&& head.content_size == be(r@, off + 0x34c, 8)
                &&& head.media_id == be(r@, off + 0x354, 4)
                &&& head.version == be(r@, off + 0x358, 4)
                &&& head.base_version == be(r@, off + 0x35c, 4)
                &&& head.title_id == be(r@, off + 0x360, 4)
                &&& head.platform == Platform::of(r@[off + 0x364])->Some_0
                &&& head.executable_type == r@[off + 0x365]
                &&& head.disc_number == r@[off + 0x366]
                &&& head.disc_count == r@[off + 0x367]
                &&& head.save_game_id == be(r@, off + 0x368, 4)
                &&& head.console_id@ == bytes_at(r@, off + 0x36c, 5)
                &&& head.profile_id@ == bytes_at(r@, off + 0x371, 8)
            },
            Err(e) => head_error(r@, off as int) == Some(e),
        },
{
    let magic = match read_bytes_rel(r, off, 0, 4) {
        Ok(magic) => magic,
        Err(e) => {
            return Err(e);
        },
    };
    let kind = match PackageKind::from_magic(magic) {
        Some(kind) => kind,
        None => {
            return Err(Error::InvalidData);
        },
    };
    let content_type: u32 = match read_u32_be_rel(r, off, 0x344) {
        Ok(v) => v,
        Err(e) => {
            return Err(e);
        },
    };
    let content_type = match ContentType::try_from(content_type) {
        Some(c) => c,
        None => {
            return Err(Error::InvalidData);
        },
    };
    let fixed = match read_bytes_rel(r, off, 0x348, 0x1d) {
        Ok(fixed) => fixed,
        Err(e) => {
            return Err(e);
        },
    };
    let metadata_version: u32 = match read_u32_be_rel(r, off, 0x348) {
        Ok(v) => v,
        Err(e) => {
            return Err(e);
        },
    };
    let content_size: u64 = match read_u64_be_rel(r, off, 0x34c) {
        Ok(v) => v,
        Err(e) => {
            return Err(e);
        },
    };
    let media_id: u32 = match read_u32_be_rel(r, off, 0x354) {
        Ok(v) => v,
        Err(e) => {
            return Err(e);
        },
    };
    let version: u32 = match read_u32_be_rel(r, off, 0x358) {
        Ok(v) => v,
        Err(e) => {
            return Err(e);
        },
    };
    let base_version: u32 = match read_u32_be_rel(r, off, 0x35c) {
        Ok(v) => v,
        Err(e) => {
            return Err(e);
        },
    };
    let title_id: u32 = match read_u32_be_rel(r, off, 0x360) {
        Ok(v) => v,
        Err(e) => {
            return Err(e);
        },
    };
    let platform = match Platform::try_from(fixed[0x1c]) {
        Some(p) => p,
        None => {
            return Err(Error::InvalidData);
        },
    };
    let ids = match read_bytes_rel(r, off, 0x365, 0x14) {
        Ok(ids) => ids,
        Err(e) => {
            return Err(e);
        },
    };
    let save_game_id: u32 = match read_u32_be_rel(r, off, 0x368) {
        Ok(v) => v,
        Err(e) => {
            return Err(e);
        },
    };
    let console_id: [u8; 5] = array_of(slice_subrange(ids, 7, 12));
    let profile_id: [u8; 8] = array_of(slice_subrange(ids, 12, 20));
    assert(console_id@ =~= bytes_at(r@, off + 0x36c, 5));
    assert(profile_id@ =~= bytes_at(r@, off + 0x371, 8));
    Ok(
        Head {
            kind,
            content_type,
            metadata_version,
            content_size,
            media_id,
            version,
            base_version,
            title_id,
            platform,
            executable_type: ids[0],
            disc_number: ids[1],
            disc_count: ids[2],
            save_game_id,
            console_id,
            profile_id,
        },
    )
}

/// Reads the count and the size of the data files of the package at `off`
/// and the descriptor of its data.
fn read_data(r: &[u8], off: u64) -> (result: Result<(u32, u64, FileSystem), Error>)
    requires
        head_error(r@, off as int) is None,
    ensures
        match result {
            Ok((count, size, file_system)) => {
                &&& data_error(r@, off as int) is None
                &&& count == be(r@, off + 0x39d, 4)
                &&& size == be(r@, off + 0x3a1, 8)
                &&& file_system_at(r@, off as int) == Ok::<FileSystemView, Error>(file_system@)
            },
            Err(e) => data_error(r@, off as int) == Some(e),
        },
{
    let total: usize = r.len();
    match read_bytes_rel(r, off, 0x39d, 16) {
        Ok(_) => {},
        Err(e) => {
            return Err(e);
        },
    }
    let data_file_count: u32 = match read_u32_be_rel(r, off, 0x39d) {
        Ok(v) => v,
        Err(e) => {
            return Err(e);
        },
    };
    let data_size: u64 = match read_u64_be_rel(r, off, 0x3a1) {
        Ok(v) => v,
        Err(e) => {
            return Err(e);
        },
    };
    let file_system_type: u32 = match read_u32_be_rel(r, off, 0x3a9) {
        Ok(v) => v,
        Err(e) => {
            return Err(e);
        },
    };
    let desc_off: u64 = off + 0x244;
    let desc_len: u64 = 0x24;
    let file_system = if file_system_type == 0 {
        FileSystem::Stfs
    } else if file_system_type == 1 {
        match FileSystem::read_svod(r, desc_off, desc_len) {
            Ok(fs) => fs,
            Err(e) => {
                return Err(e);
            },
        }
    } else {
        return Err(Error::InvalidData);
    };
    Ok((data_file_count, data_size, file_system))
}

/// Reads the fields of a series, where the package at `off` has them, the
/// id of the device and the flags, and asks for the lengths of the icons.
fn read_tail(r: &[u8], off: u64, metadata_version: u32) -> (result: Result<Tail, Error>)
    requires
        metadata_version == be(r@, off + 0x348, 4),
    ensures
        match result {
            Ok(tail) => {
                &&& tail_error(r@, off as int) is None
                &&& tail.series_id@ == from_version_1(r@, off as int, off + 0x3b1, 16)
                &&& tail.season_id@ == from_version_1(r@, off as int, off + 0x3c1, 16)
                &&& tail.season_number == number_from_version_1(r@, off as int, off + 0x3d1)
                &&& tail.episode_number == number_from_version_1(r@, off as int, off + 0x3d3)
                &&& tail.device_id@ == bytes_at(r@, off + 0x3fd, 20)
                &&& tail.transfer_flags == r@[off + 0x1711]
            },
            Err(e) => tail_error(r@, off as int) == Some(e),
        },
{
    let mut series_id: [u8; 16] = [0u8;16];
    let mut season_id: [u8; 16] = [0u8;16];
    let mut season_number: u16 = 0;
    let mut episode_number: u16 = 0;
    if metadata_version >= 1 {
        let series = match read_bytes_rel(r, off, 0x3b1, 36) {
            Ok(series) => series,
            Err(e) => {
                return Err(e);
            },
        };
        series_id = array_of(slice_subrange(series, 0, 16));
        season_id = array_of(slice_subrange(series, 16, 32));
        season_number = match read_u16_be_rel(r, off, 0x3d1) {
            Ok(v) => v,
            Err(e) => {
                return Err(e);
            },
        };
        episode_number = match read_u16_be_rel(r, off, 0x3d3) {
            Ok(v) => v,
            Err(e) => {
                return Err(e);
            },
        };
    }
    assert(series_id@ =~= from_version_1(r@, off as int, off + 0x3b1, 16));
    assert(season_id@ =~= from_version_1(r@, off as int, off + 0x3c1, 16));
    let device = match read_bytes_rel(r, off, 0x3fd, 20) {
        Ok(device) => device,
        Err(e) => {
            return Err(e);
        },
    };
    let device_id: [u8; 20] = array_of(device);
    let transfer_flags: u8 = match read_u8_rel(r, off, 0x1711) {
        Ok(v) => v,
        Err(e) => {
            return Err(e);
        },
    };
    match read_bytes_rel(r, 0x1712, 0, 8) {
        Ok(_) => {},
        Err(e) => {
            return Err(e);
        },
    }
    Ok(Tail { series_id, season_id, season_number, episode_number, device_id, transfer_flags })
}

/// Reads the two icons.
fn read_thumbnails(r: &[u8]) -> (icons: (Vec<u8>, Vec<u8>))
    requires
        in_bounds(r@, 0x1712, 8),
    ensures
        icons.0@ == thumbnail_at(r@),
        icons.1@ == title_thumbnail_at(r@),
{
    let thumbnail_len: u32 = match read_u32_be_rel(r, 0x1712, 0) {
        Ok(v) => v,
        Err(_) => 0,
    };
    let title_thumbnail_len: u32 = match read_u32_be_rel(r, 0x1716, 0) {
        Ok(v) => v,
        Err(_) => 0,
    };
    let thumbnail = read_up_to(r, 0x171a, thumbnail_len);
    let title_thumbnail = read_up_to(r, 0x171a + thumbnail.len() as u64, title_thumbnail_len);
    (thumbnail, title_thumbnail)
}

/// Reads the names and the descriptions of the package at `off`.
fn read_display_texts(r: &[u8], off: u64, metadata_version: u32) -> (texts: (
    LocalizedString,
    LocalizedString,
))
    requires
        metadata_version == be(r@, off + 0x348, 4),
    ensures
        texts.0@ == display_names_at(r@, off as int),
        texts.1@ == display_descriptions_at(r@, off as int),
{
    let total: usize = r.len();
    let mut display_name = LocalizedString::read_from(slice_from_rel(r, off, 0x411));
    let mut display_description = LocalizedString::read_from(slice_from_rel(r, off, 0xd11));
    if metadata_version >= 1 {
        display_name.read_additional_from(slice_from_rel(r, off, 0x541a));
        let nothing = slice_subrange(r, total, total);
        assert(nothing@ =~= Seq::<u8>::empty());
        display_description.read_additional_from(nothing);
    }
    (display_name, display_description)
}

impl ReadFromRange for Package {
    /// The header at `off`, or why there is none.
    open spec fn parsed(r: Seq<u8>, off: u64, len: u64, result: Result<Self, Error>) -> bool {
        match result {
            Ok(package) => package_at(r, off as int) == Ok::<PackageView, Error>(package@),
            Err(e) => package_at(r, off as int) == Err::<PackageView, Error>(e),
        }
    }

    /// Reads the header of the package that stands at `off` of `r`.
    fn read_from_range(r: &[u8], off: u64, len: u64) -> (result: Result<Self, Error>) {
        let head = match read_head(r, off) {
            Ok(head) => head,
            Err(e) => {
                return Err(e);
            },
        };
        let (data_file_count, data_size, file_system) = match read_data(r, off) {
            Ok(data) => data,
            Err(e) => {
                return Err(e);
            },
        };
        let tail = match read_tail(r, off, head.metadata_version) {
            Ok(tail) => tail,
            Err(e) => {
                return Err(e);
            },
        };
        let (display_name, display_description) = read_display_texts(
            r,
            off,
            head.metadata_version,
        );
        let publisher_name = SmallString::read_from(slice_from_rel(r, off, 0x1611));
        let title_name = SmallString::read_from(slice_from_rel(r, off, 0x1691));
        let (thumbnail, title_thumbnail) = read_thumbnails(r);
        Ok(
            Package {
                kind: head.kind,
                content_type: head.content_type,
                metadata_version: head.metadata_version,
                content_size: head.content_size,
                media_id: head.media_id,
                version: head.version,
                base_version: head.base_version,
                title_id: head.title_id,
                platform: head.platform,
                executable_type: head.executable_type,
                disc_number: head.disc_number,
                disc_count: head.disc_count,
                save_game_id: head.save_game_id,
                console_id: head.console_id,
                profile_id: head.profile_id,
                file_system,
                data_file_count,
                data_size,
                series_id: tail.series_id,
                season_id: tail.season_id,
                season_number: tail.season_number,
                episode_number: tail.episode_number,
                device_id: tail.device_id,
                display_name,
                display_description,
                publisher_name,
                title_name,
                transfer_flags: TransferFlags::from_bits_retain(tail.transfer_flags),
                thumbnail,
                title_thumbnail,
            },
        )
    }
}

} // verus!
