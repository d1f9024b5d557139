//! The descriptor of a volume: where the root directory is, and how large
//! the volume is.

use crate::byte_order::le_value;
use crate::error::Error;
use crate::iso::iso_type::IsoType;
use crate::iso::SECTOR_SIZE;
use crate::stream::{bytes_at, in_bounds, read_bytes, read_u32_le_at};
use vstd::prelude::*;

verus! {

/// What the descriptor of a volume says, and where the volume lies.
#[derive(Clone, Copy, Debug)]
pub struct VolumeDescriptor {
    pub root_offset: u64,
    pub sector_size: u64,
    pub identifier: [u8; 20],
    pub root_directory_sector: u32,
    pub root_directory_size: u32,
    pub image_creation_time: [u8; 8],
    pub volume_size: u64,
    pub volume_sectors: u64,
}

impl VolumeDescriptor {
    /// Whether this is the descriptor of the volume of `image` in the layout
    /// `iso_type`: the identifier in twenty bytes, 32 sectors into the
    /// volume, then sector and size of the root directory in four bytes
    /// each, low byte first, and the time of creation in eight. Sectors
    /// have 2048 bytes, and the volume reaches to the end of the image.
    pub open spec fn describes(self, image: Seq<u8>, iso_type: IsoType) -> bool {
        let at = iso_type.spec_root_offset() + 0x10000;
        &&& self.root_offset == iso_type.spec_root_offset()
        &&& self.sector_size == 2048
        &&& self.identifier@ == bytes_at(image, at, 20)
        &&& self.root_directory_sector == le_value(bytes_at(image, at + 20, 4))
        &&& self.root_directory_size == le_value(bytes_at(image, at + 24, 4))
        &&& self.image_creation_time@ == bytes_at(image, at + 28, 8)
        &&& self.volume_size == image.len() - iso_type.spec_root_offset()
        &&& self.volume_sectors == (image.len() - iso_type.spec_root_offset()) / 2048
    }

    /// Reads the descriptor of the volume of an image, in the layout that
    /// the image is found to have. An image without a layout is an error.
    pub fn read(reader: &[u8]) -> (result: Result<VolumeDescriptor, Error>)
        ensures
            match result {
                Ok(volume) => IsoType::detect(reader@) is Some && in_bounds(
                    reader@,
                    IsoType::detect(reader@)->Some_0.spec_root_offset() + 0x10000,
                    36,
                ) && volume.describes(reader@, IsoType::detect(reader@)->Some_0),
                Err(e) => match IsoType::detect(reader@) {
                    None => e == Error::InvalidIsoFormat,
                    Some(iso_type) => e == Error::UnexpectedEof && !in_bounds(
                        reader@,
                        iso_type.spec_root_offset() + 0x10000,
                        36,
                    ),
                },
            },
    {
        match IsoType::read(reader) {
            Some(iso_type) => Self::read_of_type(reader, iso_type),
            None => Err(Error::InvalidIsoFormat),
        }
    }

    /// Reads the descriptor of the volume of an image in the layout
    /// `iso_type`. The signature is not asked for.
    pub fn read_of_type(reader: &[u8], iso_type: IsoType) -> (result: Result<
        VolumeDescriptor,
        Error,
    >)
        ensures
            match result {
                Ok(volume) => in_bounds(reader@, iso_type.spec_root_offset() + 0x10000, 36)
                    && volume.describes(reader@, iso_type),
                Err(e) => e == Error::UnexpectedEof && !in_bounds(
                    reader@,
                    iso_type.spec_root_offset() + 0x10000,
                    36,
                ),
            },
    {
        let len: usize = reader.len();
        let root_offset: u64 = iso_type.root_offset();
        let at: u64 = 0x20 * SECTOR_SIZE + root_offset;
        let raw = match read_bytes(reader, at, 36) {
            Ok(raw) => raw,
            Err(e) => {
                return Err(e);
            },
        };
        let mut identifier: [u8; 20] = [0u8;20];
        let mut i: usize = 0;
        while i < 20
            invariant
                i <= 20,
                raw@.len() == 36,
                forall|j: int| 0 <= j < i ==> identifier@[j] == raw@[j],
            decreases 20 - i,
        {
            identifier[i] = raw[i];
            i += 1;
        }
        let root_dir_sector: u32 = match read_u32_le_at(reader, at + 20) {
            Ok(v) => v,
            Err(e) => {
                return Err(e);
            },
        };
        let root_dir_size: u32 = match read_u32_le_at(reader, at + 24) {
            Ok(v) => v,
            Err(e) => {
                return Err(e);
            },
        };
        let mut image_creation_time: [u8; 8] = [0u8;8];
        let mut k: usize = 0;
        while k < 8
            invariant
                k <= 8,
                raw@.len() == 36,
                forall|j: int| 0 <= j < k ==> image_creation_time@[j] == raw@[28 + j],
            decreases 8 - k,
        {
            image_creation_time[k] = raw[28 + k];
            k += 1;
        }
        let volume_size: u64 = len as u64 - root_offset;
        let volume_sectors: u64 = volume_size / SECTOR_SIZE;
        assert(identifier@ =~= bytes_at(reader@, at as int, 20));
        assert(image_creation_time@ =~= bytes_at(reader@, at + 28, 8));
        Ok(
            VolumeDescriptor {
                sector_size: SECTOR_SIZE,
                root_offset,
                identifier,
                root_directory_sector: root_dir_sector,
                root_directory_size: root_dir_size,
                image_creation_time,
                volume_size,
                volume_sectors,
            },
        )
    }
}

} // verus!
