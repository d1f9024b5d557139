//! The layouts of a disc image, and which of them an image has.

use crate::error::Error;
use crate::iso_fs::{has_magic, magic, DESCRIPTOR_OFFSET, MAGIC_BYTES};
use crate::ranged::gdfx::FileSystem;
use crate::ranged::io::{RangeRef, ReadFromRange};
use crate::stream::{bytes_equal, read_bytes};
use vstd::prelude::*;

verus! {

/// The layouts of a disc image: where the volume starts.
#[derive(Clone, Copy, Debug, PartialEq, Eq, Structural)]
pub enum Iso {
    Xgd3,
    Xgd2,
    Xgd1,
    Xsf,
}

impl Iso {
    /// The offset of the volume in an image of this layout.
    pub open spec fn spec_data_volume_offset(self) -> u64 {
        match self {
            Iso::Xgd3 => 0x2080000,
            Iso::Xgd2 => 0xfd90000,
            Iso::Xgd1 => 0x18300000,
            Iso::Xsf => 0,
        }
    }

    /// The place of the layout in the order in which the layouts are tried:
    /// Xgd3 first, then Xgd2, Xgd1 and Xsf.
    pub open spec fn priority(self) -> int {
        match self {
            Iso::Xgd3 => 0,
            Iso::Xgd2 => 1,
            Iso::Xgd1 => 2,
            Iso::Xsf => 3,
        }
    }

    /// Whether the image that starts at `off` of `r` carries the signature
    /// where this layout has it.
    pub open spec fn matches(self, r: Seq<u8>, off: u64) -> bool {
        has_magic(r, off + self.spec_data_volume_offset())
    }

    /// The layout of the image that starts at `off` of `r`: the first, in
    /// the order of trial, whose signature the image carries.
    pub open spec fn detect(r: Seq<u8>, off: u64) -> Option<Iso> {
        if Iso::Xgd3.matches(r, off) {
            Some(Iso::Xgd3)
        } else if Iso::Xgd2.matches(r, off) {
            Some(Iso::Xgd2)
        } else if Iso::Xgd1.matches(r, off) {
            Some(Iso::Xgd1)
        } else if Iso::Xsf.matches(r, off) {
            Some(Iso::Xsf)
        } else {
            None
        }
    }

    /// An image that carries the signature of a layout is found to have a
    /// layout: that one, unless one that is tried before it matches too. The
    /// layout found always matches, and none that is tried before it does.
    pub proof fn lemma_detect_first_match(r: Seq<u8>, off: u64, iso: Iso)
        requires
            iso.matches(r, off),
        ensures
            Self::detect(r, off) is Some,
            Self::detect(r, off)->Some_0.matches(r, off),
            Self::detect(r, off)->Some_0.priority() <= iso.priority(),
            forall|other: Iso|
                other.priority() < Self::detect(r, off)->Some_0.priority() ==> !other.matches(
                    r,
                    off,
                ),
            (forall|other: Iso| other.priority() < iso.priority() ==> !other.matches(r, off))
                ==> Self::detect(r, off) == Some(iso),
    {
        assert(Iso::Xgd3.priority() == 0);
        assert(Iso::Xgd2.priority() == 1);
        assert(Iso::Xgd1.priority() == 2);
        assert(Iso::Xsf.priority() == 3);
    }

    /// The layouts in the order in which they are tried.
    pub fn all_supported() -> (all: [Iso; 4])
        ensures
            all@ == seq![Iso::Xgd3, Iso::Xgd2, Iso::Xgd1, Iso::Xsf],
    {
        let all = [Iso::Xgd3, Iso::Xgd2, Iso::Xgd1, Iso::Xsf];
        assert(all@ =~= seq![Iso::Xgd3, Iso::Xgd2, Iso::Xgd1, Iso::Xsf]);
        all
    }

    /// The offset of the volume in an image of this layout.
    pub fn data_volume_offset(self) -> (offset: u64)
        ensures
            offset == self.spec_data_volume_offset(),
    {
        match self {
            Iso::Xgd3 => 0x2080000,
            Iso::Xgd2 => 0xfd90000,
            Iso::Xgd1 => 0x18300000,
            Iso::Xsf => 0,
        }
    }

    /// The range of the volume in the range `rr` of an image of this
    /// layout: from the offset of the volume to the end of the image.
    pub fn gdfx_volume(&self, rr: RangeRef<Iso>) -> (volume: RangeRef<FileSystem>)
        requires
            self.spec_data_volume_offset() <= rr.spec_length(),
        ensures
            volume.spec_offset() == rr.spec_offset() + self.spec_data_volume_offset(),
            volume.spec_length() == rr.spec_length() - self.spec_data_volume_offset(),
    {
        rr.slice_from(self.data_volume_offset())
    }

    /// Whether the image that starts at `off` of `r` carries the signature
    /// where this layout has it. An image too short for it does not.
    pub fn check(self, r: &[u8], off: u64) -> (found: bool)
        ensures
            found == self.matches(r@, off),
    {
        let len: usize = r.len();
        let magic_offset: u64 = self.data_volume_offset() + DESCRIPTOR_OFFSET;
        let pos: u64 = match off.checked_add(magic_offset) {
            Some(pos) => pos,
            None => {
                return false;
            },
        };
        match read_bytes(r, pos, 20) {
            Ok(found) => {
                assert(MAGIC_BYTES@ =~= magic());
                bytes_equal(found, MAGIC_BYTES.as_slice())
            },
            Err(_) => false,
        }
    }
}

impl ReadFromRange for Iso {
    /// The layout that is found, or the error that no signature is there.
    open spec fn parsed(r: Seq<u8>, off: u64, len: u64, result: Result<Self, Error>) -> bool {
        result == match Iso::detect(r, off) {
            Some(iso) => Ok::<Iso, Error>(iso),
            None => Err::<Iso, Error>(Error::MagicNotFound),
        }
    }

    /// Finds the layout of the image that starts at `off` of `r`: the first
    /// of Xgd3, Xgd2, Xgd1 and Xsf whose signature the image carries.
    fn read_from_range(r: &[u8], off: u64, len: u64) -> (result: Result<Self, Error>) {
        if Iso::Xgd3.check(r, off) {
            return Ok(Iso::Xgd3);
        }
        if Iso::Xgd2.check(r, off) {
            return Ok(Iso::Xgd2);
        }
        if Iso::Xgd1.check(r, off) {
            return Ok(Iso::Xgd1);
        }
        if Iso::Xsf.check(r, off) {
            return Ok(Iso::Xsf);
        }
        Err(Error::MagicNotFound)
    }
}

} // verus!
