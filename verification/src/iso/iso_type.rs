//! The layouts of a disc image, and which of them an image has.

use crate::iso_fs::{has_magic, magic, MAGIC_BYTES};
use crate::stream::{bytes_equal, read_bytes};
use vstd::prelude::*;

verus! {

/// The layouts of a disc image: where the volume starts.
#[derive(Clone, Copy, Debug, PartialEq, Eq, Structural)]
pub enum IsoType {
    Xgd3,
    Xgd2,
    Xgd1,
    Xsf,
}

impl IsoType {
    /// The offset of the volume in an image of this layout.
    pub open spec fn spec_root_offset(self) -> u64 {
        match self {
            IsoType::Xgd3 => 0x2080000,
            IsoType::Xgd2 => 0xfd90000,
            IsoType::Xgd1 => 0x18300000,
            IsoType::Xsf => 0,
        }
    }

    /// The place of the layout in the order in which the layouts are tried:
    /// Xsf first, then Xgd2, Xgd1 and Xgd3.
    pub open spec fn priority(self) -> int {
        match self {
            IsoType::Xsf => 0,
            IsoType::Xgd2 => 1,
            IsoType::Xgd1 => 2,
            IsoType::Xgd3 => 3,
        }
    }

    /// Whether `image` carries the signature where this layout has it.
    pub open spec fn matches(self, image: Seq<u8>) -> bool {
        has_magic(image, self.spec_root_offset() as int)
    }

    /// The layout of `image`: the first, in the order of trial, whose
    /// signature the image carries.
    pub open spec fn detect(image: Seq<u8>) -> Option<IsoType> {
        if IsoType::Xsf.matches(image) {
            Some(IsoType::Xsf)
        } else if IsoType::Xgd2.matches(image) {
            Some(IsoType::Xgd2)
        } else if IsoType::Xgd1.matches(image) {
            Some(IsoType::Xgd1)
        } else if IsoType::Xgd3.matches(image) {
            Some(IsoType::Xgd3)
        } else {
            None
        }
    }

    /// An image that carries the signature of a layout is found to have a
    /// layout: that one, unless one that is tried before it matches too. The
    /// layout found always matches, and none that is tried before it does.
    pub proof fn lemma_detect_first_match(image: Seq<u8>, iso_type: IsoType)
        requires
            iso_type.matches(image),
        ensures
            Self::detect(image) is Some,
            Self::detect(image)->Some_0.matches(image),
            Self::detect(image)->Some_0.priority() <= iso_type.priority(),
            forall|other: IsoType|
                other.priority() < Self::detect(image)->Some_0.priority() ==> !other.matches(
                    image,
                ),
            (forall|other: IsoType|
                other.priority() < iso_type.priority() ==> !other.matches(image))
                ==> Self::detect(image) == Some(iso_type),
    {
        assert(IsoType::Xsf.priority() == 0);
        assert(IsoType::Xgd2.priority() == 1);
        assert(IsoType::Xgd1.priority() == 2);
        assert(IsoType::Xgd3.priority() == 3);
    }

    /// An image that carries no signature has no layout.
    pub proof fn lemma_detect_none(image: Seq<u8>)
        requires
            forall|iso_type: IsoType| !iso_type.matches(image),
        ensures
            Self::detect(image) is None,
    {
    }

    /// The offset of the volume in an image of this layout.
    pub fn root_offset(&self) -> (offset: u64)
        ensures
            offset == self.spec_root_offset(),
    {
        match self {
            IsoType::Xgd3 => 0x2080000,
            IsoType::Xgd2 => 0xfd90000,
            IsoType::Xgd1 => 0x18300000,
            IsoType::Xsf => 0,
        }
    }

    /// Finds the layout of an image: the first of Xsf, Xgd2, Xgd1 and Xgd3
    /// whose signature the image carries. An image too short for a layout
    /// does not have it.
    pub fn read(reader: &[u8]) -> (iso_type: Option<IsoType>)
        ensures
            iso_type == Self::detect(reader@),
    {
        if Self::check(reader, IsoType::Xsf) {
            return Some(IsoType::Xsf);
        }
        if Self::check(reader, IsoType::Xgd2) {
            return Some(IsoType::Xgd2);
        }
        if Self::check(reader, IsoType::Xgd1) {
            return Some(IsoType::Xgd1);
        }
        if Self::check(reader, IsoType::Xgd3) {
            return Some(IsoType::Xgd3);
        }
        None
    }

    /// Whether the image carries the signature where `iso_type` has it.
    pub fn check(reader: &[u8], iso_type: IsoType) -> (found: bool)
        ensures
            found == iso_type.matches(reader@),
    {
        match read_bytes(reader, 0x10000 + iso_type.root_offset(), 20) {
            Ok(buf) => {
                assert(MAGIC_BYTES@ =~= magic());
                bytes_equal(buf, MAGIC_BYTES.as_slice())
            },
            Err(_) => false,
        }
    }
}

} // verus!
