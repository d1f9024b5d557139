//! The header of a modern executable. All of its numbers have their high
//! byte first.

use crate::byte_order::be_value;
use crate::error::Error;
use crate::executable::TitleExecutionInfo;
use crate::stream::{bytes_at, bytes_equal, in_bounds, read_bytes, read_u32_be_at};
use vstd::prelude::*;

verus! {

/// The signature of the header: `XEX2`.
pub const XEX_MAGIC: [u8; 4] = [0x58, 0x45, 0x58, 0x32];

/// The key of the field that says where the identity record stands.
pub const EXECUTION_ID: u32 = 0x0004_0006;

/// The module is a title.
pub const TITLE_MODULE: u32 = 0x01;

/// The module exports to titles.
pub const EXPORTS_TO_TITLE: u32 = 0x02;

/// The module is a system debugger.
pub const SYSTEM_DEBUGGER: u32 = 0x04;

/// The module is a library.
pub const DLL_MODULE: u32 = 0x08;

/// The module is a patch.
pub const MODULE_PATCH: u32 = 0x10;

/// The patch is a full one.
pub const FULL_PATCH: u32 = 0x20;

/// The patch is a delta.
pub const DELTA_PATCH: u32 = 0x40;

/// The module runs in user mode.
pub const USER_MODE: u32 = 0x80;

/// All module flags that have a meaning.
pub const MODULE_FLAGS_ALL: u32 = 0xff;

/// The signature, as a byte string.
pub open spec fn xex_magic() -> Seq<u8> {
    seq![0x58u8, 0x45u8, 0x58u8, 0x32u8]
}

/// The flags of a module: a set of bits.
#[derive(Clone, Copy, Debug, PartialEq, Eq, Structural)]
pub struct XexModuleFlags {
    pub bits: u32,
}

impl XexModuleFlags {
    /// The flags in `bits`, without the bits that have no meaning.
    pub fn from_bits_truncate(bits: u32) -> (flags: XexModuleFlags)
        ensures
            flags.bits == bits & MODULE_FLAGS_ALL,
    {
        XexModuleFlags { bits: bits & MODULE_FLAGS_ALL }
    }

    /// The bits that are set.
    pub fn bits(self) -> (bits: u32)
        ensures
            bits == self.bits,
    {
        self.bits
    }

    /// Whether all bits of `flags` are set.
    pub fn contains(self, flags: u32) -> (all: bool)
        ensures
            all == (self.bits & flags == flags),
    {
        self.bits & flags == flags
    }
}

/// What the fields of a header say, as far as it is of use.
#[derive(Clone, Copy, Debug, Default, PartialEq, Eq, Structural)]
pub struct XexHeaderFields {
    pub execution_info: Option<TitleExecutionInfo>,
}

/// The header of a modern executable.
#[derive(Clone, Copy, Debug, PartialEq, Eq, Structural)]
pub struct XexHeader {
    pub module_flags: XexModuleFlags,
    pub code_offset: u32,
    pub certificate_offset: u32,
    pub fields: XexHeaderFields,
}

/// The number in the four bytes at `pos`, high byte first.
pub open spec fn be32(data: Seq<u8>, pos: int) -> u32 {
    be_value(bytes_at(data, pos, 4)) as u32
}

/// The identity record that stands at `pos`: media id, version, base
/// version and title id in four bytes each, then platform, executable type,
/// disc number and disc count in one byte each.
pub open spec fn execution_info_at(data: Seq<u8>, pos: int) -> Result<TitleExecutionInfo, Error> {
    if !in_bounds(data, pos, 20) {
        Err(Error::UnexpectedEof)
    } else {
        Ok(
            TitleExecutionInfo {
                media_id: be32(data, pos),
                version: be32(data, pos + 4),
                base_version: be32(data, pos + 8),
                title_id: be32(data, pos + 12),
                platform: data[pos + 16],
                executable_type: data[pos + 17],
                disc_number: data[pos + 18],
                disc_count: data[pos + 19],
            },
        )
    }
}

/// What the first `count` entries of the field table say. An entry is a
/// key and a value of four bytes each; the table starts 24 bytes into the
/// header. The entry with the key of the identity record has as its value
/// the offset of the record from the start of the header. It may stand
/// anywhere in the table, and the last such entry counts.
pub open spec fn fields_upto(header: Seq<u8>, count: nat) -> Result<XexHeaderFields, Error>
    decreases count,
{
    if count == 0 {
        Ok(XexHeaderFields { execution_info: None })
    } else {
        let at = 24 + 8 * (count - 1);
        match fields_upto(header, (count - 1) as nat) {
            Err(e) => Err(e),
            Ok(fields) => if !in_bounds(header, at, 8) {
                Err(Error::UnexpectedEof)
            } else if be32(header, at) == EXECUTION_ID {
                match execution_info_at(header, be32(header, at + 4) as int) {
                    Err(e) => Err(e),
                    Ok(info) => Ok(XexHeaderFields { execution_info: Some(info) }),
                }
            } else {
                Ok(fields)
            },
        }
    }
}

/// The header that starts `header`: the signature, the module flags, the
/// offset of the code, four bytes of no interest, the offset of the
/// certificate, the number of fields, and the table of the fields.
pub open spec fn xex_header(header: Seq<u8>) -> Result<XexHeader, Error> {
    if !in_bounds(header, 0, 4) {
        Err(Error::UnexpectedEof)
    } else if bytes_at(header, 0, 4) != xex_magic() {
        Err(Error::MissingXexMagic)
    } else if !in_bounds(header, 0, 24) {
        Err(Error::UnexpectedEof)
    } else {
        match fields_upto(header, be32(header, 20) as nat) {
            Err(e) => Err(e),
            Ok(fields) => Ok(
                XexHeader {
                    module_flags: XexModuleFlags { bits: be32(header, 4) & MODULE_FLAGS_ALL },
                    code_offset: be32(header, 8),
                    certificate_offset: be32(header, 16),
                    fields,
                },
            ),
        }
    }
}

/// Reads the identity record at `pos` of `reader`.
pub fn read_execution_info(reader: &[u8], pos: u64) -> (result: Result<TitleExecutionInfo, Error>)
    ensures
        result == execution_info_at(reader@, pos as int),
{
    let len: usize = reader.len();
    let record = match read_bytes(reader, pos, 20) {
        Ok(record) => record,
        Err(e) => {
            return Err(e);
        },
    };
    let media_id: u32 = match read_u32_be_at(reader, pos) {
        Ok(v) => v,
        Err(e) => {
            return Err(e);
        },
    };
    let version: u32 = match read_u32_be_at(reader, pos + 4) {
        Ok(v) => v,
        Err(e) => {
            return Err(e);
        },
    };
    let base_version: u32 = match read_u32_be_at(reader, pos + 8) {
        Ok(v) => v,
        Err(e) => {
            return Err(e);
        },
    };
    let title_id: u32 = match read_u32_be_at(reader, pos + 12) {
        Ok(v) => v,
        Err(e) => {
            return Err(e);
        },
    };
    Ok(
        TitleExecutionInfo {
            media_id,
            version,
            base_version,
            title_id,
            platform: record[16],
            executable_type: record[17],
            disc_number: record[18],
            disc_count: record[19],
        },
    )
}

impl XexHeader {
    /// Reads the header that starts `reader`.
    pub fn read(reader: &[u8]) -> (result: Result<XexHeader, Error>)
        ensures
            result == xex_header(reader@),
    {
        match Self::check_magic_bytes(reader) {
            Ok(()) => Self::read_checked(reader),
            Err(e) => Err(e),
        }
    }

    fn check_magic_bytes(reader: &[u8]) -> (result: Result<(), Error>)
        ensures
            match result {
                Ok(()) => in_bounds(reader@, 0, 4) && bytes_at(reader@, 0, 4) == xex_magic(),
                Err(e) => if in_bounds(reader@, 0, 4) {
                    bytes_at(reader@, 0, 4) != xex_magic() && e == Error::MissingXexMagic
                } else {
                    e == Error::UnexpectedEof
                },
            },
    {
        let buf = match read_bytes(reader, 0, 4) {
            Ok(buf) => buf,
            Err(e) => {
                return Err(e);
            },
        };
        assert(XEX_MAGIC@ =~= xex_magic());
        if !bytes_equal(buf, XEX_MAGIC.as_slice()) {
            return Err(Error::MissingXexMagic);
        }
        Ok(())
    }

    fn read_checked(reader: &[u8]) -> (result: Result<XexHeader, Error>)
        requires
            in_bounds(reader@, 0, 4),
            bytes_at(reader@, 0, 4) == xex_magic(),
        ensures
            result == xex_header(reader@),
    {
        let len: usize = reader.len();
        match read_bytes(reader, 0, 24) {
            Ok(_) => {},
            Err(e) => {
                return Err(e);
            },
        }
        let module_flags: u32 = match read_u32_be_at(reader, 4) {
            Ok(v) => v,
            Err(e) => {
                return Err(e);
            },
        };
        let module_flags = XexModuleFlags::from_bits_truncate(module_flags);
        let code_offset: u32 = match read_u32_be_at(reader, 8) {
            Ok(v) => v,
            Err(e) => {
                return Err(e);
            },
        };
        let certificate_offset: u32 = match read_u32_be_at(reader, 16) {
            Ok(v) => v,
            Err(e) => {
                return Err(e);
            },
        };
        let field_count: u32 = match read_u32_be_at(reader, 20) {
            Ok(v) => v,
            Err(e) => {
                return Err(e);
            },
        };
        let mut fields = XexHeaderFields { execution_info: None };
        let mut i: u32 = 0;
        while i < field_count
            invariant
                i <= field_count,
                len == reader@.len(),
                in_bounds(reader@, 0, 24),
                bytes_at(reader@, 0, 4) == xex_magic(),
                field_count == be32(reader@, 20),
                module_flags.bits == be32(reader@, 4) & MODULE_FLAGS_ALL,
                code_offset == be32(reader@, 8),
                certificate_offset == be32(reader@, 16),
                fields_upto(reader@, i as nat) == Ok::<XexHeaderFields, Error>(fields),
            decreases field_count - i,
        {
            let at: u64 = 24 + 8 * (i as u64);
            let key: u32 = match read_u32_be_at(reader, at) {
                Ok(v) => v,
                Err(e) => {
                    proof {
                        assert(fields_upto(reader@, (i + 1) as nat) == Err::<
                            XexHeaderFields,
                            Error,
                        >(e));
                        lemma_fields_fail(reader@, (i + 1) as nat, field_count as nat);
                    }
                    return Err(e);
                },
            };
            let value: u32 = match read_u32_be_at(reader, at + 4) {
                Ok(v) => v,
                Err(e) => {
                    proof {
                        assert(fields_upto(reader@, (i + 1) as nat) == Err::<
                            XexHeaderFields,
                            Error,
                        >(e));
                        lemma_fields_fail(reader@, (i + 1) as nat, field_count as nat);
                    }
                    return Err(e);
                },
            };
            if key == EXECUTION_ID {
                match read_execution_info(reader, value as u64) {
                    Ok(info) => {
                        fields.execution_info = Some(info);
                    },
                    Err(e) => {
                        proof {
                            assert(fields_upto(reader@, (i + 1) as nat) == Err::<
                                XexHeaderFields,
                                Error,
                            >(e));
                            lemma_fields_fail(reader@, (i + 1) as nat, field_count as nat);
                        }
                        return Err(e);
                    },
                }
            }
            i += 1;
        }
        Ok(XexHeader { module_flags, code_offset, certificate_offset, fields })
    }
}

/// A table that fails within its first `k` entries fails as a whole, and
/// in the same way.
proof fn lemma_fields_fail(header: Seq<u8>, k: nat, count: nat)
    requires
        k <= count,
        fields_upto(header, k) is Err,
    ensures
        fields_upto(header, count) == fields_upto(header, k),
    decreases count,
{
    if k < count {
        lemma_fields_fail(header, k, (count - 1) as nat);
    }
}

} // verus!
