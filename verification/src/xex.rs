//! The header of a modern executable, read with the values of its fields:
//! beside the identity record, whose ids are kept as bytes, seven fields
//! keep the value that stands for them in the table.
//!
//! Two fields share a key. Of the two, the one that is asked for first takes
//! the value, and the other is never set. Three module flags have no bit
//! and are never set.

use crate::error::Error;
use crate::executable::xex::{be32, xex_magic, XEX_MAGIC};
use crate::stream::{
    array_of, bytes_at, bytes_equal, in_bounds, read_bytes, read_u32_be_at,
};
use vstd::prelude::*;
use vstd::slice::slice_subrange;

verus! {

/// The key of the field with the resources.
pub const RESOURCE_INFO: u32 = 0x0000_02ff;

/// The key of the field with the compression; the format of the base file
/// has the same key.
pub const COMPRESSION_INFO: u32 = 0x0000_03ff;

/// The key of the field with the format of the base file.
pub const BASE_FILE_FORMAT: u32 = 0x0000_03ff;

/// The key of the field with the time of the base file.
pub const BASE_FILE_TIMESTAMP: u32 = 0x0001_8002;

/// The key of the field with the identity record.
pub const EXECUTION_INFO: u32 = 0x0004_0006;

/// The key under which the system flags are kept; it is that of the module
/// flags.
pub const MODULE_FLAGS: u32 = 0x0000_0003;

/// The key of the field with the original name.
pub const ORIGINAL_NAME: u32 = 0x0001_83ff;

/// The key of the field with the ratings.
pub const RATINGS_INFO: u32 = 0x0004_0310;

/// The module is a library.
pub const DLL_MODULE: u32 = 0x08;

/// The module exports to titles.
pub const EXPORTS_TO_TITLE: u32 = 0x02;

/// The module is a patch.
pub const MODULE_PATCH: u32 = 0x10;

/// The module is a system debugger.
pub const SYSTEM_DEBUGGER: u32 = 0x04;

/// The module is a title.
pub const TITLE_MODULE: u32 = 0x01;

/// The patch is a delta. The flag has no bit in this layout, so it is
/// never set.
pub const DELTA_PATCH: u32 = 0;

/// The patch is a full one. The flag has no bit in this layout, so it is
/// never set.
pub const FULL_PATCH: u32 = 0;

/// The module runs in user mode. The flag has no bit in this layout, so
/// it is never set.
pub const USER_MODE: u32 = 0;

/// All module flags that have a bit.
pub const MODULE_FLAGS_ALL: u32 = 0x1f;

/// The flags of a module: a set of bits.
#[derive(Clone, Copy, Debug, PartialEq, Eq, Structural)]
pub struct XexModuleFlags {
    pub bits: u32,
}

impl XexModuleFlags {
    /// The flags in `bits`, without the bits that have no meaning.
    pub fn from_bits_truncate(bits: u32) -> (flags: XexModuleFlags)
        ensures
            flags.bits == bits & MODULE_FLAGS_ALL,
    {
        XexModuleFlags { bits: bits & MODULE_FLAGS_ALL }
    }

    /// The bits that are set.
    pub fn bits(self) -> (bits: u32)
        ensures
            bits == self.bits,
    {
        self.bits
    }

    /// Whether the flags `flags` are set: all of their bits are. A flag
    /// without a bit is never set.
    pub fn contains(self, flags: u32) -> (all: bool)
        ensures
            all == (flags != 0 && self.bits & flags == flags),
    {
        flags != 0 && self.bits & flags == flags
    }
}

/// The identity record of a title, its ids as bytes.
#[derive(Clone, Copy, Debug)]
pub struct XexExecutionInfo {
    pub media_id: [u8; 4],
    pub version: u32,
    pub base_version: u32,
    pub title_id: [u8; 4],
    pub platform: u8,
    pub executable_type: u8,
    pub disc_number: u8,
    pub disc_count: u8,
}

/// What an identity record is.
pub ghost struct XexExecutionInfoView {
    pub media_id: Seq<u8>,
    pub version: u32,
    pub base_version: u32,
    pub title_id: Seq<u8>,
    pub platform: u8,
    pub executable_type: u8,
    pub disc_number: u8,
    pub disc_count: u8,
}

impl View for XexExecutionInfo {
    type V = XexExecutionInfoView;

    open spec fn view(&self) -> XexExecutionInfoView {
        XexExecutionInfoView {
            media_id: self.media_id@,
            version: self.version,
            base_version: self.base_version,
            title_id: self.title_id@,
            platform: self.platform,
            executable_type: self.executable_type,
            disc_number: self.disc_number,
            disc_count: self.disc_count,
        }
    }
}

/// What the fields of a header say.
#[derive(Clone, Copy, Debug, Default)]
pub struct XexHeaderFields {
    pub resource_info: Option<u32>,
    pub compression_info: Option<u32>,
    pub execution_info: Option<XexExecutionInfo>,
    pub base_file_format: Option<u32>,
    pub base_file_timestamp: Option<u32>,
    pub original_name: Option<u32>,
    pub ratings_info: Option<u32>,
    pub system_flags: Option<u32>,
}

/// What the fields of a header are.
pub ghost struct XexHeaderFieldsView {
    pub resource_info: Option<u32>,
    pub compression_info: Option<u32>,
    pub execution_info: Option<XexExecutionInfoView>,
    pub base_file_format: Option<u32>,
    pub base_file_timestamp: Option<u32>,
    pub original_name: Option<u32>,
    pub ratings_info: Option<u32>,
    pub system_flags: Option<u32>,
}

impl View for XexHeaderFields {
    type V = XexHeaderFieldsView;

    open spec fn view(&self) -> XexHeaderFieldsView {
        XexHeaderFieldsView {
            resource_info: self.resource_info,
            compression_info: self.compression_info,
            execution_info: match self.execution_info {
                Some(info) => Some(info@),
                None => None,
            },
            base_file_format: self.base_file_format,
            base_file_timestamp: self.base_file_timestamp,
            original_name: self.original_name,
            ratings_info: self.ratings_info,
            system_flags: self.system_flags,
        }
    }
}

/// The header of a modern executable.
#[derive(Clone, Copy, Debug)]
pub struct XexHeader {
    pub module_flags: XexModuleFlags,
    pub code_offset: u32,
    pub certificate_offset: u32,
    pub fields: XexHeaderFields,
}

/// What a header is.
pub ghost struct XexHeaderView {
    pub module_flags: u32,
    pub code_offset: u32,
    pub certificate_offset: u32,
    pub fields: XexHeaderFieldsView,
}

impl View for XexHeader {
    type V = XexHeaderView;

    open spec fn view(&self) -> XexHeaderView {
        XexHeaderView {
            module_flags: self.module_flags.bits,
            code_offset: self.code_offset,
            certificate_offset: self.certificate_offset,
            fields: self.fields@,
        }
    }
}

/// The identity record that stands at `pos`: the media id in four bytes,
/// version and base version as numbers of four bytes, high byte first, the
/// title id in four bytes, then platform, executable type, disc number and
/// disc count in one byte each.
pub open spec fn execution_info_at(data: Seq<u8>, pos: int) -> Result<XexExecutionInfoView, Error> {
    if !in_bounds(data, pos, 20) {
        Err(Error::UnexpectedEof)
    } else {
        Ok(
            XexExecutionInfoView {
                media_id: bytes_at(data, pos, 4),
                version: be32(data, pos + 4),
                base_version: be32(data, pos + 8),
                title_id: bytes_at(data, pos + 12, 4),
                platform: data[pos + 16],
                executable_type: data[pos + 17],
                disc_number: data[pos + 18],
                disc_count: data[pos + 19],
            },
        )
    }
}

/// The fields when none has been read.
pub open spec fn no_fields() -> XexHeaderFieldsView {
    XexHeaderFieldsView {
        resource_info: None,
        compression_info: None,
        execution_info: None,
        base_file_format: None,
        base_file_timestamp: None,
        original_name: None,
        ratings_info: None,
        system_flags: None,
    }
}

/// The fields `fields` with the entry of key `key` and value `value`
/// taken in; `header` is where the identity record is read.
pub open spec fn with_field(
    header: Seq<u8>,
    fields: XexHeaderFieldsView,
    key: u32,
    value: u32,
) -> Result<XexHeaderFieldsView, Error> {
    if key == RESOURCE_INFO {
        Ok(XexHeaderFieldsView { resource_info: Some(value), ..fields })
    } else if key == COMPRESSION_INFO {
        Ok(XexHeaderFieldsView { compression_info: Some(value), ..fields })
    } else if key == EXECUTION_INFO {
        match execution_info_at(header, value as int) {
            Err(e) => Err(e),
            Ok(info) => Ok(XexHeaderFieldsView { execution_info: Some(info), ..fields }),
        }
    } else if key == BASE_FILE_TIMESTAMP {
        Ok(XexHeaderFieldsView { base_file_timestamp: Some(value), ..fields })
    } else if key == ORIGINAL_NAME {
        Ok(XexHeaderFieldsView { original_name: Some(value), ..fields })
    } else if key == RATINGS_INFO {
        Ok(XexHeaderFieldsView { ratings_info: Some(value), ..fields })
    } else if key == MODULE_FLAGS {
        Ok(XexHeaderFieldsView { system_flags: Some(value), ..fields })
    } else {
        Ok(fields)
    }
}

/// What the first `count` entries of the field table say. The table starts
/// 24 bytes into the header; an entry is a key and a value of four bytes
/// each. Of two entries with one key the later counts.
pub open spec fn fields_upto(header: Seq<u8>, count: nat) -> Result<XexHeaderFieldsView, Error>
    decreases count,
{
    if count == 0 {
        Ok(no_fields())
    } else {
        let at = 24 + 8 * (count - 1);
        match fields_upto(header, (count - 1) as nat) {
            Err(e) => Err(e),
            Ok(fields) => if !in_bounds(header, at, 8) {
                Err(Error::UnexpectedEof)
            } else {
                with_field(header, fields, be32(header, at), be32(header, at + 4))
            },
        }
    }
}

/// A table that fails within its first `k` entries fails as a whole, and
/// in the same way.
proof fn lemma_fields_fail(header: Seq<u8>, k: nat, count: nat)
    requires
        k <= count,
        fields_upto(header, k) is Err,
    ensures
        fields_upto(header, count) == fields_upto(header, k),
    decreases count,
{
    if k < count {
        lemma_fields_fail(header, k, (count - 1) as nat);
    }
}

/// The header that starts `header`.
pub open spec fn xex_header(header: Seq<u8>) -> Result<XexHeaderView, Error> {
    if !in_bounds(header, 0, 4) {
        Err(Error::UnexpectedEof)
    } else if bytes_at(header, 0, 4) != xex_magic() {
        Err(Error::MissingXexMagic)
    } else if !in_bounds(header, 0, 24) {
        Err(Error::UnexpectedEof)
    } else {
        match fields_upto(header, be32(header, 20) as nat) {
            Err(e) => Err(e),
            Ok(fields) => Ok(
                XexHeaderView {
                    module_flags: be32(header, 4) & MODULE_FLAGS_ALL,
                    code_offset: be32(header, 8),
                    certificate_offset: be32(header, 16),
                    fields,
                },
            ),
        }
    }
}

impl XexExecutionInfo {
    /// Reads the identity record at `pos` of `reader`.
    pub fn read(reader: &[u8], pos: u64) -> (result: Result<XexExecutionInfo, Error>)
        ensures
            match result {
                Ok(info) => execution_info_at(reader@, pos as int) == Ok::<
                    XexExecutionInfoView,
                    Error,
                >(info@),
                Err(e) => execution_info_at(reader@, pos as int) == Err::<
                    XexExecutionInfoView,
                    Error,
                >(e),
            },
    {
        let len: usize = reader.len();
        let record = match read_bytes(reader, pos, 20) {
            Ok(record) => record,
            Err(e) => {
                return Err(e);
            },
        };
        let media_id: [u8; 4] = array_of(slice_subrange(record, 0, 4));
        let version: u32 = match read_u32_be_at(reader, pos + 4) {
            Ok(v) => v,
            Err(e) => {
                return Err(e);
            },
        };
        let base_version: u32 = match read_u32_be_at(reader, pos + 8) {
            Ok(v) => v,
            Err(e) => {
                return Err(e);
            },
        };
        let title_id: [u8; 4] = array_of(slice_subrange(record, 12, 16));
        let info = XexExecutionInfo {
            media_id,
            version,
            base_version,
            title_id,
            platform: record[16],
            executable_type: record[17],
            disc_number: record[18],
            disc_count: record[19],
        };
        assert(info@.media_id =~= bytes_at(reader@, pos as int, 4));
        assert(info@.title_id =~= bytes_at(reader@, pos + 12, 4));
        Ok(info)
    }
}

impl XexHeader {
    /// Reads the header that starts `reader`.
    pub fn read(reader: &[u8]) -> (result: Result<XexHeader, Error>)
        ensures
            match result {
                Ok(header) => xex_header(reader@) == Ok::<XexHeaderView, Error>(header@),
                Err(e) => xex_header(reader@) == Err::<XexHeaderView, Error>(e),
            },
    {
        let len: usize = reader.len();
        let magic = match read_bytes(reader, 0, 4) {
            Ok(magic) => magic,
            Err(e) => {
                return Err(e);
            },
        };
        assert(XEX_MAGIC@ =~= xex_magic());
        if !bytes_equal(magic, XEX_MAGIC.as_slice()) {
            return Err(Error::MissingXexMagic);
        }
        match read_bytes(reader, 0, 24) {
            Ok(_) => {},
            Err(e) => {
                return Err(e);
            },
        }
        let module_flags: u32 = match read_u32_be_at(reader, 4) {
            Ok(v) => v,
            Err(e) => {
                return Err(e);
            },
        };
        let module_flags = XexModuleFlags::from_bits_truncate(module_flags);
        let code_offset: u32 = match read_u32_be_at(reader, 8) {
            Ok(v) => v,
            Err(e) => {
                return Err(e);
            },
        };
        let certificate_offset: u32 = match read_u32_be_at(reader, 16) {
            Ok(v) => v,
            Err(e) => {
                return Err(e);
            },
        };
        let field_count: u32 = match read_u32_be_at(reader, 20) {
            Ok(v) => v,
            Err(e) => {
                return Err(e);
            },
        };
        let mut fields = XexHeaderFields {
            resource_info: None,
            compression_info: None,
            execution_info: None,
            base_file_format: None,
            base_file_timestamp: None,
            original_name: None,
            ratings_info: None,
            system_flags: None,
        };
        let mut i: u32 = 0;
        while i < field_count
            invariant
                i <= field_count,
                len == reader@.len(),
                in_bounds(reader@, 0, 24),
                bytes_at(reader@, 0, 4) == xex_magic(),
                field_count == be32(reader@, 20),
                module_flags.bits == be32(reader@, 4) & MODULE_FLAGS_ALL,
                code_offset == be32(reader@, 8),
                certificate_offset == be32(reader@, 16),
                fields_upto(reader@, i as nat) == Ok::<XexHeaderFieldsView, Error>(fields@),
            decreases field_count - i,
        {
            let at: u64 = 24 + 8 * (i as u64);
            let key: u32 = match read_u32_be_at(reader, at) {
                Ok(v) => v,
                Err(e) => {
                    proof {
                        assert(fields_upto(reader@, (i + 1) as nat) == Err::<
                            XexHeaderFieldsView,
                            Error,
                        >(e));
                        lemma_fields_fail(reader@, (i + 1) as nat, field_count as nat);
                    }
                    return Err(e);
                },
            };
            let value: u32 = match read_u32_be_at(reader, at + 4) {
                Ok(v) => v,
                Err(e) => {
                    proof {
                        assert(fields_upto(reader@, (i + 1) as nat) == Err::<
                            XexHeaderFieldsView,
                            Error,
                        >(e));
                        lemma_fields_fail(reader@, (i + 1) as nat, field_count as nat);
                    }
                    return Err(e);
                },
            };
            if key == RESOURCE_INFO {
                fields.resource_info = Some(value);
            } else if key == COMPRESSION_INFO {
                fields.compression_info = Some(value);
            } else if key == EXECUTION_INFO {
                match XexExecutionInfo::read(reader, value as u64) {
                    Ok(info) => {
                        fields.execution_info = Some(info);
                    },
                    Err(e) => {
                        proof {
                            assert(fields_upto(reader@, (i + 1) as nat) == Err::<
                                XexHeaderFieldsView,
                                Error,
                            >(e));
                            lemma_fields_fail(reader@, (i + 1) as nat, field_count as nat);
                        }
                        return Err(e);
                    },
                }
            } else if key == BASE_FILE_TIMESTAMP {
                fields.base_file_timestamp = Some(value);
            } else if key == ORIGINAL_NAME {
                fields.original_name = Some(value);
            } else if key == RATINGS_INFO {
                fields.ratings_info = Some(value);
            } else if key == MODULE_FLAGS {
                fields.system_flags = Some(value);
            }
            i += 1;
        }
        Ok(XexHeader { module_flags, code_offset, certificate_offset, fields })
    }
}

} // verus!
