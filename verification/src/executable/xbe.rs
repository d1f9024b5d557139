//! The header of a legacy executable. All of its numbers have their low
//! byte first.

use crate::byte_order::le_value;
use crate::error::Error;
use crate::executable::TitleExecutionInfo;
use crate::stream::{bytes_at, bytes_equal, in_bounds, read_bytes, read_u32_le_at};
use vstd::prelude::*;

verus! {

/// The signature of the header: `XBEH`.
pub const XBE_MAGIC: [u8; 4] = [0x58, 0x42, 0x45, 0x48];

/// Where the base address stands in the header.
pub const OFFSET_BASE_ADDRESS: u64 = 0x0104;

/// Where the address of the certificate stands in the header.
pub const OFFSET_CERTIFICATE_ADDRESS: u64 = 0x0118;

/// Where the title id stands in the certificate.
pub const CERTIFICATE_TITLE_ID: u64 = 8;

/// Where the version stands in the certificate.
pub const CERTIFICATE_VERSION: u64 = 176;

/// The signature, as a byte string.
pub open spec fn xbe_magic() -> Seq<u8> {
    seq![0x58u8, 0x42u8, 0x45u8, 0x48u8]
}

/// What the header says, as far as it is of use.
#[derive(Clone, Copy, Debug, Default, PartialEq, Eq, Structural)]
pub struct XbeHeaderFields {
    pub execution_info: Option<TitleExecutionInfo>,
}

/// The header of a legacy executable: the two addresses that lead to the
/// certificate, and what the certificate says.
#[derive(Clone, Copy, Debug, PartialEq, Eq, Structural)]
pub struct XbeHeader {
    pub dw_base_addr: u32,
    pub dw_certificate_addr: u32,
    pub fields: XbeHeaderFields,
}

/// The number in the four bytes at `pos`, low byte first.
pub open spec fn le32(data: Seq<u8>, pos: int) -> u32 {
    le_value(bytes_at(data, pos, 4)) as u32
}

/// The identity in the certificate that stands at `pos`: the title id and
/// the version are read, a disc is the one disc of one, and the rest is zero.
pub open spec fn certificate_at(data: Seq<u8>, pos: int) -> Result<TitleExecutionInfo, Error> {
    if !in_bounds(data, pos + 8, 4) || !in_bounds(data, pos + 176, 4) {
        Err(Error::UnexpectedEof)
    } else {
        Ok(
            TitleExecutionInfo {
                media_id: 0,
                version: le32(data, pos + 176),
                base_version: 0,
                title_id: le32(data, pos + 8),
                platform: 0,
                executable_type: 0,
                disc_number: 1,
                disc_count: 1,
            },
        )
    }
}

/// The header that starts `header`. The certificate stands as far from the
/// start of the header as its address lies above the base address; an
/// address below the base address is no address of a certificate.
pub open spec fn xbe_header(header: Seq<u8>) -> Result<XbeHeader, Error> {
    if !in_bounds(header, 0, 4) {
        Err(Error::UnexpectedEof)
    } else if bytes_at(header, 0, 4) != xbe_magic() {
        Err(Error::MissingXbeMagic)
    } else if !in_bounds(header, 0x0104, 4) || !in_bounds(header, 0x0118, 4) {
        Err(Error::UnexpectedEof)
    } else {
        let base = le32(header, 0x0104);
        let certificate = le32(header, 0x0118);
        if certificate < base {
            Err(Error::InvalidData)
        } else {
            match certificate_at(header, certificate - base) {
                Err(e) => Err(e),
                Ok(info) => Ok(
                    XbeHeader {
                        dw_base_addr: base,
                        dw_certificate_addr: certificate,
                        fields: XbeHeaderFields { execution_info: Some(info) },
                    },
                ),
            }
        }
    }
}

/// Reads the identity from the certificate at `pos` of `reader`.
pub fn read_certificate(reader: &[u8], pos: u64) -> (result: Result<TitleExecutionInfo, Error>)
    ensures
        result == certificate_at(reader@, pos as int),
{
    let len: usize = reader.len();
    let version_at: u64 = match pos.checked_add(CERTIFICATE_VERSION) {
        Some(at) => at,
        None => {
            return Err(Error::UnexpectedEof);
        },
    };
    let title_id: u32 = match read_u32_le_at(reader, pos + CERTIFICATE_TITLE_ID) {
        Ok(v) => v,
        Err(e) => {
            return Err(e);
        },
    };
    let version: u32 = match read_u32_le_at(reader, version_at) {
        Ok(v) => v,
        Err(e) => {
            return Err(e);
        },
    };
    Ok(
        TitleExecutionInfo {
            media_id: 0,
            version,
            base_version: 0,
            title_id,
            platform: 0,
            executable_type: 0,
            disc_number: 1,
            disc_count: 1,
        },
    )
}

impl XbeHeader {
    /// Reads the header that starts `reader`.
    pub fn read(reader: &[u8]) -> (result: Result<XbeHeader, Error>)
        ensures
            result == xbe_header(reader@),
    {
        match Self::check_magic_bytes(reader) {
            Ok(()) => {},
            Err(e) => {
                return Err(e);
            },
        }
        let dw_base_addr: u32 = match read_u32_le_at(reader, OFFSET_BASE_ADDRESS) {
            Ok(v) => v,
            Err(e) => {
                return Err(e);
            },
        };
        let dw_certificate_addr: u32 = match read_u32_le_at(reader, OFFSET_CERTIFICATE_ADDRESS) {
            Ok(v) => v,
            Err(e) => {
                return Err(e);
            },
        };
        if dw_certificate_addr < dw_base_addr {
            return Err(Error::InvalidData);
        }
        let cert_address: u32 = dw_certificate_addr - dw_base_addr;
        match read_certificate(reader, cert_address as u64) {
            Ok(info) => Ok(
                XbeHeader {
                    dw_base_addr,
                    dw_certificate_addr,
                    fields: XbeHeaderFields { execution_info: Some(info) },
                },
            ),
            Err(e) => Err(e),
        }
    }

    /// Whether `reader` starts with the signature.
    pub fn check_magic_bytes(reader: &[u8]) -> (result: Result<(), Error>)
        ensures
            match result {
                Ok(()) => in_bounds(reader@, 0, 4) && bytes_at(reader@, 0, 4) == xbe_magic(),
                Err(e) => if in_bounds(reader@, 0, 4) {
                    bytes_at(reader@, 0, 4) != xbe_magic() && e == Error::MissingXbeMagic
                } else {
                    e == Error::UnexpectedEof
                },
            },
    {
        let magic_bytes = match read_bytes(reader, 0, 4) {
            Ok(buf) => buf,
            Err(e) => {
                return Err(e);
            },
        };
        assert(XBE_MAGIC@ =~= xbe_magic());
        if !bytes_equal(magic_bytes, XBE_MAGIC.as_slice()) {
            return Err(Error::MissingXbeMagic);
        }
        Ok(())
    }
}

} // verus!
