//! The identity of a title, as the header of its executable records it.

use crate::error::Error;
use crate::god::ContentType;
use crate::iso::directory_table::table_view;
use crate::iso::{components_of, resolve, IsoReader, WindowsPath};
use crate::iso_fs::suffix;
use vstd::prelude::*;

pub mod xbe;
pub mod xex;

verus! {

/// The identity record of a title.
#[derive(Clone, Copy, Debug, PartialEq, Eq, Structural)]
pub struct TitleExecutionInfo {
    pub media_id: u32,
    pub version: u32,
    pub base_version: u32,
    pub title_id: u32,
    pub platform: u8,
    pub executable_type: u8,
    pub disc_number: u8,
    pub disc_count: u8,
}

/// A title: what kind of container it goes into, and its identity.
#[derive(Clone, Copy, Debug, PartialEq, Eq, Structural)]
pub struct TitleInfo {
    pub content_type: ContentType,
    pub execution_info: TitleExecutionInfo,
}

/// The title whose modern executable starts `xex`, or, where there is none,
/// whose legacy executable starts `xbe`. A modern executable is taken even
/// where it cannot be read, and it must carry an identity record.
pub open spec fn title_info(xex: Option<Seq<u8>>, xbe: Option<Seq<u8>>) -> Result<
    TitleInfo,
    Error,
> {
    match xex {
        Some(header) => match xex::xex_header(header) {
            Err(e) => Err(e),
            Ok(h) => match h.fields.execution_info {
                Some(info) => Ok(
                    TitleInfo { content_type: ContentType::GamesOnDemand, execution_info: info },
                ),
                None => Err(Error::NoExecutionInfo),
            },
        },
        None => match xbe {
            Some(header) => match xbe::xbe_header(header) {
                Err(e) => Err(e),
                Ok(h) => match h.fields.execution_info {
                    Some(info) => Ok(
                        TitleInfo { content_type: ContentType::XboxOriginal, execution_info: info },
                    ),
                    None => Err(Error::NoExecutionInfo),
                },
            },
            None => Err(Error::NoExecutable),
        },
    }
}

/// The image from the data of the file named `path` on, where the tree of
/// the image has such an entry.
pub open spec fn file_data(iso_image: IsoReader, path: Seq<char>) -> Option<Seq<u8>> {
    match resolve(table_view(iso_image.directory_table), components_of(path)) {
        Some(e) => Some(
            suffix(
                iso_image.reader@,
                iso_image.volume_descriptor.root_offset + e.sector
                    * iso_image.volume_descriptor.sector_size,
            ),
        ),
        None => None,
    }
}

impl TitleInfo {
    /// Reads the title of an image from `\default.xex`, or, where the image
    /// has no such file, from `\default.xbe`.
    pub fn from_image(iso_image: &IsoReader) -> (result: Result<TitleInfo, Error>)
        ensures
            result == title_info(
                file_data(*iso_image, "\\default.xex"@),
                file_data(*iso_image, "\\default.xbe"@),
            ),
    {
        match iso_image.get_entry(&WindowsPath::from("\\default.xex")) {
            Some(executable) => {
                match xex::XexHeader::read(executable) {
                    Ok(header) => match header.fields.execution_info {
                        Some(execution_info) => Ok(
                            TitleInfo { content_type: ContentType::GamesOnDemand, execution_info },
                        ),
                        None => Err(Error::NoExecutionInfo),
                    },
                    Err(e) => Err(e),
                }
            },
            None => match iso_image.get_entry(&WindowsPath::from("\\default.xbe")) {
                Some(executable) => {
                    match xbe::XbeHeader::read(executable) {
                        Ok(header) => match header.fields.execution_info {
                            Some(execution_info) => Ok(
                                TitleInfo {
                                    content_type: ContentType::XboxOriginal,
                                    execution_info,
                                },
                            ),
                            None => Err(Error::NoExecutionInfo),
                        },
                        Err(e) => Err(e),
                    }
                },
                None => Err(Error::NoExecutable),
            },
        }
    }
}

impl TitleExecutionInfo {
    /// Reads the identity record of a modern executable, which starts
    /// `reader`: numbers with their high byte first.
    pub fn from_xex(reader: &[u8]) -> (result: Result<TitleExecutionInfo, Error>)
        ensures
            result == xex::execution_info_at(reader@, 0),
    {
        xex::read_execution_info(reader, 0)
    }

    /// Reads the identity from the certificate of a legacy executable,
    /// which starts `reader`: numbers with their low byte first.
    pub fn from_xbe(reader: &[u8]) -> (result: Result<TitleExecutionInfo, Error>)
        ensures
            result == xbe::certificate_at(reader@, 0),
    {
        xbe::read_certificate(reader, 0)
    }
}

} // verus!
