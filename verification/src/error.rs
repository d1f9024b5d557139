//! The failures that decoding a structure can report.

use vstd::prelude::*;

verus! {

/// Why a structure could not be decoded.
#[derive(Clone, Copy, Debug, PartialEq, Eq, Structural)]
pub enum Error {
    /// The input ends before the structure does.
    UnexpectedEof,
    /// No supported volume layout carries the filesystem signature.
    InvalidIsoFormat,
    /// The filesystem signature is absent at the expected offset.
    MagicNotFound,
    /// The modern executable header does not start with its signature.
    MissingXexMagic,
    /// The legacy executable header does not start with its signature.
    MissingXbeMagic,
    /// The modern executable header has no identity record.
    NoExecutionInfo,
    /// The image holds neither a modern nor a legacy executable.
    NoExecutable,
    /// Directories are nested deeper than the reader follows.
    DirectoryTooDeep,
    /// A field holds a value outside its closed set.
    InvalidData,
}

impl Error {
    /// A sentence that names the failure.
    pub fn message(&self) -> (text: &'static str)
        ensures
            text@ == Self::spec_message(*self)@,
    {
        match self {
            Error::UnexpectedEof => "unexpected end of input",
            Error::InvalidIsoFormat => "invalid ISO format",
            Error::MagicNotFound => "GDFX magic bytes not found",
            Error::MissingXexMagic => "missing 'XEX2' magic bytes in XEX header",
            Error::MissingXbeMagic => "missing 'XBEH' magic bytes in XBE header",
            Error::NoExecutionInfo => "no execution info in executable header",
            Error::NoExecutable => "no executable found in this image",
            Error::DirectoryTooDeep => "directories are nested too deeply",
            Error::InvalidData => "invalid data",
        }
    }

    /// The sentence that `message` returns for each failure.
    pub open spec fn spec_message(e: Error) -> &'static str {
        match e {
            Error::UnexpectedEof => "unexpected end of input",
            Error::InvalidIsoFormat => "invalid ISO format",
            Error::MagicNotFound => "GDFX magic bytes not found",
            Error::MissingXexMagic => "missing 'XEX2' magic bytes in XEX header",
            Error::MissingXbeMagic => "missing 'XBEH' magic bytes in XBE header",
            Error::NoExecutionInfo => "no execution info in executable header",
            Error::NoExecutable => "no executable found in this image",
            Error::DirectoryTooDeep => "directories are nested too deeply",
            Error::InvalidData => "invalid data",
        }
    }
}

} // verus!
