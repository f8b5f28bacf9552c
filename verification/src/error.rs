//! The error taxonomy of the loader: access, syntax, structural and
//! data-format failures. Every error is surfaced to the immediate caller;
//! nothing is retried and no default value is substituted.

use vstd::prelude::*;

verus! {

/// Everything that can go wrong during a load. Each variant carries enough
/// to identify the failing input.
#[derive(Debug, Clone, PartialEq, Eq)]
pub enum Error {
    /// The referenced path could not be read as a document.
    PathIsNotFile,
    /// The underlying token source reported malformed markup.
    XmlDecodingError(String),
    /// The document ended before an expected closing element was reached.
    PrematureEnd(String),
    /// A template document supplied no object.
    TemplateHasNoObject,
    /// The (encoding, compression) pair on a data element is not supported.
    InvalidEncodingFormat { encoding: Option<String>, compression: Option<String> },
    /// The base64 payload of a data element could not be decoded.
    Base64DecodingError(String),
    /// Decompression of a data payload failed.
    DecompressingError(String),
    /// An auto-tile pattern string did not hold exactly eight values.
    InvalidWangIdEncoding { read_string: String },
    /// A global tile identifier resolved to no tileset, or outside the
    /// matched tileset's tile count.
    InvalidTileFound { gid: u32 },
    /// A required attribute was missing or its value failed conversion.
    MalformedAttributes(String),
}

pub type Result<T> = core::result::Result<T, Error>;

} // verus!
