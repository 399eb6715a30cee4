use vstd::prelude::*;

verus! {

/// Every failure the library reports. Values coming from the network, the
/// file system or a serializer are carried as their message.
#[derive(Debug, Clone, PartialEq, Eq)]
pub enum Error {
    /// A required element was not found in a page.
    MissingElement(String),
    /// The ordinal text of a page is not a valid integer.
    CouldNotParseNumber(String),
    /// A selector built for a page query could not be parsed.
    InvalidSelector(String),
    /// The request could not be sent or its body could not be read.
    RequestError(String),
    /// The server answered with a non-success status (code, url).
    ResponseStatusError(u16, String),
    /// A local file operation failed.
    FileError(String),
    /// The metadata snapshot could not be encoded.
    JsonError(String),
    /// The image url does not end in a supported image extension.
    UnsupportedImageType(String),
    /// A retry or concurrency setting is invalid.
    ConfigError(String),
}

} // verus!
