//! A file browser library that treats local directories, remote HTTP object
//! stores and ZIP archives uniformly.  Its core is a random-access ZIP reader
//! that can enumerate and extract individual archive members from a byte
//! source that is only reachable through range reads, including the ZIP64
//! extensions needed once sizes or offsets exceed 32-bit limits.

use vstd::prelude::*;

pub mod browser;
pub mod console;
pub mod fs;
pub mod http;
pub mod provider;
pub mod utils;
pub mod zip;

verus! {

/// Why a malformed archive was rejected.
#[derive(Debug, Clone, Copy, PartialEq, Eq, Structural)]
pub enum MalformedKind {
    /// No end-of-central-directory signature in the archive tail.
    EocdNotFound,
    /// The ZIP64 end-of-central-directory record has a wrong signature.
    BadEocd64Signature,
    /// The ZIP64 end-of-central-directory record is truncated.
    TruncatedEocd64,
    /// A local file header has a wrong signature.
    BadLocalHeaderSignature,
    /// A local file header is truncated.
    TruncatedLocalHeader,
    /// A central directory record runs past the end of the directory.
    TruncatedCentralDirectory,
    /// A sentinel value announced a ZIP64 extended-info field that is
    /// missing or too short.
    InconsistentZip64Sentinels,
    /// A DEFLATE payload could not be decompressed.
    CorruptDeflateStream,
    /// The central directory or an entry payload lies outside the source.
    OutOfBounds,
}

/// The error taxonomy shared by the browser, the providers and the ZIP
/// reader.
#[derive(Debug, Clone)]
pub enum ViewerError {
    /// Network failure, unexpected status, or a missing content length.
    TransportError,
    /// Local filesystem failure.
    IoError,
    /// The archive bytes do not form a well-formed ZIP.
    MalformedArchive(MalformedKind),
    /// A compression method other than store (0) or deflate (8).
    UnsupportedCompression(u16),
    /// A caller asked a byte source for a range past its end.
    OutOfRange,
    /// `cd` attempted while the endpoint denotes a ZIP archive.
    CannotDescendIntoArchive,
    /// A textual payload could not be decoded.
    Decode,
    /// Forwarded from the Parquet rendering collaborator.
    ParquetRenderError,
}

impl ViewerError {
    /// A short human-readable description, for the shell's `Error:` line.
    pub fn message(&self) -> (r: String)
        ensures
            r@ == match self {
                ViewerError::TransportError => "transport error"@,
                ViewerError::IoError => "i/o error"@,
                ViewerError::MalformedArchive(_) => "malformed archive"@,
                ViewerError::UnsupportedCompression(_) => "unsupported compression method"@,
                ViewerError::OutOfRange => "range out of bounds"@,
                ViewerError::CannotDescendIntoArchive => "Cannot change directory inside a ZIP file"@,
                ViewerError::Decode => "decode error"@,
                ViewerError::ParquetRenderError => "parquet render error"@,
            },
    {
        match self {
            ViewerError::TransportError => String::from_str("transport error"),
            ViewerError::IoError => String::from_str("i/o error"),
            ViewerError::MalformedArchive(_) => String::from_str("malformed archive"),
            ViewerError::UnsupportedCompression(_) => {
                String::from_str("unsupported compression method")
            },
            ViewerError::OutOfRange => String::from_str("range out of bounds"),
            ViewerError::CannotDescendIntoArchive => {
                String::from_str("Cannot change directory inside a ZIP file")
            },
            ViewerError::Decode => String::from_str("decode error"),
            ViewerError::ParquetRenderError => String::from_str("parquet render error"),
        }
    }
}

} // verus!
