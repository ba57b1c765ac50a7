//! The ways in which reading a report can fail.
use vstd::prelude::*;

verus! {

/// Why a report could not be read.
#[derive(Debug, Clone, PartialEq, Eq)]
pub enum ParsingError {
    /// The file could not be opened or read.
    Io {
        /// What the operating system reported.
        reason: String,
        /// The path of the file.
        path: String,
    },
    /// The document is not well-formed XML, or does not fit the report's schema.
    Parse(String),
    /// The gzip stream or zip archive is malformed, or the archive is empty.
    Zip(String),
    /// The file's extension names no format that is read.
    UnknownFile {
        /// The extension, as it was written.
        extension: String,
    },
    /// A directory was given where a file is expected.
    ParseDirectory {
        /// The path of the directory.
        path_str: String,
    },
}

} // verus!
