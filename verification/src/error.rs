//! What can go wrong while loading.

use vstd::prelude::*;

verus! {

/// Why a source file or a world file was not taken in.
#[derive(Debug, Clone, Copy, PartialEq, Eq, Structural)]
pub enum LoadError {
    /// The content is not valid JSON, or not of the shape the file must have.
    InvalidJson,
    /// The path of a tag file does not name a tag.
    InvalidTagPath,
    /// A gzip stream could not be decompressed.
    InvalidGzip,
    /// The level data has no `Data` compound.
    MissingData,
    /// An archive could not list or read its files.
    Archive,
    /// An advancement has no display and is not shown.
    NoDisplay,
}

/// What a fault is called in logs.
pub open spec fn message_of(e: LoadError) -> Seq<char> {
    match e {
        LoadError::InvalidJson => "invalid JSON"@,
        LoadError::InvalidTagPath => "invalid tag file path format"@,
        LoadError::InvalidGzip => "invalid gzip stream"@,
        LoadError::MissingData => "missing Data compound"@,
        LoadError::Archive => "archive could not be read"@,
        LoadError::NoDisplay => "advancement without display"@,
    }
}

impl LoadError {
    /// A message for logs.
    pub fn message(&self) -> (r: &'static str)
        ensures
            r@ == message_of(*self),
    {
        match self {
            LoadError::InvalidJson => "invalid JSON",
            LoadError::InvalidTagPath => "invalid tag file path format",
            LoadError::InvalidGzip => "invalid gzip stream",
            LoadError::MissingData => "missing Data compound",
            LoadError::Archive => "archive could not be read",
            LoadError::NoDisplay => "advancement without display",
        }
    }
}

} // verus!
