//! The errors that surface to a caller of an album.

use vstd::prelude::*;

verus! {

/// A failure of the media decoder.
#[derive(Debug, Clone, PartialEq, Eq)]
pub enum MediaError {
    /// The media holds no video stream, or the stream holds no frame.
    StreamNotFound,
    /// Any other decoder failure, in the decoder's words.
    Codec(String),
}

/// Everything that an operation on an album can fail with.
///
/// The first five kinds are structural faults raised below the album and
/// carried up unchanged; the last four are outcomes that a caller is meant to
/// branch on.
#[derive(Debug, Clone, PartialEq, Eq)]
pub enum ComposerError {
    /// The decoder failed, or found no video stream.
    Media(MediaError),
    /// The sparse Merkle tree or its store adapter failed.
    MerkleTree(String),
    /// The persistent store failed.
    Store(String),
    /// A node or a value could not be encoded or decoded.
    Serde(String),
    /// The media file could not be read.
    File(String),
    /// The media item has a root already and may not be overwritten.
    MediaExists,
    /// The album's namespace is taken.
    AlbumExists,
    /// The album's namespace does not exist.
    AlbumNotFound,
    /// The media item has no persisted root.
    ResourceNotFound,
}

pub type ComposerResult<T> = Result<T, ComposerError>;

impl MediaError {
    /// The words of this failure.
    pub open spec fn text(self) -> Seq<char> {
        match self {
            MediaError::StreamNotFound => "Stream not found"@,
            MediaError::Codec(words) => words@,
        }
    }

    /// The words of this failure.
    pub fn message(&self) -> (res: String)
        ensures
            res@ == self.text(),
    {
        match self {
            MediaError::StreamNotFound => String::from_str("Stream not found"),
            MediaError::Codec(words) => words.clone(),
        }
    }
}

impl ComposerError {
    /// The line that describes this error: its kind, and for a structural
    /// fault the words of the fault after it.
    pub open spec fn text(self) -> Seq<char> {
        match self {
            ComposerError::Media(e) => "media codec error: "@ + e.text(),
            ComposerError::MerkleTree(words) => "sparse merkle tree error: "@ + words@,
            ComposerError::Store(words) => "store error: "@ + words@,
            ComposerError::Serde(words) => "serde bincode error: "@ + words@,
            ComposerError::File(words) => "media file error: "@ + words@,
            ComposerError::MediaExists => "media already appended"@,
            ComposerError::AlbumExists => "album already exists"@,
            ComposerError::AlbumNotFound => "album not found"@,
            ComposerError::ResourceNotFound => "resource not found"@,
        }
    }

    /// The line that describes this error.
    pub fn message(&self) -> (res: String)
        ensures
            res@ == self.text(),
    {
        match self {
            ComposerError::Media(e) => {
                let words = e.message();
                String::from_str("media codec error: ").concat(words.as_str())
            },
            ComposerError::MerkleTree(words) => String::from_str(
                "sparse merkle tree error: ",
            ).concat(words.as_str()),
            ComposerError::Store(words) => String::from_str("store error: ").concat(words.as_str()),
            ComposerError::Serde(words) => String::from_str("serde bincode error: ").concat(
                words.as_str(),
            ),
            ComposerError::File(words) => String::from_str("media file error: ").concat(
                words.as_str(),
            ),
            ComposerError::MediaExists => String::from_str("media already appended"),
            ComposerError::AlbumExists => String::from_str("album already exists"),
            ComposerError::AlbumNotFound => String::from_str("album not found"),
            ComposerError::ResourceNotFound => String::from_str("resource not found"),
        }
    }
}

} // verus!
