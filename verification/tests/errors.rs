use composer::error::{ComposerError, MediaError};
use composer::store::StoreError;

#[test]
fn business_errors_say_what_happened() {
    assert_eq!(ComposerError::MediaExists.message(), "media already appended");
    assert_eq!(ComposerError::AlbumExists.message(), "album already exists");
    assert_eq!(ComposerError::AlbumNotFound.message(), "album not found");
    assert_eq!(ComposerError::ResourceNotFound.message(), "resource not found");
}

#[test]
fn structural_errors_carry_the_words_of_the_fault() {
    assert_eq!(
        ComposerError::Media(MediaError::StreamNotFound).message(),
        "media codec error: Stream not found"
    );
    assert_eq!(
        ComposerError::Media(MediaError::Codec("Invalid data".to_string())).message(),
        "media codec error: Invalid data"
    );
    assert_eq!(
        ComposerError::MerkleTree("Empty keys".to_string()).message(),
        "sparse merkle tree error: Empty keys"
    );
    assert_eq!(ComposerError::Store("io".to_string()).message(), "store error: io");
    assert_eq!(ComposerError::Serde("eof".to_string()).message(), "serde bincode error: eof");
    assert_eq!(ComposerError::File("gone".to_string()).message(), "media file error: gone");
}

#[test]
fn the_kinds_are_told_apart() {
    assert_ne!(ComposerError::MediaExists, ComposerError::AlbumExists);
    assert_ne!(ComposerError::AlbumNotFound, ComposerError::ResourceNotFound);
    assert_ne!(ComposerError::Store("x".to_string()), ComposerError::Serde("x".to_string()));
    assert_eq!(MediaError::StreamNotFound.message(), "Stream not found");
}

#[test]
fn faults_of_the_store_say_what_is_wrong_with_the_record() {
    assert_eq!(StoreError::InvalidValue.message(), "invalid value");
    assert_eq!(StoreError::Truncated.message(), "unexpected end of record");
    assert_eq!(StoreError::UnknownVariant(2).message(), "unknown variant tag");
}
