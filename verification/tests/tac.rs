use blake2::digest::Digest;
use composer::error::{ComposerError, MediaError};
use composer::store::{SledStore, StoreOp, Write};
use composer::tac::{Album, Frames, MediaTree};

fn unhex(text: &str) -> [u8; 32] {
    let mut out = [0u8; 32];
    hex::decode_to_slice(text, &mut out).unwrap();
    out
}

fn demo() -> Album {
    Album::new("demo", false).unwrap()
}

#[test]
fn the_namespace_of_an_album_is_the_hash_of_its_name() {
    assert_eq!(
        Album::namespace_of("hello"),
        "2cf24dba5fb0a30e26e83b2ac5b9e29e1b161e5c1fa7425e73043362938b9824"
    );
    assert_eq!(
        Album::namespace_of("demo"),
        "2a97516c354b68848cdbd8f54a226a0a55b21ed138e207ad6c5cbb9c00aa5aea"
    );
}

#[test]
fn an_album_is_created_in_a_vacant_namespace() {
    let album = Album::new("demo", false).unwrap();
    assert_eq!(album.name, "demo");
    assert_eq!(
        album.namespace,
        "2a97516c354b68848cdbd8f54a226a0a55b21ed138e207ad6c5cbb9c00aa5aea"
    );
}

#[test]
fn an_album_is_not_created_twice() {
    assert_eq!(Album::new("demo", true), Err(ComposerError::AlbumExists));
}

#[test]
fn an_album_that_is_there_is_found() {
    let album = Album::find("demo", true).unwrap();
    assert_eq!(album, Album::new("demo", false).unwrap());
}

#[test]
fn an_album_that_is_not_there_is_not_found() {
    assert_eq!(Album::find("demo", false), Err(ComposerError::AlbumNotFound));
}

#[test]
fn a_media_id_is_read_from_its_hex_digest() {
    let text = "2cf24dba5fb0a30e26e83b2ac5b9e29e1b161e5c1fa7425e73043362938b9824";
    let id = Album::media_id(text).unwrap();
    assert_eq!(id[0], 0x2c);
    assert_eq!(id[1], 0xf2);
    assert_eq!(id[31], 0x24);
    assert_eq!(id, unhex(text));
    assert_eq!(Album::media_id(&text.to_uppercase()), Some(id));
}

#[test]
fn a_media_id_is_32_bytes_of_hex_and_nothing_else() {
    let text = "2cf24dba5fb0a30e26e83b2ac5b9e29e1b161e5c1fa7425e73043362938b9824";
    assert_eq!(Album::media_id(&text[..62]), None);
    assert_eq!(Album::media_id(&format!("{}00", text)), None);
    assert_eq!(Album::media_id(&format!("0x{}", text)), None);
    assert_eq!(Album::media_id(&text.replace('f', "g")), None);
    assert_eq!(Album::media_id(""), None);
}

#[test]
fn a_frame_key_is_the_hash_of_the_position() {
    assert_eq!(
        Album::frame_key(0),
        unhex("81e47a19e6b29b0a65b9591762ce5143ed30d0261e5d24a3201752506b20f15c")
    );
    assert_eq!(
        Album::frame_key(1),
        unhex("12dd0a6a7d0e222a97926da03adb5a7768d31cc7c5c2bd6828e14a7d25fa3a60")
    );
    assert_eq!(
        Album::frame_key(10),
        unhex("5b54e1568c083ea34de562f76acb923258c5ddc792e8e38009c666aa56a637ec")
    );
}

#[test]
fn a_frame_key_hashes_the_big_endian_bytes() {
    for position in [0u64, 255, 256, 0x0102_0304_0506_0708, u64::MAX] {
        let mut hasher = blake2::Blake2b::<blake2::digest::consts::U32>::new();
        hasher.update(position.to_be_bytes());
        let expected: [u8; 32] = hasher.finalize().into();
        assert_eq!(Album::frame_key(position), expected);
    }
}

#[test]
fn no_root_no_tree() {
    assert_eq!(demo().find_episode([1u8; 32], None), None);
}

#[test]
fn a_root_is_a_tree() {
    let id = [1u8; 32];
    let root = [2u8; 32];
    assert_eq!(
        demo().find_episode(id, Some(root)),
        Some(MediaTree { root, store: SledStore::open(id) })
    );
}

#[test]
fn no_proof_without_a_root() {
    let album = demo();
    assert_eq!(
        album.get_proof_of_frames([1u8; 32], None, &[0, 1, 2]),
        Err(ComposerError::ResourceNotFound)
    );
    assert_eq!(
        album.get_proof_of_frames([1u8; 32], None, &[]),
        Err(ComposerError::ResourceNotFound)
    );
}

#[test]
fn a_proof_is_asked_for_the_keys_of_the_frames_in_the_order_given() {
    let id = [3u8; 32];
    let root = [4u8; 32];
    let request = demo().get_proof_of_frames(id, Some(root), &[9, 0, 5, 0]).unwrap();
    assert_eq!(request.tree, MediaTree { root, store: SledStore::open(id) });
    assert_eq!(
        request.keys,
        vec![Album::frame_key(9), Album::frame_key(0), Album::frame_key(5), Album::frame_key(0)]
    );
}

#[test]
fn the_same_question_gives_the_same_request() {
    let album = demo();
    let a = album.get_proof_of_frames([3u8; 32], Some([4u8; 32]), &[0, 5, 9]);
    let b = album.get_proof_of_frames([3u8; 32], Some([4u8; 32]), &[0, 5, 9]);
    assert_eq!(a, b);
    assert!(a.is_ok());
}

#[test]
fn a_first_append_starts_an_empty_tree_and_wipes_nothing() {
    let id = [5u8; 32];
    let empty = MediaTree { root: [0u8; 32], store: SledStore::open(id) };
    assert_eq!(demo().new_empty_tree(id, None, false), Ok((empty, None)));
    assert_eq!(demo().new_empty_tree(id, None, true), Ok((empty, None)));
}

#[test]
fn a_second_append_is_refused() {
    assert_eq!(
        demo().new_empty_tree([5u8; 32], Some([6u8; 32]), false),
        Err(ComposerError::MediaExists)
    );
    assert_eq!(
        demo().new_empty_tree([5u8; 32], Some([0u8; 32]), false),
        Err(ComposerError::MediaExists)
    );
}

#[test]
fn an_overwriting_append_wipes_the_store_first() {
    let id = [5u8; 32];
    let empty = MediaTree { root: [0u8; 32], store: SledStore::open(id) };
    assert_eq!(
        demo().new_empty_tree(id, Some([6u8; 32]), true),
        Ok((empty, Some(StoreOp { tree: id, write: Write::Clear })))
    );
}

#[test]
fn frames_become_leaves_under_the_keys_of_their_positions() {
    let frames = vec![[7u8; 32], [8u8; 32], [7u8; 32]];
    assert_eq!(
        Album::save_frames(frames),
        vec![
            (Album::frame_key(0), [7u8; 32]),
            (Album::frame_key(1), [8u8; 32]),
            (Album::frame_key(2), [7u8; 32]),
        ]
    );
    assert_eq!(Album::save_frames(Vec::new()), Vec::new());
}

#[test]
fn a_frame_is_digested_by_its_first_plane() {
    let planes = vec![b"abc".to_vec(), Vec::new(), b"abc".to_vec()];
    let abc = unhex("bddd813c634239723171ef3fee98579b94964e3bb1cb3e427262c8c068d52319");
    let nothing = unhex("0e5751c026e543b2e8ab2eb06099daa1d1e5df47778f7787faab45cdf12fe3a8");
    assert_eq!(Album::dump_frames(&planes), Ok(vec![abc, nothing, abc]));
}

#[test]
fn a_media_item_without_a_frame_is_refused() {
    assert_eq!(
        Album::dump_frames(&Vec::new()),
        Err(ComposerError::Media(MediaError::StreamNotFound))
    );
    assert_eq!(Frames::new().finish(), Err(ComposerError::Media(MediaError::StreamNotFound)));
}

#[test]
fn frames_are_taken_in_one_by_one() {
    let mut frames = Frames::new();
    frames.push(b"abc");
    frames.push(b"");
    let planes = vec![b"abc".to_vec(), Vec::new()];
    assert_eq!(frames.finish(), Album::dump_frames(&planes));
}

#[test]
fn the_same_frames_give_the_same_leaves() {
    let planes = vec![vec![1u8, 2, 3], vec![4u8, 5], vec![6u8]];
    let once = Album::save_frames(Album::dump_frames(&planes).unwrap());
    let again = Album::save_frames(Album::dump_frames(&planes).unwrap());
    assert_eq!(once, again);
    assert_eq!(once.len(), 3);
}
