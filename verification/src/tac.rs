//! Albums and the trees of their media items: what an append and a proof
//! request decide, given what the store holds.

use crate::digest::{blake2b_256, digest, sha256_digest, sha256_hex};
use crate::error::{ComposerError, MediaError};
use crate::hexcode::{decode_exact, hex_decoded, spells};
use crate::store::{
    lemma_stores_are_isolated, lemma_write_is_local, records_of, root_record, value_meaning,
    Place, SledStore, StoreError, StoreOp,
};
use vstd::prelude::*;
use vstd::string::StringSliceAdditionalSpecFns;

verus! {

/// The eight bytes of `position`, the most significant first.
pub open spec fn be_bytes(position: u64) -> Seq<u8> {
    seq![
        (position / 0x100_0000_0000_0000) as u8,
        (position / 0x1_0000_0000_0000 % 256) as u8,
        (position / 0x100_0000_0000 % 256) as u8,
        (position / 0x1_0000_0000 % 256) as u8,
        (position / 0x100_0000 % 256) as u8,
        (position / 0x1_0000 % 256) as u8,
        (position / 0x100 % 256) as u8,
        (position % 256) as u8,
    ]
}

/// The tree key of the frame at `position`: the hash of the position's
/// big-endian bytes.
pub open spec fn frame_key(position: u64) -> Seq<u8> {
    blake2b_256(be_bytes(position))
}

/// The tree keys of the frames at `positions`, in the order given.
pub open spec fn frame_keys(positions: Seq<u64>) -> Seq<Seq<u8>> {
    Seq::new(positions.len(), |i: int| frame_key(positions[i]))
}

/// The digest of each frame: the hash of its first plane.
pub open spec fn frame_digests(planes: Seq<Seq<u8>>) -> Seq<Seq<u8>> {
    Seq::new(planes.len(), |i: int| blake2b_256(planes[i]))
}

/// The leaves of a media item's tree: for each frame, the key of its
/// position and its digest.
pub open spec fn frame_leaves(digests: Seq<Seq<u8>>) -> Seq<(Seq<u8>, Seq<u8>)> {
    Seq::new(digests.len(), |i: int| (frame_key(i as u64), digests[i]))
}

/// The byte sequences that a list of hashes holds.
pub open spec fn hashes(list: Seq<[u8; 32]>) -> Seq<Seq<u8>> {
    Seq::new(list.len(), |i: int| list[i]@)
}

/// The pairs of byte sequences that a list of leaves holds.
pub open spec fn leaf_pairs(list: Seq<([u8; 32], [u8; 32])>) -> Seq<(Seq<u8>, Seq<u8>)> {
    Seq::new(list.len(), |i: int| (list[i].0@, list[i].1@))
}

/// The planes that a list of buffers holds.
pub open spec fn planes_of(list: Seq<Vec<u8>>) -> Seq<Seq<u8>> {
    Seq::new(list.len(), |i: int| list[i]@)
}

/// `root` is the root of a tree that holds nothing: all zero.
pub open spec fn is_empty_root(root: [u8; 32]) -> bool {
    forall|i: int| 0 <= i < 32 ==> root[i] == 0
}

/// A media item's tree as the album knows it: the root it stands at, and the
/// store that holds its nodes.
#[derive(Debug, Clone, Copy, PartialEq, Eq)]
pub struct MediaTree {
    pub root: [u8; 32],
    pub store: SledStore,
}

/// What to ask of a tree for a proof: the keys, in the order in which the
/// frames were named.
#[derive(Debug, Clone, PartialEq, Eq)]
pub struct ProofRequest {
    pub tree: MediaTree,
    pub keys: Vec<[u8; 32]>,
}

/// `request` asks the tree of the media item `id`, standing at `root`, for
/// the frames at `positions`.
pub open spec fn is_request_for(
    request: ProofRequest,
    id: [u8; 32],
    root: [u8; 32],
    positions: Seq<u64>,
) -> bool {
    &&& request.tree.root == root
    &&& request.tree.store.id() == id
    &&& hashes(request.keys@) == frame_keys(positions)
}

/// An append is refused where the media item has a root and may not be
/// overwritten.
pub open spec fn append_refused(root: Option<[u8; 32]>, force: bool) -> bool {
    root is Some && !force
}

/// `start` opens an append to the media item `id`, whose store held `root`:
/// the tree is empty, and the store is wiped exactly where it held a root.
pub open spec fn is_fresh_start(
    start: (MediaTree, Option<StoreOp>),
    id: [u8; 32],
    root: Option<[u8; 32]>,
) -> bool {
    &&& is_empty_root(start.0.root)
    &&& start.0.store.id() == id
    &&& match start.1 {
        Some(op) => root is Some && op.clears(id),
        None => root is None,
    }
}

/// The records of a media item are settled: an item without a root has no
/// tree, and so no record at all.
pub open spec fn settled(records: Map<Seq<u8>, Seq<u8>>) -> bool {
    root_record(records) is None ==> records == Map::<Seq<u8>, Seq<u8>>::empty()
}

/// The records of the media item `id` once an append has started: after the
/// wipe, where there is one.
pub open spec fn records_at_start(
    album: Map<Seq<u8>, Map<Seq<u8>, Seq<u8>>>,
    id: [u8; 32],
    wipe: Option<StoreOp>,
) -> Map<Seq<u8>, Seq<u8>> {
    match wipe {
        Some(op) => records_of(op.apply(album), id@),
        None => records_of(album, id@),
    }
}

/// The digests of the frames decoded so far, in the order of decoding.
pub struct Frames {
    digests: Vec<[u8; 32]>,
}

impl View for Frames {
    type V = Seq<Seq<u8>>;

    closed spec fn view(&self) -> Seq<Seq<u8>> {
        hashes(self.digests@)
    }
}

impl Frames {
    /// No frame yet.
    pub fn new() -> (frames: Frames)
        ensures
            frames@ == Seq::<Seq<u8>>::empty(),
    {
        let frames = Frames { digests: Vec::new() };
        proof {
            assert(frames@ =~= Seq::<Seq<u8>>::empty());
        }
        frames
    }

    /// Takes in the next decoded frame: the digest of its first plane joins
    /// the list.
    pub fn push(&mut self, plane: &[u8])
        ensures
            final(self)@ == old(self)@.push(blake2b_256(plane@)),
    {
        let d = digest(plane);
        self.digests.push(d);
        proof {
            assert(self@ =~= old(self)@.push(blake2b_256(plane@)));
        }
    }

    /// Ends the decoding. A media item without a single frame is refused.
    pub fn finish(self) -> (res: Result<Vec<[u8; 32]>, ComposerError>)
        ensures
            self@.len() == 0 ==> res == Err::<Vec<[u8; 32]>, _>(
                ComposerError::Media(MediaError::StreamNotFound),
            ),
            self@.len() > 0 ==> (res matches Ok(digests) && hashes(digests@) == self@),
    {
        if self.digests.len() == 0 {
            return Err(ComposerError::Media(MediaError::StreamNotFound));
        }
        Ok(self.digests)
    }
}

/// An album: a named namespace that holds one tree for each media item.
#[derive(Debug, Clone, PartialEq, Eq)]
pub struct Album {
    pub name: String,
    /// The directory of the album under the home directory: the hash of its
    /// name.
    pub namespace: String,
}

impl Album {
    /// The namespace that an album called `name` lives in.
    pub fn namespace_of(name: &str) -> (namespace: String)
        ensures
            namespace@ == sha256_hex(name@),
            namespace@.len() == 64,
    {
        sha256_digest(name)
    }

    /// Creates the album called `name`. `exists` says whether its namespace
    /// is there already: an album is created once and never overwritten.
    pub fn new(name: &str, exists: bool) -> (res: Result<Album, ComposerError>)
        ensures
            exists ==> res == Err::<Album, _>(ComposerError::AlbumExists),
            !exists ==> (res matches Ok(album) && album.name@ == name@ && album.namespace@
                == sha256_hex(name@)),
    {
        if exists {
            return Err(ComposerError::AlbumExists);
        }
        Ok(Album { name: name.to_owned(), namespace: Self::namespace_of(name) })
    }

    /// Opens the album called `name`. `exists` says whether its namespace is
    /// there.
    pub fn find(name: &str, exists: bool) -> (res: Result<Album, ComposerError>)
        ensures
            !exists ==> res == Err::<Album, _>(ComposerError::AlbumNotFound),
            exists ==> (res matches Ok(album) && album.name@ == name@ && album.namespace@
                == sha256_hex(name@)),
    {
        if !exists {
            return Err(ComposerError::AlbumNotFound);
        }
        Ok(Album { name: name.to_owned(), namespace: Self::namespace_of(name) })
    }

    /// The identity of a media item, read from the hex digest of its bytes.
    pub fn media_id(hex_digest: &str) -> (id: Option<[u8; 32]>)
        ensures
            id is Some <==> spells(hex_digest.spec_bytes(), 32),
            id matches Some(bytes) ==> bytes@ == hex_decoded(hex_digest.spec_bytes()),
    {
        decode_exact::<32>(hex_digest.as_bytes())
    }

    /// The tree of the media item `id`, where it has one. `root` is what the
    /// item's store holds as its root.
    pub fn find_episode(&self, id: [u8; 32], root: Option<[u8; 32]>) -> (tree: Option<MediaTree>)
        ensures
            root is None ==> tree is None,
            root matches Some(r) ==> (tree matches Some(t) && t.root == r && t.store.id() == id),
    {
        match root {
            Some(r) => Some(MediaTree { root: r, store: SledStore::open(id) }),
            None => None,
        }
    }

    /// The tree key of the frame at `position`.
    pub fn frame_key(position: u64) -> (key: [u8; 32])
        ensures
            key@ == frame_key(position),
    {
        let bytes: [u8; 8] = [
            (position / 0x100_0000_0000_0000) as u8,
            (position / 0x1_0000_0000_0000 % 256) as u8,
            (position / 0x100_0000_0000 % 256) as u8,
            (position / 0x1_0000_0000 % 256) as u8,
            (position / 0x100_0000 % 256) as u8,
            (position / 0x1_0000 % 256) as u8,
            (position / 0x100 % 256) as u8,
            (position % 256) as u8,
        ];
        proof {
            assert(bytes@ =~= be_bytes(position));
        }
        digest(bytes.as_slice())
    }

    /// Prepares a proof for the frames at the positions `frames` of the
    /// media item `id`. `root` is what the item's store holds as its root: a
    /// media item without one has no tree to prove from.
    ///
    /// A position that holds no frame is asked for like any other. Its key
    /// is absent from the tree, so the proof that the tree compiles shows
    /// the zero value under that key.
    pub fn get_proof_of_frames(&self, id: [u8; 32], root: Option<[u8; 32]>, frames: &[u64]) -> (res:
        Result<ProofRequest, ComposerError>)
        ensures
            root is None ==> res == Err::<ProofRequest, _>(ComposerError::ResourceNotFound),
            root matches Some(r) ==> (res matches Ok(request) && is_request_for(
                request,
                id,
                r,
                frames@,
            )),
    {
        let root = match root {
            Some(r) => r,
            None => {
                return Err(ComposerError::ResourceNotFound);
            },
        };
        let mut keys: Vec<[u8; 32]> = Vec::new();
        let mut i: usize = 0;
        while i < frames.len()
            invariant
                i <= frames@.len(),
                keys@.len() == i,
                forall|j: int| 0 <= j < i ==> (#[trigger] keys@[j])@ == frame_key(frames@[j]),
            decreases frames@.len() - i,
        {
            keys.push(Self::frame_key(frames[i]));
            i = i + 1;
        }
        proof {
            assert(hashes(keys@) =~= frame_keys(frames@));
        }
        Ok(ProofRequest { tree: MediaTree { root, store: SledStore::open(id) }, keys })
    }

    /// Starts the tree of the media item `id` from nothing. `root` is what
    /// the item's store holds as its root.
    ///
    /// An item that has a root is rebuilt only under `force`, and then its
    /// store is wiped first: the write comes back with the tree. Without
    /// `force` such an item is left as it is.
    pub fn new_empty_tree(&self, id: [u8; 32], root: Option<[u8; 32]>, force: bool) -> (res: Result<
        (MediaTree, Option<StoreOp>),
        ComposerError,
    >)
        ensures
            append_refused(root, force) ==> res == Err::<(MediaTree, Option<StoreOp>), _>(
                ComposerError::MediaExists,
            ),
            !append_refused(root, force) ==> (res matches Ok(start) && is_fresh_start(
                start,
                id,
                root,
            )),
    {
        let store = SledStore::open(id);
        let empty: [u8; 32] = [0u8;32];
        match root {
            None => Ok((MediaTree { root: empty, store }, None)),
            Some(_) => {
                if force {
                    Ok((MediaTree { root: empty, store }, Some(store.clear())))
                } else {
                    Err(ComposerError::MediaExists)
                }
            },
        }
    }

    /// The leaves to put into the tree of a media item whose frames have
    /// the digests `frames`: each frame under the key of its position,
    /// counted from 0.
    pub fn save_frames(frames: Vec<[u8; 32]>) -> (leaves: Vec<([u8; 32], [u8; 32])>)
        ensures
            leaf_pairs(leaves@) == frame_leaves(hashes(frames@)),
    {
        let mut leaves: Vec<([u8; 32], [u8; 32])> = Vec::new();
        let mut i: usize = 0;
        while i < frames.len()
            invariant
                i <= frames@.len(),
                leaves@.len() == i,
                forall|j: int|
                    0 <= j < i ==> (#[trigger] leaves@[j]).0@ == frame_key(j as u64)
                        && leaves@[j].1 == frames@[j],
            decreases frames@.len() - i,
        {
            leaves.push((Self::frame_key(i as u64), frames[i]));
            i = i + 1;
        }
        proof {
            assert(leaf_pairs(leaves@) =~= frame_leaves(hashes(frames@)));
        }
        leaves
    }

    /// The digests of the frames of a media item, given the first plane of
    /// each frame in presentation order. A media item without a frame is
    /// refused.
    pub fn dump_frames(planes: &Vec<Vec<u8>>) -> (res: Result<Vec<[u8; 32]>, ComposerError>)
        ensures
            planes@.len() == 0 ==> res == Err::<Vec<[u8; 32]>, _>(
                ComposerError::Media(MediaError::StreamNotFound),
            ),
            planes@.len() > 0 ==> (res matches Ok(digests) && hashes(digests@) == frame_digests(
                planes_of(planes@),
            )),
    {
        let mut frames = Frames::new();
        let mut i: usize = 0;
        while i < planes.len()
            invariant
                i <= planes@.len(),
                frames@ == frame_digests(planes_of(planes@)).take(i as int),
            decreases planes@.len() - i,
        {
            frames.push(planes[i].as_slice());
            proof {
                assert(frames@ =~= frame_digests(planes_of(planes@)).take(i + 1));
            }
            i = i + 1;
        }
        proof {
            assert(frames@ =~= frame_digests(planes_of(planes@)));
        }
        frames.finish()
    }
}

/// Reading is repeatable. A proof request holds no write, so the records
/// stay as they are; and two requests for the same frames of the same tree
/// are the same request. Whatever the tree compiles from its records and a
/// request, it compiles the same proof both times.
pub proof fn lemma_reading_is_repeatable(
    compile: spec_fn(Map<Seq<u8>, Seq<u8>>, MediaTree, Seq<Seq<u8>>) -> Seq<u8>,
    records: Map<Seq<u8>, Seq<u8>>,
    a: ProofRequest,
    b: ProofRequest,
    id: [u8; 32],
    root: [u8; 32],
    positions: Seq<u64>,
)
    requires
        is_request_for(a, id, root, positions),
        is_request_for(b, id, root, positions),
    ensures
        a.tree == b.tree,
        a.keys@ == b.keys@,
        compile(records, a.tree, hashes(a.keys@)) == compile(records, b.tree, hashes(b.keys@)),
{
    SledStore::lemma_store_is_its_id(a.tree.store, b.tree.store);
    assert(a.keys@.len() == hashes(a.keys@).len());
    assert(b.keys@.len() == hashes(b.keys@).len());
    assert forall|i: int| 0 <= i < a.keys@.len() implies a.keys@[i] == b.keys@[i] by {
        assert(hashes(a.keys@)[i] == hashes(b.keys@)[i]);
        assert(a.keys@[i] =~= b.keys@[i]);
    }
    assert(a.keys@ =~= b.keys@);
}

/// The append guard. Once the root of a media item is saved, the records of
/// the item hold it, and an append that finds it and may not overwrite is
/// refused. A refused append comes with no write: the root stays.
pub proof fn lemma_append_guard(
    album: Map<Seq<u8>, Map<Seq<u8>, Seq<u8>>>,
    id: [u8; 32],
    root: [u8; 32],
    saved: StoreOp,
)
    requires
        saved.writes(id, Place::Root, root@),
    ensures
        value_meaning(root_record(records_of(saved.apply(album), id@))) == Ok::<_, StoreError>(
            Some(root@),
        ),
        append_refused(Some(root), false),
{
    lemma_stores_are_isolated(saved, album, id@);
    lemma_write_is_local(saved.write, records_of(album, id@), Place::Root, Place::Root);
}

/// Every append that goes ahead builds on nothing. Whatever the settled
/// records of the media item held before, whether a root was found or not,
/// the append starts from an empty tree over an empty store: what it builds
/// depends on the frames alone.
pub proof fn lemma_append_starts_from_nothing(
    album: Map<Seq<u8>, Map<Seq<u8>, Seq<u8>>>,
    id: [u8; 32],
    root: Option<[u8; 32]>,
    start: (MediaTree, Option<StoreOp>),
)
    requires
        settled(records_of(album, id@)),
        root is Some <==> root_record(records_of(album, id@)) is Some,
        is_fresh_start(start, id, root),
    ensures
        records_at_start(album, id, start.1) == Map::<Seq<u8>, Seq<u8>>::empty(),
        is_empty_root(start.0.root),
{
    match start.1 {
        Some(op) => {
            assert(records_of(op.apply(album), id@) =~= Map::<Seq<u8>, Seq<u8>>::empty());
        },
        None => {},
    }
}

/// Rebuilding is deterministic. Two appends of the same frames that
/// overwrite, on whatever settled records, hand the same leaves to the same
/// empty tree over the same empty store. Whatever the tree computes from
/// those as its root, it is the same root both times.
pub proof fn lemma_overwrite_is_deterministic(
    grow: spec_fn(Map<Seq<u8>, Seq<u8>>, MediaTree, Seq<(Seq<u8>, Seq<u8>)>) -> Seq<u8>,
    album1: Map<Seq<u8>, Map<Seq<u8>, Seq<u8>>>,
    album2: Map<Seq<u8>, Map<Seq<u8>, Seq<u8>>>,
    id: [u8; 32],
    root1: Option<[u8; 32]>,
    root2: Option<[u8; 32]>,
    start1: (MediaTree, Option<StoreOp>),
    start2: (MediaTree, Option<StoreOp>),
    digests: Seq<Seq<u8>>,
    leaves1: Seq<([u8; 32], [u8; 32])>,
    leaves2: Seq<([u8; 32], [u8; 32])>,
)
    requires
        settled(records_of(album1, id@)),
        settled(records_of(album2, id@)),
        root1 is Some <==> root_record(records_of(album1, id@)) is Some,
        root2 is Some <==> root_record(records_of(album2, id@)) is Some,
        is_fresh_start(start1, id, root1),
        is_fresh_start(start2, id, root2),
        leaf_pairs(leaves1) == frame_leaves(digests),
        leaf_pairs(leaves2) == frame_leaves(digests),
    ensures
        !append_refused(root1, true),
        !append_refused(root2, true),
        start1.0 == start2.0,
        records_at_start(album1, id, start1.1) == records_at_start(album2, id, start2.1),
        grow(records_at_start(album1, id, start1.1), start1.0, leaf_pairs(leaves1)) == grow(
            records_at_start(album2, id, start2.1),
            start2.0,
            leaf_pairs(leaves2),
        ),
{
    lemma_append_starts_from_nothing(album1, id, root1, start1);
    lemma_append_starts_from_nothing(album2, id, root2, start2);
    assert(start1.0.root =~= start2.0.root);
    SledStore::lemma_store_is_its_id(start1.0.store, start2.0.store);
}

} // verus!
