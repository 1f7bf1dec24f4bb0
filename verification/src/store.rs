//! The store adapter: how the nodes, the leaves and the root of one media
//! item's tree are laid down as records of a byte-key, byte-value store.
//!
//! A leaf lives under `leaf` and its key, a branch under `bran`, its height
//! and its path, the root under `root`. A leaf or a root record is the 32
//! bytes of the value. A branch record is its two children, each a variant
//! tag of four bytes, low byte first, and the fields of the variant.

use vstd::pervasive::unreached;
use vstd::prelude::*;
use vstd::slice::{slice_subrange, slice_to_vec};

verus! {

/// One child of a branch: a node hash, or the compressed form of a subtree
/// that is empty but for one path.
#[derive(Debug, Clone, Copy, PartialEq, Eq)]
pub enum MergeValue {
    Value([u8; 32]),
    MergeWithZero { base_node: [u8; 32], zero_bits: [u8; 32], zero_count: u8 },
}

/// A branch of the tree: its two children.
#[derive(Debug, Clone, Copy, PartialEq, Eq)]
pub struct BranchNode {
    pub left: MergeValue,
    pub right: MergeValue,
}

/// Where a branch stands: its height and the path above it.
#[derive(Debug, Clone, Copy, PartialEq, Eq)]
pub struct BranchKey {
    pub height: u8,
    pub node_key: [u8; 32],
}

/// Why a record that was read cannot be used.
#[derive(Debug, Clone, Copy, PartialEq, Eq)]
pub enum StoreError {
    /// A leaf or root record is not 32 bytes long.
    InvalidValue,
    /// A branch record ends inside a child.
    Truncated,
    /// A child of a branch record carries a variant tag that is not known.
    UnknownVariant(u32),
}

impl StoreError {
    /// The words of this fault.
    pub open spec fn text(self) -> Seq<char> {
        match self {
            StoreError::InvalidValue => "invalid value"@,
            StoreError::Truncated => "unexpected end of record"@,
            StoreError::UnknownVariant(_) => "unknown variant tag"@,
        }
    }

    /// The words of this fault.
    pub fn message(&self) -> (res: String)
        ensures
            res@ == self.text(),
    {
        match self {
            StoreError::InvalidValue => String::from_str("invalid value"),
            StoreError::Truncated => String::from_str("unexpected end of record"),
            StoreError::UnknownVariant(_) => String::from_str("unknown variant tag"),
        }
    }
}

/// The encoded length of a child written as a plain hash.
pub const VALUE_LEN: usize = 36;

/// The encoded length of a child written in compressed form.
pub const MERGE_WITH_ZERO_LEN: usize = 69;

/// The four bytes of a variant tag: the variant's index, low byte first.
pub open spec fn tag_bytes(tag: u32) -> Seq<u8> {
    seq![
        (tag % 256) as u8,
        (tag / 256 % 256) as u8,
        (tag / 65536 % 256) as u8,
        (tag / 16777216) as u8,
    ]
}

/// The variant index that four tag bytes spell.
pub open spec fn tag_of(bytes: Seq<u8>) -> u32 {
    (bytes[0] + 256 * bytes[1] + 65536 * bytes[2] + 16777216 * bytes[3]) as u32
}

/// The encoding of one child: the variant tag, then the fields in order.
pub open spec fn merge_value_bytes(v: MergeValue) -> Seq<u8> {
    match v {
        MergeValue::Value(hash) => tag_bytes(0) + hash@,
        MergeValue::MergeWithZero { base_node, zero_bits, zero_count } => tag_bytes(1)
            + base_node@ + zero_bits@ + seq![zero_count],
    }
}

/// The encoding of a branch: its left child, then its right child.
pub open spec fn branch_bytes(branch: BranchNode) -> Seq<u8> {
    merge_value_bytes(branch.left) + merge_value_bytes(branch.right)
}

/// What stands at the front of `bytes` where a child is expected.
pub enum Scan {
    /// A whole child of this many bytes.
    Child(int),
    /// The bytes end before the child does.
    Truncated,
    /// The tag names no variant.
    UnknownVariant(u32),
}

/// Looks at the front of `bytes` for one encoded child.
pub open spec fn scan_merge_value(bytes: Seq<u8>) -> Scan {
    if bytes.len() < 4 {
        Scan::Truncated
    } else if tag_of(bytes) == 0 {
        if bytes.len() < VALUE_LEN {
            Scan::Truncated
        } else {
            Scan::Child(VALUE_LEN as int)
        }
    } else if tag_of(bytes) == 1 {
        if bytes.len() < MERGE_WITH_ZERO_LEN {
            Scan::Truncated
        } else {
            Scan::Child(MERGE_WITH_ZERO_LEN as int)
        }
    } else {
        Scan::UnknownVariant(tag_of(bytes))
    }
}

/// How the decoding of a branch record ends: `None` where it succeeds,
/// otherwise the error of the first child that cannot be read. Bytes after
/// the second child are not looked at.
pub open spec fn branch_fault(bytes: Seq<u8>) -> Option<StoreError> {
    match scan_merge_value(bytes) {
        Scan::Truncated => Some(StoreError::Truncated),
        Scan::UnknownVariant(tag) => Some(StoreError::UnknownVariant(tag)),
        Scan::Child(n) => match scan_merge_value(bytes.skip(n)) {
            Scan::Truncated => Some(StoreError::Truncated),
            Scan::UnknownVariant(tag) => Some(StoreError::UnknownVariant(tag)),
            Scan::Child(_) => None,
        },
    }
}

/// Copies the 32 bytes of `v` that start at `at`.
fn read_h256(v: &[u8], at: usize) -> (out: [u8; 32])
    requires
        at + 32 <= v@.len(),
    ensures
        out@ == v@.subrange(at as int, at + 32),
{
    let mut out: [u8; 32] = [0u8;32];
    let len = v.len();
    let mut i: usize = 0;
    while i < 32
        invariant
            i <= 32,
            at + 32 <= len == v@.len(),
            forall|j: int| 0 <= j < i ==> out@[j] == v@[at + j],
        decreases 32 - i,
    {
        out[i] = v[at + i];
        i = i + 1;
    }
    proof {
        assert(out@ =~= v@.subrange(at as int, at + 32));
    }
    out
}

/// Reads the variant tag at the front of `v`.
fn read_tag(v: &[u8]) -> (tag: u32)
    requires
        v@.len() >= 4,
    ensures
        tag == tag_of(v@),
{
    let b0: u32 = v[0] as u32;
    let b1: u32 = v[1] as u32;
    let b2: u32 = v[2] as u32;
    let b3: u32 = v[3] as u32;
    b0 + 256 * b1 + 65536 * b2 + 16777216 * b3
}

/// Appends the encoding of `v` to `out`.
fn write_merge_value(out: &mut Vec<u8>, v: &MergeValue)
    ensures
        final(out)@ == old(out)@ + merge_value_bytes(*v),
{
    match v {
        MergeValue::Value(hash) => {
            out.push(0);
            out.push(0);
            out.push(0);
            out.push(0);
            out.extend_from_slice(hash.as_slice());
            proof {
                assert(out@ =~= old(out)@ + merge_value_bytes(*v));
            }
        },
        MergeValue::MergeWithZero { base_node, zero_bits, zero_count } => {
            out.push(1);
            out.push(0);
            out.push(0);
            out.push(0);
            out.extend_from_slice(base_node.as_slice());
            out.extend_from_slice(zero_bits.as_slice());
            out.push(*zero_count);
            proof {
                assert(out@ =~= old(out)@ + merge_value_bytes(*v));
            }
        },
    }
}

/// Reads the child at the front of `v`, and says how many bytes it took.
fn read_merge_value(v: &[u8]) -> (res: Result<(MergeValue, usize), StoreError>)
    ensures
        match scan_merge_value(v@) {
            Scan::Truncated => res == Err::<(MergeValue, usize), _>(StoreError::Truncated),
            Scan::UnknownVariant(tag) => res == Err::<(MergeValue, usize), _>(
                StoreError::UnknownVariant(tag),
            ),
            Scan::Child(n) => res matches Ok((value, taken)) && taken == n
                && merge_value_bytes(value) == v@.subrange(0, n),
        },
{
    if v.len() < 4 {
        return Err(StoreError::Truncated);
    }
    let tag = read_tag(v);
    if tag == 0 {
        if v.len() < VALUE_LEN {
            return Err(StoreError::Truncated);
        }
        let value = MergeValue::Value(read_h256(v, 4));
        proof {
            assert(merge_value_bytes(value) =~= v@.subrange(0, VALUE_LEN as int));
        }
        Ok((value, VALUE_LEN))
    } else if tag == 1 {
        if v.len() < MERGE_WITH_ZERO_LEN {
            return Err(StoreError::Truncated);
        }
        let value = MergeValue::MergeWithZero {
            base_node: read_h256(v, 4),
            zero_bits: read_h256(v, 36),
            zero_count: v[68],
        };
        proof {
            assert(merge_value_bytes(value) =~= v@.subrange(0, MERGE_WITH_ZERO_LEN as int));
        }
        Ok((value, MERGE_WITH_ZERO_LEN))
    } else {
        Err(StoreError::UnknownVariant(tag))
    }
}

/// The tag in front of every leaf key.
pub open spec fn leaf_tag() -> Seq<u8> {
    seq![0x6cu8, 0x65, 0x61, 0x66]
}

/// The tag in front of every branch key.
pub open spec fn branch_tag() -> Seq<u8> {
    seq![0x62u8, 0x72, 0x61, 0x6e]
}

/// The one key under which the root is kept.
pub open spec fn root_key_bytes() -> Seq<u8> {
    seq![0x72u8, 0x6f, 0x6f, 0x74]
}

/// The record key of the leaf at `key`: the leaf tag, then the key.
pub open spec fn leaf_key_bytes(key: Seq<u8>) -> Seq<u8> {
    leaf_tag() + key
}

/// The record key of the branch at `height` above `node_key`: the branch
/// tag, the height, then the path.
pub open spec fn branch_key_bytes(height: u8, node_key: Seq<u8>) -> Seq<u8> {
    branch_tag() + seq![height] + node_key
}

#[verifier::external_type_specification]
#[verifier::external_body]
pub struct ExErrorKind(bincode::ErrorKind);

/// Calls `bincode::serialize` on a pair of byte arrays of 4 and 32 bytes. In
/// its fixed-width layout a tuple is its fields in order, and an array is
/// its bytes with no length in front: the result is the tag followed by the
/// key. The call is claimed to succeed: it sets no size limit, and it writes
/// into a vector.
#[verifier::external_body]
fn encode_tagged(tag: &[u8; 4], key: &[u8; 32]) -> (res: Result<
    Vec<u8>,
    Box<bincode::ErrorKind>,
>)
    ensures
        res is Ok,
        res matches Ok(bytes) ==> bytes@ == tag@ + key@,
{
    bincode::serialize(&(tag, key))
}

/// Calls `bincode::serialize` on a triple of a 4-byte array, a `u8` and a
/// 32-byte array. A `u8` is written as itself: the result is the tag, the
/// height, then the key. The call is claimed to succeed, as for a pair.
#[verifier::external_body]
fn encode_tagged_at(tag: &[u8; 4], height: u8, key: &[u8; 32]) -> (res: Result<
    Vec<u8>,
    Box<bincode::ErrorKind>,
>)
    ensures
        res is Ok,
        res matches Ok(bytes) ==> bytes@ == tag@ + seq![height] + key@,
{
    bincode::serialize(&(tag, height, key))
}

/// A change to the records of one sub-namespace.
#[derive(Debug, Clone, PartialEq, Eq)]
pub enum Write {
    /// Put `value` under `key`, in place of what was there.
    Insert { key: Vec<u8>, value: Vec<u8> },
    /// Drop the record under `key`, if there is one.
    Remove { key: Vec<u8> },
    /// Drop every record.
    Clear,
}

/// A write, and the sub-namespace of the album that it is addressed to.
#[derive(Debug, Clone, PartialEq, Eq)]
pub struct StoreOp {
    pub tree: [u8; 32],
    pub write: Write,
}

/// The record under `key`, if there is one.
pub open spec fn fetch(records: Map<Seq<u8>, Seq<u8>>, key: Seq<u8>) -> Option<Seq<u8>> {
    if records.dom().contains(key) {
        Some(records[key])
    } else {
        None
    }
}

/// The records of the sub-namespace `tree` of an album. A sub-namespace
/// that was never written to is empty.
pub open spec fn records_of(album: Map<Seq<u8>, Map<Seq<u8>, Seq<u8>>>, tree: Seq<u8>) -> Map<
    Seq<u8>,
    Seq<u8>,
> {
    if album.dom().contains(tree) {
        album[tree]
    } else {
        Map::empty()
    }
}

/// A place in the store of a media item where one record is kept.
pub enum Place {
    /// The root of the tree.
    Root,
    /// The leaf at this key.
    Leaf(Seq<u8>),
    /// The branch at this height above this path.
    Branch(u8, Seq<u8>),
}

impl Place {
    /// The record key of this place.
    pub open spec fn key(self) -> Seq<u8> {
        match self {
            Place::Root => root_key_bytes(),
            Place::Leaf(key) => leaf_key_bytes(key),
            Place::Branch(height, node_key) => branch_key_bytes(height, node_key),
        }
    }
}

/// The record of the root, if there is one.
pub open spec fn root_record(records: Map<Seq<u8>, Seq<u8>>) -> Option<Seq<u8>> {
    fetch(records, root_key_bytes())
}

impl Write {
    /// The key that this write touches; a wipe touches them all.
    pub open spec fn key(self) -> Option<Seq<u8>> {
        match self {
            Write::Insert { key, .. } => Some(key@),
            Write::Remove { key } => Some(key@),
            Write::Clear => None,
        }
    }

    /// The record that this write puts under its key: none where it drops one.
    pub open spec fn puts(self) -> Option<Seq<u8>> {
        match self {
            Write::Insert { value, .. } => Some(value@),
            _ => None,
        }
    }

    /// The records after this write.
    pub open spec fn apply(self, records: Map<Seq<u8>, Seq<u8>>) -> Map<Seq<u8>, Seq<u8>> {
        match self {
            Write::Insert { key, value } => records.insert(key@, value@),
            Write::Remove { key } => records.remove(key@),
            Write::Clear => Map::empty(),
        }
    }
}

impl StoreOp {
    /// The album after this operation: the write is applied to the records
    /// of `self.tree`, and to nothing else.
    pub open spec fn apply(self, album: Map<Seq<u8>, Map<Seq<u8>, Seq<u8>>>) -> Map<
        Seq<u8>,
        Map<Seq<u8>, Seq<u8>>,
    > {
        album.insert(self.tree@, self.write.apply(records_of(album, self.tree@)))
    }

    /// This operation puts the record `value` at the place `at` of the
    /// sub-namespace `tree`.
    pub open spec fn writes(self, tree: [u8; 32], at: Place, value: Seq<u8>) -> bool {
        &&& self.tree == tree
        &&& self.write matches Write::Insert { key: k, value: v }
        &&& k@ == at.key()
        &&& v@ == value
    }

    /// This operation drops the record at the place `at` of the sub-namespace
    /// `tree`.
    pub open spec fn drops(self, tree: [u8; 32], at: Place) -> bool {
        &&& self.tree == tree
        &&& self.write matches Write::Remove { key: k }
        &&& k@ == at.key()
    }

    /// This operation empties the sub-namespace `tree`.
    pub open spec fn clears(self, tree: [u8; 32]) -> bool {
        self.tree == tree && self.write is Clear
    }
}

/// What the record of a 32-byte value means, a leaf or the root: no record,
/// no value; a record of 32 bytes, that value; any other record, a fault.
pub open spec fn value_meaning(record: Option<Seq<u8>>) -> Result<Option<Seq<u8>>, StoreError> {
    match record {
        None => Ok(None),
        Some(v) => if v.len() == 32 {
            Ok(Some(v))
        } else {
            Err(StoreError::InvalidValue)
        },
    }
}

/// The bytes of a record that was fetched, where there was one.
pub open spec fn record_bytes(record: Option<&[u8]>) -> Option<Seq<u8>> {
    match record {
        Some(v) => Some(v@),
        None => None,
    }
}

/// `res` says of a fetched value what `meaning` says.
pub open spec fn tells(res: Result<Option<[u8; 32]>, StoreError>, meaning: Result<
    Option<Seq<u8>>,
    StoreError,
>) -> bool {
    match meaning {
        Ok(None) => res == Ok::<_, StoreError>(None::<[u8; 32]>),
        Ok(Some(v)) => res matches Ok(Some(value)) && value@ == v,
        Err(e) => res == Err::<Option<[u8; 32]>, _>(e),
    }
}

/// The view onto the records of one media item: leaves, branches and the
/// root, each kind under keys of its own.
///
/// A store performs nothing itself. It says which record a tree operation
/// reads or writes, and what a record that was read means.
#[derive(Debug, Clone, Copy, PartialEq, Eq)]
pub struct SledStore {
    id: [u8; 32],
}

impl SledStore {
    /// The store of the media item `id`.
    pub fn open(id: [u8; 32]) -> (store: SledStore)
        ensures
            store.id() == id,
    {
        SledStore { id }
    }

    /// The media item whose records this store addresses.
    pub closed spec fn id(self) -> [u8; 32] {
        self.id
    }

    /// Two stores of the same media item are the same store.
    pub proof fn lemma_store_is_its_id(a: SledStore, b: SledStore)
        requires
            a.id() == b.id(),
        ensures
            a == b,
    {
    }

    /// The name of the sub-namespace that holds this store's records.
    pub fn tree_name(&self) -> (name: [u8; 32])
        ensures
            name == self.id(),
    {
        self.id
    }

    /// The record key of the leaf at `key`.
    pub fn leaf_key(key: &[u8; 32]) -> (res: Vec<u8>)
        ensures
            res@ == leaf_key_bytes(key@),
    {
        let tag: [u8; 4] = [0x6c, 0x65, 0x61, 0x66];
        proof {
            assert(tag@ =~= leaf_tag());
        }
        match encode_tagged(&tag, key) {
            Ok(bytes) => bytes,
            Err(_) => unreached(),
        }
    }

    /// The record key of the branch at `key`.
    pub fn branch_key(key: &BranchKey) -> (res: Vec<u8>)
        ensures
            res@ == branch_key_bytes(key.height, key.node_key@),
    {
        let tag: [u8; 4] = [0x62, 0x72, 0x61, 0x6e];
        proof {
            assert(tag@ =~= branch_tag());
        }
        match encode_tagged_at(&tag, key.height, &key.node_key) {
            Ok(bytes) => bytes,
            Err(_) => unreached(),
        }
    }

    /// The record key of the root.
    pub fn root_key() -> (res: Vec<u8>)
        ensures
            res@ == root_key_bytes(),
    {
        let mut res: Vec<u8> = Vec::new();
        res.push(0x72);
        res.push(0x6f);
        res.push(0x6f);
        res.push(0x74);
        proof {
            assert(res@ =~= root_key_bytes());
        }
        res
    }

    /// Encodes a branch: its left child, then its right child. The record
    /// is one that `deserialize_branch` accepts.
    pub fn serialize_branch(branch: &BranchNode) -> (res: Vec<u8>)
        ensures
            res@ == branch_bytes(*branch),
            branch_fault(res@) is None,
    {
        let mut res: Vec<u8> = Vec::new();
        write_merge_value(&mut res, &branch.left);
        write_merge_value(&mut res, &branch.right);
        proof {
            lemma_branch_roundtrip(*branch, Seq::empty(), *branch);
            assert(res@ =~= branch_bytes(*branch) + Seq::<u8>::empty());
        }
        res
    }

    /// Decodes a branch record.
    ///
    /// The record is read from the front: what follows the second child is
    /// ignored. A record is refused where a child ends early or carries an
    /// unknown tag. The branch that comes back is the one whose encoding the
    /// record starts with.
    pub fn deserialize_branch(v: &[u8]) -> (res: Result<BranchNode, StoreError>)
        ensures
            match branch_fault(v@) {
                Some(fault) => res == Err::<BranchNode, _>(fault),
                None => res matches Ok(branch) && branch_bytes(branch).is_prefix_of(v@),
            },
    {
        let (left, taken) = match read_merge_value(v) {
            Ok(read) => read,
            Err(e) => {
                return Err(e);
            },
        };
        let rest = slice_subrange(v, taken, v.len());
        proof {
            assert(rest@ =~= v@.skip(taken as int));
        }
        let (right, more) = match read_merge_value(rest) {
            Ok(read) => read,
            Err(e) => {
                return Err(e);
            },
        };
        let branch = BranchNode { left, right };
        proof {
            assert(branch_bytes(branch) =~= v@.subrange(0, taken + more));
        }
        Ok(branch)
    }

    /// Encodes a leaf value: the 32 bytes as they are.
    pub fn serialize_val(v: [u8; 32]) -> (res: Vec<u8>)
        ensures
            res@ == v@,
    {
        slice_to_vec(v.as_slice())
    }

    /// Decodes a leaf value: a record of exactly 32 bytes.
    pub fn deserialize_val(v: &[u8]) -> (res: Result<[u8; 32], StoreError>)
        ensures
            v@.len() == 32 ==> (res matches Ok(value) && value@ == v@),
            v@.len() != 32 ==> res == Err::<[u8; 32], _>(StoreError::InvalidValue),
    {
        if v.len() != 32 {
            return Err(StoreError::InvalidValue);
        }
        let value = read_h256(v, 0);
        proof {
            assert(v@.subrange(0, 32) =~= v@);
        }
        Ok(value)
    }

    /// The write that makes `root` the persisted root.
    pub fn save_root(&self, root: &[u8; 32]) -> (op: StoreOp)
        ensures
            op.writes(self.id(), Place::Root, root@),
    {
        StoreOp {
            tree: self.id,
            write: Write::Insert { key: Self::root_key(), value: Self::serialize_val(*root) },
        }
    }

    /// What the record under the root key means: no record, no tree yet.
    pub fn read_root(record: Option<&[u8]>) -> (res: Result<Option<[u8; 32]>, StoreError>)
        ensures
            tells(res, value_meaning(record_bytes(record))),
    {
        match record {
            None => Ok(None),
            Some(v) => match Self::deserialize_val(v) {
                Ok(root) => Ok(Some(root)),
                Err(e) => Err(e),
            },
        }
    }

    /// The write that wipes every record of this store.
    pub fn clear(&self) -> (op: StoreOp)
        ensures
            op.clears(self.id()),
    {
        StoreOp { tree: self.id, write: Write::Clear }
    }

    /// What the record under a branch key means.
    pub fn get_branch(record: Option<&[u8]>) -> (res: Result<Option<BranchNode>, StoreError>)
        ensures
            record is None ==> res == Ok::<_, StoreError>(None::<BranchNode>),
            record matches Some(v) ==> match branch_fault(v@) {
                Some(fault) => res == Err::<Option<BranchNode>, _>(fault),
                None => res matches Ok(Some(branch)) && branch_bytes(branch).is_prefix_of(v@),
            },
    {
        match record {
            None => Ok(None),
            Some(v) => match Self::deserialize_branch(v) {
                Ok(branch) => Ok(Some(branch)),
                Err(e) => Err(e),
            },
        }
    }

    /// What the record under a leaf key means.
    pub fn get_leaf(record: Option<&[u8]>) -> (res: Result<Option<[u8; 32]>, StoreError>)
        ensures
            tells(res, value_meaning(record_bytes(record))),
    {
        match record {
            None => Ok(None),
            Some(v) => match Self::deserialize_val(v) {
                Ok(leaf) => Ok(Some(leaf)),
                Err(e) => Err(e),
            },
        }
    }

    /// The write that stores `branch` at `key`.
    pub fn insert_branch(&self, key: &BranchKey, branch: &BranchNode) -> (op: StoreOp)
        ensures
            op.writes(
                self.id(),
                Place::Branch(key.height, key.node_key@),
                branch_bytes(*branch),
            ),
    {
        StoreOp {
            tree: self.id,
            write: Write::Insert {
                key: Self::branch_key(key),
                value: Self::serialize_branch(branch),
            },
        }
    }

    /// The write that stores the value `leaf` at `key`.
    pub fn insert_leaf(&self, key: &[u8; 32], leaf: [u8; 32]) -> (op: StoreOp)
        ensures
            op.writes(self.id(), Place::Leaf(key@), leaf@),
    {
        StoreOp {
            tree: self.id,
            write: Write::Insert { key: Self::leaf_key(key), value: Self::serialize_val(leaf) },
        }
    }

    /// The write that drops the branch at `key`.
    pub fn remove_branch(&self, key: &BranchKey) -> (op: StoreOp)
        ensures
            op.drops(self.id(), Place::Branch(key.height, key.node_key@)),
    {
        StoreOp { tree: self.id, write: Write::Remove { key: Self::branch_key(key) } }
    }

    /// The write that drops the leaf at `key`.
    pub fn remove_leaf(&self, key: &[u8; 32]) -> (op: StoreOp)
        ensures
            op.drops(self.id(), Place::Leaf(key@)),
    {
        StoreOp { tree: self.id, write: Write::Remove { key: Self::leaf_key(key) } }
    }

}

/// Every place has a key of its own: records of different kinds never
/// share a key, and two leaves, or two branches, share a key only where they
/// are the same.
pub proof fn lemma_places_have_keys_of_their_own(p: Place, q: Place)
    ensures
        p.key() == q.key() ==> p == q,
{
    if p.key() == q.key() {
        assert(leaf_tag()[0] == 0x6c && branch_tag()[0] == 0x62 && root_key_bytes()[0] == 0x72);
        assert(p.key()[0] == q.key()[0]);
        match (p, q) {
            (Place::Leaf(a), Place::Leaf(b)) => {
                assert(p.key().skip(4) =~= a);
                assert(q.key().skip(4) =~= b);
            },
            (Place::Branch(g, a), Place::Branch(h, b)) => {
                assert(p.key()[4] == g && q.key()[4] == h);
                assert(p.key().skip(5) =~= a);
                assert(q.key().skip(5) =~= b);
            },
            _ => {},
        }
    }
}

/// A child is told from the front of its encoding: two children of which one
/// encoding starts the other's record are the same child.
proof fn lemma_merge_value_prefix(a: MergeValue, b: MergeValue, record: Seq<u8>)
    requires
        merge_value_bytes(a).is_prefix_of(record),
        merge_value_bytes(b).is_prefix_of(record),
    ensures
        a == b,
{
    let x = merge_value_bytes(a);
    let y = merge_value_bytes(b);
    assert(x[0] == record[0] && y[0] == record[0]);
    match (a, b) {
        (MergeValue::Value(p), MergeValue::Value(q)) => {
            assert forall|i: int| 0 <= i < 32 implies p[i] == q[i] by {
                assert(x[4 + i] == record[4 + i] && y[4 + i] == record[4 + i]);
            }
            assert(p =~= q);
        },
        (
            MergeValue::MergeWithZero { base_node: p, zero_bits: s, zero_count: m },
            MergeValue::MergeWithZero { base_node: q, zero_bits: t, zero_count: n },
        ) => {
            assert forall|i: int| 0 <= i < 32 implies p[i] == q[i] by {
                assert(x[4 + i] == record[4 + i] && y[4 + i] == record[4 + i]);
            }
            assert forall|i: int| 0 <= i < 32 implies s[i] == t[i] by {
                assert(x[36 + i] == record[36 + i] && y[36 + i] == record[36 + i]);
            }
            assert(x[68] == record[68] && y[68] == record[68]);
            assert(p =~= q);
            assert(s =~= t);
        },
        _ => {},
    }
}

/// Decoding undoes encoding, whatever follows the encoded branch: the record
/// is accepted, and the only branch whose encoding it starts with is the one
/// that was encoded.
pub proof fn lemma_branch_roundtrip(branch: BranchNode, tail: Seq<u8>, other: BranchNode)
    ensures
        branch_fault(branch_bytes(branch) + tail) is None,
        branch_bytes(other).is_prefix_of(branch_bytes(branch) + tail) ==> other == branch,
{
    let record = branch_bytes(branch) + tail;
    let left = merge_value_bytes(branch.left);
    let right = merge_value_bytes(branch.right);
    assert(left.is_prefix_of(record));
    assert(tag_of(record) == tag_of(left));
    assert(record.skip(left.len() as int) =~= right + tail);
    assert(tag_of(right + tail) == tag_of(right));
    if branch_bytes(other).is_prefix_of(record) {
        let l = merge_value_bytes(other.left);
        let r = merge_value_bytes(other.right);
        assert(l.is_prefix_of(record));
        lemma_merge_value_prefix(other.left, branch.left, record);
        let whole = branch_bytes(other);
        let rest = record.skip(left.len() as int);
        assert(r =~= rest.subrange(0, r.len() as int)) by {
            assert(whole =~= record.subrange(0, whole.len() as int));
            assert forall|i: int| 0 <= i < r.len() implies r[i] == rest[i] by {
                assert(whole[left.len() + i] == r[i]);
            }
        }
        assert(r.is_prefix_of(rest));
        lemma_merge_value_prefix(other.right, branch.right, right + tail);
    }
}

/// The media items of an album are isolated: an operation changes the
/// records of the item it is addressed to, and of no other.
pub proof fn lemma_stores_are_isolated(
    op: StoreOp,
    album: Map<Seq<u8>, Map<Seq<u8>, Seq<u8>>>,
    tree: Seq<u8>,
)
    ensures
        records_of(op.apply(album), op.tree@) == op.write.apply(records_of(album, op.tree@)),
        tree != op.tree@ ==> records_of(op.apply(album), tree) == records_of(album, tree),
{
}

/// A write is local. After a record is put or dropped at one place, that
/// place holds what the write put there, and every other place holds what it
/// held before.
pub proof fn lemma_write_is_local(
    write: Write,
    records: Map<Seq<u8>, Seq<u8>>,
    at: Place,
    other: Place,
)
    requires
        write.key() == Some(at.key()),
    ensures
        fetch(write.apply(records), at.key()) == write.puts(),
        other != at ==> fetch(write.apply(records), other.key()) == fetch(records, other.key()),
{
    lemma_places_have_keys_of_their_own(at, other);
}

} // verus!
