//! Immutable workspace assets: their identifiers and the records that describe them.
use std::path::PathBuf;

use vstd::prelude::*;
use vstd::string::*;

use crate::text::{split_char, split_on, str_eq};

verus! {

/// The standard library's `PathBuf`, carried through as an opaque value.
#[verifier::external_type_specification]
#[verifier::external_body]
pub struct ExPathBuf(std::path::PathBuf);

/// `PathBuf::clone` gives a path equal to the one cloned.
pub assume_specification[ <std::path::PathBuf as core::clone::Clone>::clone ](p: &PathBuf) -> (r: PathBuf)
    ensures
        r == *p,
;

/// The longest asset identifier, in bytes.
pub const MAX_ASSET_ID_BYTES: usize = 255;

/// The longest path segment of an asset identifier, in bytes.
pub const MAX_ASSET_SEGMENT_BYTES: usize = 100;

/// What is recorded about a stored asset.
#[derive(Debug, Clone, PartialEq, Eq)]
pub struct AssetMetadata {
    pub id: String,
    pub size: u64,
    pub content_type: String,
    pub sha256: String,
    pub created_at: u64,
}

/// A stored asset and the file that holds its bytes.
#[derive(Debug, Clone, PartialEq, Eq)]
pub struct Asset {
    pub metadata: AssetMetadata,
    pub path: PathBuf,
}

impl Asset {
    /// An asset whose bytes are in the file at `path`.
    pub fn new(metadata: AssetMetadata, path: PathBuf) -> (r: Self)
        ensures
            r.metadata == metadata,
            r.path == path,
    {
        Asset { metadata, path }
    }

    /// The file that holds the asset's bytes.
    pub fn path(&self) -> (r: &PathBuf)
        ensures
            *r == self.path,
    {
        &self.path
    }
}

/// Why an asset operation failed.
#[derive(Debug)]
pub enum AssetError {
    InvalidId(String),
    NotFound(String),
    AlreadyExists(String),
    PathConflict(String),
    /// Reading or writing the store failed; the I/O error's text.
    Storage(String),
    /// A metadata file did not parse; the parser's text.
    InvalidMetadata(String),
}

/// A character allowed in an asset identifier.
pub open spec fn asset_id_char(c: char) -> bool {
    ('a' <= c && c <= 'z') || ('0' <= c && c <= '9') || c == '_' || c == '/' || c == '.'
}

/// A path segment allowed in an asset identifier.
pub open spec fn asset_segment_ok(segment: Seq<char>) -> bool {
    &&& 1 <= segment.len() <= MAX_ASSET_SEGMENT_BYTES
    &&& segment != "."@
    &&& segment != ".."@
    &&& segment != ".metadata"@
}

/// A valid asset identifier: 1 to 255 characters from `[a-z0-9_/.]`, whose
/// `/`-separated segments are each 1 to 100 characters long and none of `.`,
/// `..` or `.metadata`.
pub open spec fn valid_asset_id(id: Seq<char>) -> bool {
    &&& 1 <= id.len() <= MAX_ASSET_ID_BYTES
    &&& forall|i: int| 0 <= i < id.len() ==> asset_id_char(#[trigger] id[i])
    &&& forall|j: int|
        0 <= j < split_on(id, '/').len() ==> asset_segment_ok(#[trigger] split_on(id, '/')[j])
}

/// An asset identifier is 1 to 255 characters of lowercase letters, digits,
/// `_`, `/` and `.`: an empty or longer one, or one holding an uppercase
/// letter, a `-` or a space, is invalid.
pub proof fn law_asset_id_syntax(id: Seq<char>, i: int)
    ensures
        id.len() == 0 || id.len() > 255 ==> !valid_asset_id(id),
        0 <= i < id.len() && (('A' <= id[i] && id[i] <= 'Z') || id[i] == '-' || id[i] == ' ') ==> !valid_asset_id(id),
        valid_asset_id(id) ==> forall|k: int|
            0 <= k < id.len() ==> ('a' <= #[trigger] id[k] && id[k] <= 'z') || ('0' <= id[k] && id[k] <= '9') || id[k]
                == '_' || id[k] == '/' || id[k] == '.',
{
}

/// Checks an asset identifier; every violation is `InvalidId` with the identifier.
pub fn validate_asset_id(id: &str) -> (r: Result<(), AssetError>)
    ensures
        match r {
            Ok(()) => valid_asset_id(id@),
            Err(AssetError::InvalidId(s)) => !valid_asset_id(id@) && s@ == id@,
            Err(_) => false,
        },
{
    let n = id.unicode_len();
    if n == 0 || n > MAX_ASSET_ID_BYTES {
        return Err(AssetError::InvalidId(id.to_owned()));
    }
    let mut i: usize = 0;
    while i < n
        invariant
            n == id@.len(),
            i <= n,
            forall|j: int| 0 <= j < i ==> asset_id_char(#[trigger] id@[j]),
        decreases n - i,
    {
        let c = id.get_char(i);
        if !(('a' <= c && c <= 'z') || ('0' <= c && c <= '9') || c == '_' || c == '/' || c == '.') {
            assert(!asset_id_char(id@[i as int]));
            return Err(AssetError::InvalidId(id.to_owned()));
        }
        i = i + 1;
    }
    let segments = split_char(id, '/');
    let m = segments.len();
    let mut k: usize = 0;
    while k < m
        invariant
            m == segments@.len(),
            segments.deep_view() == split_on(id@, '/'),
            k <= m,
            forall|j: int| 0 <= j < k ==> asset_segment_ok(#[trigger] split_on(id@, '/')[j]),
        decreases m - k,
    {
        let segment = segments[k].as_str();
        assert(segment@ == split_on(id@, '/')[k as int]);
        let len = segment.unicode_len();
        if len == 0 || len > MAX_ASSET_SEGMENT_BYTES || str_eq(segment, ".") || str_eq(segment, "..")
            || str_eq(segment, ".metadata") {
            return Err(AssetError::InvalidId(id.to_owned()));
        }
        k = k + 1;
    }
    Ok(())
}

/// A `sha2::Sha256` hasher. Verus refuses a declaration of `sha2::Sha256`
/// itself (it is an alias of a generic wrapper), so the hasher is held in a
/// private field of this opaque struct.
#[verifier::external_body]
pub struct Sha256Hasher {
    inner: sha2::Sha256,
}

/// The bytes a SHA-256 hasher has been fed so far, in order.
pub uninterp spec fn digest_input(hasher: Sha256Hasher) -> Seq<u8>;

impl Sha256Hasher {
    /// `Sha256::new`: a hasher that has been fed nothing.
    #[verifier::external_body]
    fn new() -> (r: Self)
        ensures
            digest_input(r) == Seq::<u8>::empty(),
    {
        Sha256Hasher { inner: <sha2::Sha256 as sha2::Digest>::new() }
    }

    /// `Digest::update`: feeds the bytes after those fed before.
    #[verifier::external_body]
    fn update(&mut self, bytes: &[u8])
        ensures
            digest_input(*final(self)) == digest_input(*old(self)) + bytes@,
    {
        sha2::Digest::update(&mut self.inner, bytes)
    }

    /// `Digest::finalize`: the 32-byte SHA-256 of every byte fed.
    #[verifier::external_body]
    fn finalize(self) -> (r: Vec<u8>)
        ensures
            r@ == crate::model::sha256_digest(digest_input(self)),
            r@.len() == 32,
    {
        sha2::Digest::finalize(self.inner).to_vec()
    }
}

/// An upload in progress: how many bytes have arrived (saturating) and the
/// hasher that has seen them.
pub struct UploadState {
    size: u64,
    hasher: Sha256Hasher,
}

impl UploadState {
    /// How many bytes have arrived, saturating at `u64::MAX`.
    pub closed spec fn size(&self) -> u64 {
        self.size
    }

    /// Every byte that has arrived, in order.
    pub closed spec fn fed(&self) -> Seq<u8> {
        digest_input(self.hasher)
    }

    /// An upload that has received nothing.
    pub fn new() -> (r: Self)
        ensures
            r.size() == 0,
            r.fed() == Seq::<u8>::empty(),
    {
        UploadState { size: 0, hasher: Sha256Hasher::new() }
    }

    /// The bytes received so far, saturating at `u64::MAX`.
    pub fn received(&self) -> (r: u64)
        ensures
            r == self.size(),
    {
        self.size
    }
}

/// Takes in one chunk of an upload: the size grows by its length (saturating)
/// and the hasher sees its bytes after the earlier ones.
pub fn upload_write(state: &mut UploadState, bytes: &[u8])
    ensures
        final(state).size() == if old(state).size() + bytes@.len() > u64::MAX {
            u64::MAX as int
        } else {
            old(state).size() + bytes@.len()
        },
        final(state).fed() == old(state).fed() + bytes@,
{
    let len = bytes.len() as u64;
    state.size = state.size.saturating_add(len);
    state.hasher.update(bytes);
}

/// The metadata a finished upload is recorded with: its identifier and content
/// type, the bytes received, the lowercase hexadecimal SHA-256 of every byte
/// received, and the creation time.
pub fn upload_metadata(state: UploadState, id: String, content_type: String, created_at: u64) -> (r: AssetMetadata)
    ensures
        r.id == id,
        r.content_type == content_type,
        r.size == state.size(),
        r.sha256@ == crate::wire::hex_encode(crate::model::sha256_digest(state.fed())),
        r.created_at == created_at,
{
    let UploadState { size, hasher } = state;
    let digest = hasher.finalize();
    let sha256 = crate::wire::encode_hex(digest.as_slice());
    AssetMetadata { id, size, content_type, sha256, created_at }
}

/// The directory of a workspace that holds assets.
pub fn assets_directory() -> (r: &'static str)
    ensures
        r@ == "assets"@,
{
    "assets"
}

/// The directory under the assets that holds their metadata.
pub fn metadata_directory() -> (r: &'static str)
    ensures
        r@ == ".metadata"@,
{
    ".metadata"
}

/// The directory of a workspace that holds uploads in progress.
pub fn uploads_directory() -> (r: &'static str)
    ensures
        r@ == ".asset-uploads"@,
{
    ".asset-uploads"
}

/// The path `PathBuf::join` gives for a base path and a relative text.
pub uninterp spec fn joined_path(base: PathBuf, relative: Seq<char>) -> PathBuf;

/// `PathBuf::join`: the path with `relative` appended. The result depends on
/// the base path and the text alone; nothing more is claimed of it.
#[verifier::external_body]
fn join_path(base: &PathBuf, relative: &str) -> (r: PathBuf)
    ensures
        r == joined_path(*base, relative@),
{
    base.join(relative)
}

/// The asset store of a workspace: where asset files, their metadata and
/// uploads in progress are kept.
#[derive(Debug, Clone)]
pub struct AssetStore {
    assets: PathBuf,
    metadata: PathBuf,
    uploads: PathBuf,
}

/// The metadata file of an asset, relative to the metadata directory: the
/// identifier with `.json` appended.
pub open spec fn metadata_file_spec(id: Seq<char>) -> Seq<char> {
    id + ".json"@
}

/// The metadata file of an asset, relative to the metadata directory.
pub fn metadata_file(id: &str) -> (r: String)
    ensures
        r@ == metadata_file_spec(id@),
{
    let mut name = String::from_str(id);
    name.append(".json");
    name
}

/// Whether an asset may be created, given what is on disk: a directory in the
/// asset's place conflicts; an existing asset or metadata file means it
/// exists already; a file where a parent directory should be conflicts.
pub fn asset_availability(
    id: &str,
    asset_is_dir: bool,
    asset_exists: bool,
    metadata_exists: bool,
    parent_is_file: bool,
) -> (r: Result<(), AssetError>)
    ensures
        asset_is_dir ==> (r matches Err(AssetError::PathConflict(s)) && s@ == id@),
        !asset_is_dir && (asset_exists || metadata_exists) ==> (r matches Err(AssetError::AlreadyExists(s))
            && s@ == id@),
        !asset_is_dir && !asset_exists && !metadata_exists && parent_is_file ==> (r matches Err(
            AssetError::PathConflict(s),
        ) && s@ == id@),
        !asset_is_dir && !asset_exists && !metadata_exists && !parent_is_file ==> r.is_ok(),
{
    if asset_is_dir {
        return Err(AssetError::PathConflict(id.to_owned()));
    }
    if asset_exists || metadata_exists {
        return Err(AssetError::AlreadyExists(id.to_owned()));
    }
    if parent_is_file {
        return Err(AssetError::PathConflict(id.to_owned()));
    }
    Ok(())
}

impl AssetStore {
    /// The store whose assets live in `assets`, with metadata in `metadata`
    /// and uploads in `uploads`.
    pub fn new(assets: PathBuf, metadata: PathBuf, uploads: PathBuf) -> (r: Self)
        ensures
            r.assets_dir() == assets,
            r.metadata_dir() == metadata,
            r.uploads_dir() == uploads,
    {
        AssetStore { assets, metadata, uploads }
    }

    /// Where asset files are kept.
    pub closed spec fn assets_dir(&self) -> PathBuf {
        self.assets
    }

    /// Where asset metadata is kept.
    pub closed spec fn metadata_dir(&self) -> PathBuf {
        self.metadata
    }

    /// Where uploads in progress are kept.
    pub closed spec fn uploads_dir(&self) -> PathBuf {
        self.uploads
    }

    /// The directory of asset files.
    pub fn assets_path(&self) -> (r: &PathBuf)
        ensures
            *r == self.assets_dir(),
    {
        &self.assets
    }

    /// The directory of uploads in progress.
    pub fn uploads_path(&self) -> (r: &PathBuf)
        ensures
            *r == self.uploads_dir(),
    {
        &self.uploads
    }

    /// The file that holds an asset's bytes: the identifier joined to the
    /// assets directory.
    pub fn asset_path(&self, id: &str) -> (r: PathBuf)
        ensures
            r == joined_path(self.assets_dir(), id@),
    {
        join_path(&self.assets, id)
    }

    /// The file that holds an asset's metadata: the identifier with `.json`
    /// appended, joined to the metadata directory.
    pub fn metadata_path(&self, id: &str) -> (r: PathBuf)
        ensures
            r == joined_path(self.metadata_dir(), metadata_file_spec(id@)),
    {
        let name = metadata_file(id);
        join_path(&self.metadata, name.as_str())
    }
}

} // verus!
