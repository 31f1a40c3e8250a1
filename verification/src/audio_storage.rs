//! Storage of audio blobs: where each backend keeps a blob, and how a blob is cut into
//! blocks for upload and put together again when it is read.

use crate::text::{
    decimal, decimal_text, hex8, hex_capacity, hex_padded, join_path,
    lemma_decimal_text_injective, lemma_hex_padded_len, lemma_hex_padded_order,
    lemma_text_less_irreflexive, path_in, text_less,
};
use azure_storage_blobs::blob::{BlobBlockType, BlockList};
use vstd::prelude::*;
use vstd::string::*;
use vstd::utf8::encode_utf8;

verus! {

/// Extension of every stored audio file.
pub const AUDIO_FILE_EXTENSION: &'static str = ".webm";

/// Directory in which the local backend keeps its files.
pub const UPLOADS_DIRECTORY: &'static str = "uploads";

/// Content type of every stored audio blob.
pub const AUDIO_FILE_MIMETYPE: &'static str = "audio/webm";

/// What the name of a file ends in while it is being written.
pub const STAGING_SUFFIX: &'static str = ".part";

/// Size in bytes of the pages in which the remote backend hands a blob out.
pub const DOWNLOAD_CHUNK_SIZE: u64 = 2 * 1024 * 1024;

/// How many blocks one upload can name: the numbers that fit eight hexadecimal digits.
pub const MAX_BLOCKS: u64 = 0x1_0000_0000;

/// Name of the object that holds the blob `audio_id`: the id in decimal and the extension.
pub open spec fn blob_name(audio_id: int) -> Seq<char> {
    decimal_text(audio_id) + AUDIO_FILE_EXTENSION@
}

/// Path of the file in which the local backend keeps the blob `audio_id`.
pub open spec fn upload_path(audio_id: int) -> Seq<char> {
    path_in(UPLOADS_DIRECTORY@, blob_name(audio_id))
}

/// Path of the file into which the local backend writes the blob `audio_id` before the
/// file takes its place: beside the place itself, so that it can be moved there in one
/// step.
pub open spec fn staging_path(audio_id: int) -> Seq<char> {
    upload_path(audio_id) + STAGING_SUFFIX@
}

/// The bytes of all chunks, one after the other in the order of the chunks.
pub open spec fn joined(chunks: Seq<Seq<u8>>) -> Seq<u8>
    decreases chunks.len(),
{
    if chunks.len() == 0 {
        Seq::empty()
    } else {
        joined(chunks.drop_last()) + chunks.last()
    }
}

/// The ids of the first `count` blocks of an upload.
pub open spec fn block_ids(count: nat) -> Seq<Seq<char>> {
    Seq::new(count, |i: int| hex_padded(i as nat, 8))
}

/// Why a storage operation did not succeed.
#[derive(Debug, Clone, Copy, PartialEq, Eq, Structural)]
pub enum StorageError {
    /// The blob does not exist.
    NotFound,
    /// The backend failed, or a blob was written only in part.
    StorageFailure,
    /// The upload has used every block id.
    TooManyBlocks,
}

/// Computes the name of the object that holds a blob.
pub fn blob_file_name(audio_id: i32) -> (name: String)
    ensures
        name@ == blob_name(audio_id as int),
{
    let mut name = decimal(audio_id);
    name.append(AUDIO_FILE_EXTENSION);
    name
}

/// The local filesystem backend.
#[derive(Debug, Clone, Copy)]
pub struct LocalAudioStorage;

impl LocalAudioStorage {
    /// The local backend and, where the uploads directory is not there yet, the
    /// directory to create before the backend is used.
    pub fn new(directory_exists: bool) -> (result: (LocalAudioStorage, Option<String>))
        ensures
            directory_exists ==> result.1 is None,
            !directory_exists ==> result.1 is Some && result.1->0@ == UPLOADS_DIRECTORY@,
    {
        if directory_exists {
            (LocalAudioStorage, None)
        } else {
            (LocalAudioStorage, Some(String::from_str(UPLOADS_DIRECTORY)))
        }
    }

    /// Path of the file that holds the blob `audio_id`: its object name inside the
    /// uploads directory.
    pub fn get_path(&self, audio_id: i32) -> (path: String)
        ensures
            path@ == upload_path(audio_id as int),
    {
        join_path(UPLOADS_DIRECTORY, blob_file_name(audio_id).as_str())
    }

    /// Path of the file into which the blob `audio_id` is written before it takes its
    /// place.
    pub fn get_staging_path(&self, audio_id: i32) -> (path: String)
        ensures
            path@ == staging_path(audio_id as int),
    {
        let mut path = self.get_path(audio_id);
        path.append(STAGING_SUFFIX);
        path
    }
}

/// `BlockList` of azure_storage_blobs: the list of blocks that commits a blob. Nothing
/// is known of a value but what the two names below say of it.
#[verifier::external_type_specification]
#[verifier::external_body]
pub struct ExBlockList(BlockList);

/// The ids of the blocks that a block list names, in the order of the list, each as the
/// bytes it is made of.
pub uninterp spec fn block_list_ids(list: BlockList) -> Seq<Seq<u8>>;

/// Whether every block that a block list names is marked as uncommitted, that is, as
/// staged and not yet part of the blob.
pub uninterp spec fn block_list_uncommitted(list: BlockList) -> bool;

/// `BlockList::default` of azure_storage_blobs: a list that names no block.
#[verifier::external_body]
fn empty_block_list() -> (list: BlockList)
    ensures
        block_list_ids(list) == Seq::<Seq<u8>>::empty(),
        block_list_uncommitted(list),
{
    BlockList::default()
}

/// `BlobBlockType::new_uncommitted` of azure_storage_blobs, pushed onto the list's
/// `blocks`: the list names one more block, the last, marked as uncommitted, whose id
/// is the UTF-8 bytes of `id`.
#[verifier::external_body]
fn push_uncommitted(list: &mut BlockList, id: String)
    ensures
        block_list_ids(*final(list)) == block_list_ids(*old(list)).push(encode_utf8(id@)),
        block_list_uncommitted(*final(list)) == block_list_uncommitted(*old(list)),
{
    list.blocks.push(BlobBlockType::new_uncommitted(id))
}

/// The ids of the first `count` blocks of an upload, as a block list holds them.
pub open spec fn block_id_bytes(count: nat) -> Seq<Seq<u8>> {
    Seq::new(count, |i: int| encode_utf8(hex_padded(i as nat, 8)))
}

/// An upload of one blob to the remote backend, block by block. Each chunk of the
/// incoming stream becomes a block under the next id; the list of the ids, in that
/// order, is what commits the blob.
pub struct BlockUpload {
    staged: u64,
    block_list: BlockList,
}

impl BlockUpload {
    /// The list names exactly the blocks staged so far, in order, all uncommitted.
    pub closed spec fn wf(&self) -> bool {
        &&& self.staged <= MAX_BLOCKS
        &&& block_list_ids(self.block_list) == block_id_bytes(self.staged as nat)
        &&& block_list_uncommitted(self.block_list)
    }

    /// How many blocks have been given an id.
    pub closed spec fn staged(&self) -> nat {
        self.staged as nat
    }

    /// An upload with no block yet.
    pub fn new() -> (upload: BlockUpload)
        ensures
            upload.wf(),
            upload.staged() == 0,
    {
        let block_list = empty_block_list();
        assert(block_list_ids(block_list) =~= block_id_bytes(0));
        BlockUpload { staged: 0, block_list }
    }

    /// Gives the next chunk its block id and enters it in the list: the number of the
    /// chunk, counted from zero, as eight hexadecimal digits. Fails, and changes
    /// nothing, once every id is used.
    pub fn next_block(&mut self) -> (result: Result<String, StorageError>)
        requires
            old(self).wf(),
        ensures
            final(self).wf(),
            old(self).staged() < MAX_BLOCKS ==> result is Ok && result->Ok_0@ == hex_padded(
                old(self).staged(),
                8,
            ) && final(self).staged() == old(self).staged() + 1,
            old(self).staged() >= MAX_BLOCKS ==> result == Err::<String, StorageError>(
                StorageError::TooManyBlocks,
            ) && *final(self) == *old(self),
    {
        if self.staged >= MAX_BLOCKS {
            return Err(StorageError::TooManyBlocks);
        }
        let id = hex8(self.staged as u32);
        push_uncommitted(&mut self.block_list, id.clone());
        proof {
            assert(block_list_ids(self.block_list) =~= block_id_bytes((self.staged + 1) as nat));
        }
        self.staged = self.staged + 1;
        Ok(id)
    }

    /// The list that commits the blob: the ids of all blocks staged, in the order of
    /// their chunks, each marked as uncommitted.
    pub fn finish(self) -> (list: BlockList)
        requires
            self.wf(),
        ensures
            block_list_ids(list) == block_id_bytes(self.staged()),
            block_list_uncommitted(list),
    {
        self.block_list
    }
}

/// The remote object backend: one container of one storage account.
#[derive(Debug, Clone)]
pub struct AzureAudioStorage {
    account: String,
    access_key: String,
    container: String,
}

impl AzureAudioStorage {
    /// A backend for `container` of `account`, authorized by `access_key`.
    pub fn new(account: &str, access_key: &str, container: &str) -> (storage: AzureAudioStorage)
        ensures
            storage.account_view() == account@,
            storage.access_key_view() == access_key@,
            storage.container_view() == container@,
    {
        AzureAudioStorage {
            account: String::from_str(account),
            access_key: String::from_str(access_key),
            container: String::from_str(container),
        }
    }

    /// Name of the storage account.
    pub closed spec fn account_view(&self) -> Seq<char> {
        self.account@
    }

    /// Key that authorizes access to the account.
    pub closed spec fn access_key_view(&self) -> Seq<char> {
        self.access_key@
    }

    /// Name of the container that holds the blobs.
    pub closed spec fn container_view(&self) -> Seq<char> {
        self.container@
    }

    /// Name of the storage account.
    pub fn account(&self) -> (account: &str)
        ensures
            account@ == self.account_view(),
    {
        self.account.as_str()
    }

    /// Key that authorizes access to the account.
    pub fn access_key(&self) -> (access_key: &str)
        ensures
            access_key@ == self.access_key_view(),
    {
        self.access_key.as_str()
    }

    /// Name of the container that holds the blobs.
    pub fn container(&self) -> (container: &str)
        ensures
            container@ == self.container_view(),
    {
        self.container.as_str()
    }
}

/// The backend for tests: it keeps nothing.
#[derive(Debug, Clone, Copy)]
pub struct MockAudioStorage;

/// What a backend has to do outside the library to serve one operation.
#[derive(Debug, Clone)]
pub enum StorageRequest {
    /// Open the file at `path` and stream its bytes.
    ReadFile { path: String },
    /// Drain the whole incoming stream into the file at `staging`, then move that file
    /// to `path` in one step. If the stream fails, remove the file at `staging` and
    /// leave `path` alone.
    WriteFile { staging: String, path: String },
    /// Remove the file at `path`.
    RemoveFile { path: String },
    /// Read the blob `blob` in pages of `chunk_size` bytes, to be put together in the
    /// order of the pages.
    ReadBlob { blob: String, chunk_size: u64 },
    /// Upload the incoming stream as blocks of the blob `blob`, one per chunk, and
    /// commit the list of their ids with `content_type`.
    UploadBlocks { blob: String, content_type: String },
    /// Delete the blob `blob`.
    DeleteBlob { blob: String },
    /// Hand out an empty object that lives only for this read.
    EmptyObject,
    /// Touch nothing.
    Nothing,
}

/// A storage request with its texts as sequences of characters.
pub enum StorageRequestView {
    ReadFile { path: Seq<char> },
    WriteFile { staging: Seq<char>, path: Seq<char> },
    RemoveFile { path: Seq<char> },
    ReadBlob { blob: Seq<char>, chunk_size: u64 },
    UploadBlocks { blob: Seq<char>, content_type: Seq<char> },
    DeleteBlob { blob: Seq<char> },
    EmptyObject,
    Nothing,
}

impl View for StorageRequest {
    type V = StorageRequestView;

    open spec fn view(&self) -> StorageRequestView {
        match self {
            StorageRequest::ReadFile { path } => StorageRequestView::ReadFile { path: path@ },
            StorageRequest::WriteFile { staging, path } => StorageRequestView::WriteFile {
                staging: staging@,
                path: path@,
            },
            StorageRequest::RemoveFile { path } => StorageRequestView::RemoveFile { path: path@ },
            StorageRequest::ReadBlob { blob, chunk_size } => StorageRequestView::ReadBlob {
                blob: blob@,
                chunk_size: *chunk_size,
            },
            StorageRequest::UploadBlocks { blob, content_type } => StorageRequestView::UploadBlocks {
                blob: blob@,
                content_type: content_type@,
            },
            StorageRequest::DeleteBlob { blob } => StorageRequestView::DeleteBlob { blob: blob@ },
            StorageRequest::EmptyObject => StorageRequestView::EmptyObject,
            StorageRequest::Nothing => StorageRequestView::Nothing,
        }
    }
}

/// The one interface to blob storage, over the backend that was chosen at start.
#[derive(Debug, Clone)]
pub enum AudioStorage {
    Local(LocalAudioStorage),
    Azure(AzureAudioStorage),
    Mock(MockAudioStorage),
}

impl AudioStorage {
    /// The request that reads the blob `audio_id`.
    pub open spec fn get_request(&self, audio_id: int) -> StorageRequestView {
        match self {
            AudioStorage::Local(_) => StorageRequestView::ReadFile { path: upload_path(audio_id) },
            AudioStorage::Azure(_) => StorageRequestView::ReadBlob {
                blob: blob_name(audio_id),
                chunk_size: DOWNLOAD_CHUNK_SIZE,
            },
            AudioStorage::Mock(_) => StorageRequestView::EmptyObject,
        }
    }

    /// The request that stores a stream as the blob `audio_id`.
    pub open spec fn store_request(&self, audio_id: int) -> StorageRequestView {
        match self {
            AudioStorage::Local(_) => StorageRequestView::WriteFile {
                staging: staging_path(audio_id),
                path: upload_path(audio_id),
            },
            AudioStorage::Azure(_) => StorageRequestView::UploadBlocks {
                blob: blob_name(audio_id),
                content_type: AUDIO_FILE_MIMETYPE@,
            },
            AudioStorage::Mock(_) => StorageRequestView::Nothing,
        }
    }

    /// The request that deletes the blob `audio_id`.
    pub open spec fn delete_request(&self, audio_id: int) -> StorageRequestView {
        match self {
            AudioStorage::Local(_) => StorageRequestView::RemoveFile {
                path: upload_path(audio_id),
            },
            AudioStorage::Azure(_) => StorageRequestView::DeleteBlob { blob: blob_name(audio_id) },
            AudioStorage::Mock(_) => StorageRequestView::Nothing,
        }
    }

    /// What reading the blob `audio_id` takes.
    pub fn get(&self, audio_id: i32) -> (request: StorageRequest)
        ensures
            request@ == self.get_request(audio_id as int),
    {
        match self {
            AudioStorage::Local(local) => StorageRequest::ReadFile {
                path: local.get_path(audio_id),
            },
            AudioStorage::Azure(_) => StorageRequest::ReadBlob {
                blob: blob_file_name(audio_id),
                chunk_size: DOWNLOAD_CHUNK_SIZE,
            },
            AudioStorage::Mock(_) => StorageRequest::EmptyObject,
        }
    }

    /// What storing a stream as the blob `audio_id` takes.
    pub fn store(&self, audio_id: i32) -> (request: StorageRequest)
        ensures
            request@ == self.store_request(audio_id as int),
    {
        match self {
            AudioStorage::Local(local) => StorageRequest::WriteFile {
                staging: local.get_staging_path(audio_id),
                path: local.get_path(audio_id),
            },
            AudioStorage::Azure(_) => StorageRequest::UploadBlocks {
                blob: blob_file_name(audio_id),
                content_type: String::from_str(AUDIO_FILE_MIMETYPE),
            },
            AudioStorage::Mock(_) => StorageRequest::Nothing,
        }
    }

    /// What deleting the blob `audio_id` takes.
    pub fn delete(&self, audio_id: i32) -> (request: StorageRequest)
        ensures
            request@ == self.delete_request(audio_id as int),
    {
        match self {
            AudioStorage::Local(local) => StorageRequest::RemoveFile {
                path: local.get_path(audio_id),
            },
            AudioStorage::Azure(_) => StorageRequest::DeleteBlob { blob: blob_file_name(audio_id) },
            AudioStorage::Mock(_) => StorageRequest::Nothing,
        }
    }
}

/// The blocks that the remote backend holds staged, by id, once each chunk has been put
/// under its id, the chunks in order.
pub open spec fn staged_blocks(ids: Seq<Seq<char>>, chunks: Seq<Seq<u8>>) -> Map<
    Seq<char>,
    Seq<u8>,
>
    decreases chunks.len(),
{
    if chunks.len() == 0 || ids.len() != chunks.len() {
        Map::empty()
    } else {
        staged_blocks(ids.drop_last(), chunks.drop_last()).insert(ids.last(), chunks.last())
    }
}

/// The blob that committing the list `ids` makes of the staged blocks: the blocks that
/// the list names, one after the other in the order of the list.
pub open spec fn committed_blob(ids: Seq<Seq<char>>, staged: Map<Seq<char>, Seq<u8>>) -> Seq<u8> {
    joined(Seq::new(ids.len(), |i: int| staged[ids[i]]))
}

/// The objects that a backend holds, by name, after it has carried out `request` on a
/// stream that came in as `chunks`.
pub open spec fn performed(
    objects: Map<Seq<char>, Seq<u8>>,
    request: StorageRequestView,
    chunks: Seq<Seq<u8>>,
) -> Map<Seq<char>, Seq<u8>> {
    match request {
        StorageRequestView::WriteFile { staging, path } => objects.remove(staging).insert(
            path,
            joined(chunks),
        ),
        StorageRequestView::UploadBlocks { blob, .. } => objects.insert(
            blob,
            committed_blob(
                block_ids(chunks.len()),
                staged_blocks(block_ids(chunks.len()), chunks),
            ),
        ),
        StorageRequestView::RemoveFile { path } => objects.remove(path),
        StorageRequestView::DeleteBlob { blob } => objects.remove(blob),
        _ => objects,
    }
}

/// The objects that a backend holds, by name, while it carries out `request` and has
/// taken in only `partial` of the stream, or after the stream has failed there. Blocks
/// that are staged and not committed are no objects.
pub open spec fn interrupted(
    objects: Map<Seq<char>, Seq<u8>>,
    request: StorageRequestView,
    partial: Seq<u8>,
) -> Map<Seq<char>, Seq<u8>> {
    match request {
        StorageRequestView::WriteFile { staging, .. } => objects.insert(staging, partial),
        _ => objects,
    }
}

/// The bytes that a backend which holds `objects` hands out for `request`, if any.
pub open spec fn delivered(objects: Map<Seq<char>, Seq<u8>>, request: StorageRequestView) -> Option<
    Seq<u8>,
> {
    match request {
        StorageRequestView::ReadFile { path } => if objects.dom().contains(path) {
            Some(objects[path])
        } else {
            None
        },
        StorageRequestView::ReadBlob { blob, .. } => if objects.dom().contains(blob) {
            Some(objects[blob])
        } else {
            None
        },
        StorageRequestView::EmptyObject => Some(Seq::empty()),
        _ => None,
    }
}

/// Block ids sort as text in the order of their chunks, and all have eight characters.
pub proof fn lemma_block_ids_ascend(i: nat, j: nat)
    requires
        i < j < MAX_BLOCKS,
    ensures
        text_less(hex_padded(i, 8), hex_padded(j, 8)),
        hex_padded(i, 8) != hex_padded(j, 8),
        hex_padded(i, 8).len() == 8,
        hex_padded(j, 8).len() == 8,
{
    assert(hex_capacity(8) == MAX_BLOCKS) by {
        reveal_with_fuel(hex_capacity, 9);
    }
    lemma_hex_padded_order(i, j, 8);
    lemma_text_less_irreflexive(hex_padded(j, 8));
    lemma_hex_padded_len(i, 8);
    lemma_hex_padded_len(j, 8);
}

/// Each chunk is found again under the id it was staged with.
proof fn lemma_staged_lookup(chunks: Seq<Seq<u8>>, i: int)
    requires
        chunks.len() <= MAX_BLOCKS,
        0 <= i < chunks.len(),
    ensures
        staged_blocks(block_ids(chunks.len()), chunks).dom().contains(hex_padded(i as nat, 8)),
        staged_blocks(block_ids(chunks.len()), chunks)[hex_padded(i as nat, 8)] == chunks[i],
    decreases chunks.len(),
{
    let n = chunks.len();
    let ids = block_ids(n);
    assert(ids.drop_last() =~= block_ids((n - 1) as nat));
    if i < n - 1 {
        lemma_staged_lookup(chunks.drop_last(), i);
        lemma_block_ids_ascend(i as nat, (n - 1) as nat);
    }
}

/// Committing the ids of an upload gives back the stream: the blob is the bytes of the
/// chunks in their order, wherever the stream was cut into chunks.
pub proof fn lemma_commit_restores_stream(chunks: Seq<Seq<u8>>)
    requires
        chunks.len() <= MAX_BLOCKS,
    ensures
        committed_blob(block_ids(chunks.len()), staged_blocks(block_ids(chunks.len()), chunks))
            == joined(chunks),
{
    let ids = block_ids(chunks.len());
    let staged = staged_blocks(ids, chunks);
    let blocks = Seq::new(ids.len(), |i: int| staged[ids[i]]);
    assert forall|i: int| 0 <= i < chunks.len() implies blocks[i] == chunks[i] by {
        lemma_staged_lookup(chunks, i);
    }
    assert(blocks =~= chunks);
}

/// Two blobs never share an object: different ids give different names and paths.
pub proof fn lemma_names_distinct(a: i32, b: i32)
    requires
        a != b,
    ensures
        blob_name(a as int) != blob_name(b as int),
        upload_path(a as int) != upload_path(b as int),
{
    let ext = AUDIO_FILE_EXTENSION@;
    let prefix = UPLOADS_DIRECTORY@ + seq!['/'];
    let ta = decimal_text(a as int);
    let tb = decimal_text(b as int);
    if blob_name(a as int) == blob_name(b as int) {
        assert(ta.len() == tb.len()) by {
            assert((ta + ext).len() == (tb + ext).len());
        }
        assert(ta =~= (ta + ext).subrange(0, ta.len() as int));
        assert(tb =~= (tb + ext).subrange(0, tb.len() as int));
        lemma_decimal_text_injective(a as int, b as int);
    }
    if upload_path(a as int) == upload_path(b as int) {
        let pa = upload_path(a as int);
        let pb = upload_path(b as int);
        assert(blob_name(a as int) =~= pa.subrange(prefix.len() as int, pa.len() as int));
        assert(blob_name(b as int) =~= pb.subrange(prefix.len() as int, pb.len() as int));
    }
}

/// The file that a blob is written into is the place of no blob.
pub proof fn lemma_staging_is_no_place(audio_id: i32, other_id: i32)
    ensures
        staging_path(audio_id as int) != upload_path(other_id as int),
{
    reveal_strlit(".webm");
    reveal_strlit(".part");
    let staging = staging_path(audio_id as int);
    let place = upload_path(other_id as int);
    assert(staging.last() == 't');
    assert(place.last() == 'm');
}

/// A blob that is written only in part is never handed out: while a store is under
/// way, and after it has failed, every read gives what it gave before the store
/// began, the read of the same blob too.
pub proof fn lemma_partial_write_is_not_seen(
    storage: AudioStorage,
    objects: Map<Seq<char>, Seq<u8>>,
    audio_id: i32,
    read_id: i32,
    partial: Seq<u8>,
)
    ensures
        delivered(
            interrupted(objects, storage.store_request(audio_id as int), partial),
            storage.get_request(read_id as int),
        ) == delivered(objects, storage.get_request(read_id as int)),
{
    lemma_staging_is_no_place(audio_id, read_id);
}

/// What is stored under an id is what a later read of that id hands out, byte for byte,
/// on the local and on the remote backend, wherever the stream was cut into chunks.
pub proof fn lemma_round_trip(
    storage: AudioStorage,
    objects: Map<Seq<char>, Seq<u8>>,
    audio_id: i32,
    chunks: Seq<Seq<u8>>,
)
    requires
        !(storage is Mock),
        chunks.len() <= MAX_BLOCKS,
    ensures
        delivered(
            performed(objects, storage.store_request(audio_id as int), chunks),
            storage.get_request(audio_id as int),
        ) == Some(joined(chunks)),
{
    lemma_commit_restores_stream(chunks);
}

/// Storing one blob leaves every other blob as it was.
pub proof fn lemma_store_keeps_other_blobs(
    storage: AudioStorage,
    objects: Map<Seq<char>, Seq<u8>>,
    audio_id: i32,
    other_id: i32,
    chunks: Seq<Seq<u8>>,
)
    requires
        audio_id != other_id,
    ensures
        delivered(
            performed(objects, storage.store_request(audio_id as int), chunks),
            storage.get_request(other_id as int),
        ) == delivered(objects, storage.get_request(other_id as int)),
{
    lemma_names_distinct(audio_id, other_id);
    lemma_staging_is_no_place(audio_id, other_id);
}

/// After a blob is deleted, the local and the remote backend no longer hand it out, and
/// every other blob is as it was.
pub proof fn lemma_delete_removes_blob(
    storage: AudioStorage,
    objects: Map<Seq<char>, Seq<u8>>,
    audio_id: i32,
    other_id: i32,
)
    requires
        !(storage is Mock),
        audio_id != other_id,
    ensures
        delivered(
            performed(objects, storage.delete_request(audio_id as int), Seq::empty()),
            storage.get_request(audio_id as int),
        ) is None,
        delivered(
            performed(objects, storage.delete_request(audio_id as int), Seq::empty()),
            storage.get_request(other_id as int),
        ) == delivered(objects, storage.get_request(other_id as int)),
{
    lemma_names_distinct(audio_id, other_id);
}

/// The views of the chunks of a stream, in order.
pub open spec fn chunk_views(chunks: Seq<Vec<u8>>) -> Seq<Seq<u8>> {
    chunks.map_values(|chunk: Vec<u8>| chunk@)
}

/// Puts the pages of a read together into the blob: all bytes of all pages, in the order
/// of the pages.
pub fn reassemble(pages: &Vec<Vec<u8>>) -> (bytes: Vec<u8>)
    ensures
        bytes@ == joined(chunk_views(pages@)),
{
    let mut bytes: Vec<u8> = Vec::new();
    let mut i: usize = 0;
    while i < pages.len()
        invariant
            i <= pages.len(),
            bytes@ == joined(chunk_views(pages@.take(i as int))),
        decreases pages.len() - i,
    {
        let page = &pages[i];
        let mut j: usize = 0;
        while j < page.len()
            invariant
                j <= page.len(),
                i < pages.len(),
                page == &pages[i as int],
                bytes@ == joined(chunk_views(pages@.take(i as int))) + page@.take(j as int),
            decreases page.len() - j,
        {
            bytes.push(page[j]);
            proof {
                assert(page@.take(j as int + 1) =~= page@.take(j as int).push(page@[j as int]));
            }
            j = j + 1;
        }
        proof {
            let next = chunk_views(pages@.take(i as int + 1));
            assert(page@.take(j as int) =~= page@);
            assert(next.drop_last() =~= chunk_views(pages@.take(i as int)));
            assert(next.last() == page@);
        }
        i = i + 1;
    }
    proof {
        assert(pages@.take(i as int) =~= pages@);
    }
    bytes
}

} // verus!
