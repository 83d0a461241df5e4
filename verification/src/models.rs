//! What clients and the node exchange, and what the node keeps in memory.

use crate::crypto::Address;
use vstd::prelude::*;

verus! {

/// The size of a chunk, in bytes.
pub const CHUNK_SIZE: u64 = 1_048_576;

// ---------------------------------------------------------------------------
// Requests
// ---------------------------------------------------------------------------

/// A request on the QUIC side.
#[derive(Debug)]
#[allow(inconsistent_fields)]
pub enum Command {
    UploadChunk { payload: UploadChunkPayload },
    DownloadChunkRequest { payload: DownloadChunkPayload },
    ListChunksRequest { payload: ListChunksPayload },
    /// Asks which log files there are.
    GetLogList { payload: Option<()> },
    /// Asks for the content of one log file.
    GetLogContent { payload: GetLogContentPayload },
}

/// Announces a chunk and proves that it belongs to a file.
#[derive(Debug)]
pub struct UploadChunkPayload {
    pub file_key: String,
    pub chunk_index: u64,
    pub signature: String,
    /// The sibling hashes from the leaf upwards, in hex.
    pub merkle_proof_hashes: Vec<String>,
    /// The root of the file's tree, in hex.
    pub merkle_root: String,
}

/// Asks for a chunk under a download key.
#[derive(Debug)]
pub struct DownloadChunkPayload {
    pub file_key: String,
    pub download_key: String,
    pub chunk_index: u64,
    pub signature: String,
}

/// Asks which chunks of a file the node holds.
#[derive(Debug)]
pub struct ListChunksPayload {
    pub file_key: String,
}

/// Names a log file.
#[derive(Debug)]
pub struct GetLogContentPayload {
    pub file_name: String,
}

// ---------------------------------------------------------------------------
// Responses
// ---------------------------------------------------------------------------

/// A bare outcome.
#[derive(Debug)]
pub struct GenericResponse {
    pub status: String,
    pub message: String,
}

/// The outcome of a chunk request.
#[derive(Debug)]
pub struct DownloadResponse {
    pub status: String,
    pub message: String,
}

/// The chunks of a file that the node holds.
#[derive(Debug)]
pub struct ListChunksResponse {
    pub status: String,
    pub message: String,
    pub chunk_indices: Vec<u64>,
}

/// The log files there are.
#[derive(Debug)]
pub struct LogsListResponse {
    pub status: String,
    pub message: String,
    pub available_files: Vec<String>,
}

/// One log file.
#[derive(Debug)]
pub struct LogFileContent {
    pub file_name: String,
    pub content: String,
}

/// The log file that was asked for.
#[derive(Debug)]
pub struct LogsContentResponse {
    pub status: String,
    pub message: String,
    pub log_content: Option<LogFileContent>,
}

// ---------------------------------------------------------------------------
// State
// ---------------------------------------------------------------------------

/// The network address of a client.
#[derive(Clone, Copy, PartialEq, Eq, Structural, Debug)]
pub enum IpAddr {
    V4(u32),
    V6(u128),
}

/// A running download. Instants are nanoseconds on the node's monotonic clock.
#[derive(Debug)]
pub struct DownloadSession {
    pub download_key: String,
    pub file_key: String,
    pub file_owner: Address,
    pub remaining_chunks: u64,
    pub total_chunks: u64,
    pub first_ip: IpAddr,
    pub retry_remaining: u64,
    pub confirmed_at: Option<u128>,
    /// The signature that was accepted first.
    pub verified_signature: Option<String>,
    pub is_public: bool,
    pub whitelist: Vec<Address>,
    pub created_at: u128,
}

/// A download session as plain values.
#[verifier::ext_equal]
pub struct SessionView {
    pub download_key: Seq<char>,
    pub file_key: Seq<char>,
    pub file_owner: Seq<u8>,
    pub remaining_chunks: u64,
    pub total_chunks: u64,
    pub first_ip: IpAddr,
    pub retry_remaining: u64,
    pub confirmed_at: Option<u128>,
    pub verified_signature: Option<Seq<char>>,
    pub is_public: bool,
    pub whitelist: Seq<Seq<u8>>,
    pub created_at: u128,
}

/// An optional string by its characters.
pub open spec fn opt_text(s: Option<String>) -> Option<Seq<char>> {
    match s {
        Some(t) => Some(t@),
        None => None,
    }
}

/// Addresses by their bytes.
pub open spec fn addresses(row: Seq<Address>) -> Seq<Seq<u8>> {
    row.map_values(|a: Address| a@)
}

impl View for DownloadSession {
    type V = SessionView;

    open spec fn view(&self) -> SessionView {
        SessionView {
            download_key: self.download_key@,
            file_key: self.file_key@,
            file_owner: self.file_owner@,
            remaining_chunks: self.remaining_chunks,
            total_chunks: self.total_chunks,
            first_ip: self.first_ip,
            retry_remaining: self.retry_remaining,
            confirmed_at: self.confirmed_at,
            verified_signature: opt_text(self.verified_signature),
            is_public: self.is_public,
            whitelist: addresses(self.whitelist@),
            created_at: self.created_at,
        }
    }
}

/// A copy of a row of addresses.
pub fn copy_addresses(row: &Vec<Address>) -> (copy: Vec<Address>)
    ensures
        copy@ == row@,
{
    let mut copy: Vec<Address> = Vec::new();
    let mut i: usize = 0;
    while i < row.len()
        invariant
            i <= row@.len(),
            copy@ == row@.take(i as int),
        decreases row@.len() - i,
    {
        copy.push(row[i]);
        i = i + 1;
        assert(row@.take(i as int) == row@.take(i - 1).push(row@[i - 1]));
    }
    assert(row@.take(row@.len() as int) == row@);
    copy
}

impl DownloadSession {
    /// A second session with the same contents.
    pub fn duplicate(&self) -> (copy: DownloadSession)
        ensures
            copy@ == self@,
    {
        DownloadSession {
            download_key: self.download_key.clone(),
            file_key: self.file_key.clone(),
            file_owner: self.file_owner,
            remaining_chunks: self.remaining_chunks,
            total_chunks: self.total_chunks,
            first_ip: self.first_ip,
            retry_remaining: self.retry_remaining,
            confirmed_at: self.confirmed_at,
            verified_signature: match &self.verified_signature {
                Some(s) => Some(s.clone()),
                None => None,
            },
            is_public: self.is_public,
            whitelist: copy_addresses(&self.whitelist),
            created_at: self.created_at,
        }
    }
}

/// What is known of a file while it is uploaded.
#[derive(Debug)]
pub struct UploadFileInfo {
    pub verified_address: Address,
    pub merkle_root: String,
    pub total_chunks: u64,
}

/// An upload as plain values.
#[verifier::ext_equal]
pub struct UploadView {
    pub verified_address: Seq<u8>,
    pub merkle_root: Seq<char>,
    pub total_chunks: u64,
}

impl View for UploadFileInfo {
    type V = UploadView;

    open spec fn view(&self) -> UploadView {
        UploadView {
            verified_address: self.verified_address@,
            merkle_root: self.merkle_root@,
            total_chunks: self.total_chunks,
        }
    }
}

impl UploadFileInfo {
    /// A second record with the same contents.
    pub fn duplicate(&self) -> (copy: UploadFileInfo)
        ensures
            copy@ == self@,
    {
        UploadFileInfo {
            verified_address: self.verified_address,
            merkle_root: self.merkle_root.clone(),
            total_chunks: self.total_chunks,
        }
    }
}

/// A session is seen as it is: every field by its own plain value.
pub proof fn law_session_is_seen_whole(session: DownloadSession)
    ensures
        session@.download_key == session.download_key@,
        session@.file_key == session.file_key@,
        session@.file_owner == session.file_owner@,
        session@.remaining_chunks == session.remaining_chunks,
        session@.total_chunks == session.total_chunks,
        session@.first_ip == session.first_ip,
        session@.retry_remaining == session.retry_remaining,
        session@.confirmed_at == session.confirmed_at,
        session.verified_signature is None <==> session@.verified_signature is None,
        session.verified_signature matches Some(s) ==> session@.verified_signature == Some(s@),
        session@.is_public == session.is_public,
        session@.whitelist.len() == session.whitelist@.len(),
        forall|i: int|
            0 <= i < session.whitelist@.len() ==> #[trigger] session@.whitelist[i]
                == session.whitelist@[i]@,
        session@.created_at == session.created_at,
{
}

/// An upload is seen as it is: every field by its own plain value.
pub proof fn law_upload_is_seen_whole(info: UploadFileInfo)
    ensures
        info@.verified_address == info.verified_address@,
        info@.merkle_root == info.merkle_root@,
        info@.total_chunks == info.total_chunks,
{
}

/// A chunk is a mebibyte.
pub proof fn law_chunk_is_a_mebibyte()
    ensures
        CHUNK_SIZE == 1024 * 1024,
{
}

} // verus!
