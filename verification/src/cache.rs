//! The node's caches: running downloads, running uploads, received chunks and
//! contracts known to be valid.

use crate::crypto::Address;
use crate::models::{DownloadSession, SessionView, UploadFileInfo, UploadView};
use dashmap::DashMap;
use std::collections::HashSet;
use vstd::prelude::*;

verus! {

/// The concurrent map of the `dashmap` crate.
#[verifier::external_type_specification]
#[verifier::external_body]
#[verifier::reject_recursive_types(K)]
#[verifier::reject_recursive_types(V)]
#[verifier::reject_recursive_types(S)]
pub struct ExDashMap<K, V, S>(dashmap::DashMap<K, V, S>);

// ---------------------------------------------------------------------------
// Downloads
// ---------------------------------------------------------------------------

/// Sessions by download key.
pub type SessionMap = Map<Seq<char>, SessionView>;

/// The sessions that a map holds.
pub uninterp spec fn session_entries(m: DashMap<String, DownloadSession>) -> SessionMap;

/// `DashMap::new`: a map without entries.
#[verifier::external_body]
fn sessions_new() -> (m: DashMap<String, DownloadSession>)
    ensures
        session_entries(m) == SessionMap::empty(),
{
    DashMap::new()
}

/// `DashMap::view`: the entry under a key, if any, handed out as a copy.
#[verifier::external_body]
fn sessions_get(m: &DashMap<String, DownloadSession>, key: &str) -> (r: Option<DownloadSession>)
    ensures
        match r {
            Some(session) => session_entries(*m).contains_key(key@) && session@ == session_entries(
                *m,
            )[key@],
            None => !session_entries(*m).contains_key(key@),
        },
{
    m.view(key, |_, value| value.duplicate())
}

/// `DashMap::insert`: puts an entry under a key, in place of any earlier one.
#[verifier::external_body]
fn sessions_insert(m: &mut DashMap<String, DownloadSession>, key: String, session: DownloadSession)
    ensures
        session_entries(*final(m)) == session_entries(*old(m)).insert(key@, session@),
{
    m.insert(key, session);
}

/// `DashMap::remove`: takes the entry under a key, if any, out of the map.
#[verifier::external_body]
fn sessions_remove(m: &mut DashMap<String, DownloadSession>, key: &str) -> (r: Option<
    DownloadSession,
>)
    ensures
        session_entries(*final(m)) == session_entries(*old(m)).remove(key@),
        match r {
            Some(session) => session_entries(*old(m)).contains_key(key@) && session@
                == session_entries(*old(m))[key@],
            None => !session_entries(*old(m)).contains_key(key@),
        },
{
    match m.remove(key) {
        Some((_, session)) => Some(session),
        None => None,
    }
}

/// Whether a row lists every session once, with its key and its birth.
pub open spec fn lists_sessions(row: Seq<(String, u128)>, sessions: SessionMap) -> bool {
    &&& forall|i: int|
        0 <= i < row.len() ==> sessions.contains_key((#[trigger] row[i]).0@) && row[i].1
            == sessions[row[i].0@].created_at
    &&& forall|i: int, j: int|
        0 <= i < j < row.len() ==> (#[trigger] row[i]).0@ != (#[trigger] row[j]).0@
    &&& forall|key: Seq<char>| #[trigger]
        sessions.contains_key(key) ==> exists|i: int|
            0 <= i < row.len() && (#[trigger] row[i]).0@ == key
}

/// `DashMap::iter`: every entry once, in no particular order; each is handed out
/// as its key and the birth of its session.
#[verifier::external_body]
fn sessions_list(m: &DashMap<String, DownloadSession>) -> (row: Vec<(String, u128)>)
    ensures
        lists_sessions(row@, session_entries(*m)),
{
    m.iter().map(|entry| (entry.key().clone(), entry.value().created_at)).collect()
}

// ---------------------------------------------------------------------------
// Uploads
// ---------------------------------------------------------------------------

/// Uploads by file key.
pub type UploadMap = Map<Seq<char>, UploadView>;

/// The uploads that a map holds.
pub uninterp spec fn upload_entries(m: DashMap<String, UploadFileInfo>) -> UploadMap;

/// `DashMap::new`: a map without entries.
#[verifier::external_body]
fn uploads_new() -> (m: DashMap<String, UploadFileInfo>)
    ensures
        upload_entries(m) == UploadMap::empty(),
{
    DashMap::new()
}

/// `DashMap::view`: the entry under a key, if any, handed out as a copy.
#[verifier::external_body]
fn uploads_get(m: &DashMap<String, UploadFileInfo>, key: &str) -> (r: Option<UploadFileInfo>)
    ensures
        match r {
            Some(info) => upload_entries(*m).contains_key(key@) && info@ == upload_entries(
                *m,
            )[key@],
            None => !upload_entries(*m).contains_key(key@),
        },
{
    m.view(key, |_, value| value.duplicate())
}

/// `DashMap::insert`: puts an entry under a key, in place of any earlier one.
#[verifier::external_body]
fn uploads_insert(m: &mut DashMap<String, UploadFileInfo>, key: String, info: UploadFileInfo)
    ensures
        upload_entries(*final(m)) == upload_entries(*old(m)).insert(key@, info@),
{
    m.insert(key, info);
}

/// `DashMap::remove`: takes the entry under a key, if any, out of the map, and
/// says whether there was one.
#[verifier::external_body]
fn uploads_remove(m: &mut DashMap<String, UploadFileInfo>, key: &str) -> (removed: bool)
    ensures
        upload_entries(*final(m)) == upload_entries(*old(m)).remove(key@),
        removed == upload_entries(*old(m)).contains_key(key@),
{
    m.remove(key).is_some()
}

// ---------------------------------------------------------------------------
// Received chunks
// ---------------------------------------------------------------------------

/// The chunk indices received so far, by file key.
pub type ReceivedMap = Map<Seq<char>, Set<u64>>;

/// The chunk indices that a map holds.
pub uninterp spec fn received_entries(m: DashMap<String, HashSet<u64>>) -> ReceivedMap;

/// `DashMap::new`: a map without entries.
#[verifier::external_body]
fn received_new() -> (m: DashMap<String, HashSet<u64>>)
    ensures
        received_entries(m) == ReceivedMap::empty(),
{
    DashMap::new()
}

/// `DashMap::insert`: puts an entry under a key, in place of any earlier one.
#[verifier::external_body]
fn received_insert(m: &mut DashMap<String, HashSet<u64>>, key: String, chunks: HashSet<u64>)
    ensures
        received_entries(*final(m)) == received_entries(*old(m)).insert(key@, chunks@),
{
    m.insert(key, chunks);
}

/// `DashMap::remove`: takes the entry under a key, if any, out of the map.
#[verifier::external_body]
fn received_remove(m: &mut DashMap<String, HashSet<u64>>, key: &str) -> (r: Option<HashSet<u64>>)
    ensures
        received_entries(*final(m)) == received_entries(*old(m)).remove(key@),
        match r {
            Some(chunks) => received_entries(*old(m)).contains_key(key@) && chunks@
                == received_entries(*old(m))[key@],
            None => !received_entries(*old(m)).contains_key(key@),
        },
{
    match m.remove(key) {
        Some((_, chunks)) => Some(chunks),
        None => None,
    }
}

// ---------------------------------------------------------------------------
// Valid contracts
// ---------------------------------------------------------------------------

/// What the registry said of a contract, by its address.
pub type ContractMap = Map<Seq<u8>, bool>;

/// The contracts that a map holds.
pub uninterp spec fn contract_entries(m: DashMap<Address, bool>) -> ContractMap;

/// `DashMap::new`: a map without entries.
#[verifier::external_body]
fn contracts_new() -> (m: DashMap<Address, bool>)
    ensures
        contract_entries(m) == ContractMap::empty(),
{
    DashMap::new()
}

/// `DashMap::get`: the entry under a key, if any, handed out as a copy.
#[verifier::external_body]
fn contracts_get(m: &DashMap<Address, bool>, address: &Address) -> (r: Option<bool>)
    ensures
        match r {
            Some(valid) => contract_entries(*m).contains_key(address@) && valid == contract_entries(
                *m,
            )[address@],
            None => !contract_entries(*m).contains_key(address@),
        },
{
    match m.get(address) {
        Some(entry) => Some(*entry.value()),
        None => None,
    }
}

/// `DashMap::insert`: puts an entry under a key, in place of any earlier one.
#[verifier::external_body]
fn contracts_insert(m: &mut DashMap<Address, bool>, address: Address, valid: bool)
    ensures
        contract_entries(*final(m)) == contract_entries(*old(m)).insert(address@, valid),
{
    m.insert(address, valid);
}

// ---------------------------------------------------------------------------
// All together
// ---------------------------------------------------------------------------

/// Everything that the node keeps in memory.
pub struct Caches {
    download_cache: DashMap<String, DownloadSession>,
    upload_file_cache: DashMap<String, UploadFileInfo>,
    chunk_tracker: DashMap<String, HashSet<u64>>,
    valid_contracts_cache: DashMap<Address, bool>,
}

/// The contents of the caches.
#[verifier::ext_equal]
pub struct CachesView {
    pub sessions: SessionMap,
    pub uploads: UploadMap,
    pub received: ReceivedMap,
    pub contracts: ContractMap,
}

impl View for Caches {
    type V = CachesView;

    closed spec fn view(&self) -> CachesView {
        CachesView {
            sessions: session_entries(self.download_cache),
            uploads: upload_entries(self.upload_file_cache),
            received: received_entries(self.chunk_tracker),
            contracts: contract_entries(self.valid_contracts_cache),
        }
    }
}

/// The entry under a key, if any.
pub open spec fn lookup<K, V>(m: Map<K, V>, key: K) -> Option<V> {
    if m.contains_key(key) {
        Some(m[key])
    } else {
        None
    }
}

impl Caches {
    /// Caches without any entry.
    pub fn new() -> (caches: Caches)
        ensures
            caches@.sessions == SessionMap::empty(),
            caches@.uploads == UploadMap::empty(),
            caches@.received == ReceivedMap::empty(),
            caches@.contracts == ContractMap::empty(),
    {
        Caches {
            download_cache: sessions_new(),
            upload_file_cache: uploads_new(),
            chunk_tracker: received_new(),
            valid_contracts_cache: contracts_new(),
        }
    }

    /// A copy of the session under a download key.
    pub fn session(&self, download_key: &str) -> (r: Option<DownloadSession>)
        ensures
            match r {
                Some(s) => lookup(self@.sessions, download_key@) == Some(s@),
                None => lookup(self@.sessions, download_key@) is None,
            },
    {
        sessions_get(&self.download_cache, download_key)
    }

    /// Puts a session under a download key.
    pub fn put_session(&mut self, download_key: String, session: DownloadSession)
        ensures
            final(self)@ == (CachesView {
                sessions: old(self)@.sessions.insert(download_key@, session@),
                ..old(self)@
            }),
    {
        sessions_insert(&mut self.download_cache, download_key, session);
    }

    /// Takes the session under a download key out.
    pub fn take_session(&mut self, download_key: &str) -> (r: Option<DownloadSession>)
        ensures
            final(self)@ == (CachesView {
                sessions: old(self)@.sessions.remove(download_key@),
                ..old(self)@
            }),
            match r {
                Some(s) => lookup(old(self)@.sessions, download_key@) == Some(s@),
                None => lookup(old(self)@.sessions, download_key@) is None,
            },
    {
        sessions_remove(&mut self.download_cache, download_key)
    }

    /// Every session's key and birth, in no particular order.
    pub fn list_sessions(&self) -> (row: Vec<(String, u128)>)
        ensures
            lists_sessions(row@, self@.sessions),
    {
        sessions_list(&self.download_cache)
    }

    /// A copy of the upload under a file key.
    pub fn upload(&self, file_key: &str) -> (r: Option<UploadFileInfo>)
        ensures
            match r {
                Some(u) => lookup(self@.uploads, file_key@) == Some(u@),
                None => lookup(self@.uploads, file_key@) is None,
            },
    {
        uploads_get(&self.upload_file_cache, file_key)
    }

    /// Puts an upload under a file key.
    pub fn put_upload(&mut self, file_key: String, info: UploadFileInfo)
        ensures
            final(self)@ == (CachesView {
                uploads: old(self)@.uploads.insert(file_key@, info@),
                ..old(self)@
            }),
    {
        uploads_insert(&mut self.upload_file_cache, file_key, info);
    }

    /// Forgets the upload under a file key, and says whether there was one.
    pub fn forget_upload(&mut self, file_key: &str) -> (removed: bool)
        ensures
            final(self)@ == (CachesView {
                uploads: old(self)@.uploads.remove(file_key@),
                ..old(self)@
            }),
            removed == old(self)@.uploads.contains_key(file_key@),
    {
        uploads_remove(&mut self.upload_file_cache, file_key)
    }

    /// Puts the received chunks of a file.
    pub fn put_received(&mut self, file_key: String, chunks: HashSet<u64>)
        ensures
            final(self)@ == (CachesView {
                received: old(self)@.received.insert(file_key@, chunks@),
                ..old(self)@
            }),
    {
        received_insert(&mut self.chunk_tracker, file_key, chunks);
    }

    /// Takes the received chunks of a file out.
    pub fn take_received(&mut self, file_key: &str) -> (r: Option<HashSet<u64>>)
        ensures
            final(self)@ == (CachesView {
                received: old(self)@.received.remove(file_key@),
                ..old(self)@
            }),
            match r {
                Some(chunks) => lookup(old(self)@.received, file_key@) == Some(chunks@),
                None => lookup(old(self)@.received, file_key@) is None,
            },
    {
        received_remove(&mut self.chunk_tracker, file_key)
    }

    /// What is known of a contract.
    pub fn contract(&self, address: &Address) -> (r: Option<bool>)
        ensures
            r == lookup(self@.contracts, address@),
    {
        contracts_get(&self.valid_contracts_cache, address)
    }

    /// Notes what is known of a contract.
    pub fn put_contract(&mut self, address: Address, valid: bool)
        ensures
            final(self)@ == (CachesView {
                contracts: old(self)@.contracts.insert(address@, valid),
                ..old(self)@
            }),
    {
        contracts_insert(&mut self.valid_contracts_cache, address, valid);
    }
}

} // verus!
