//! Download sessions: how they start, and how they are used up.

use crate::cache::{lookup, Caches, CachesView, SessionMap};
use crate::crypto::{
    hex_bytes, hex_decode, hex_encode, hex_error, hex_text, is_hex, law_hex_round_trip, Address,
    Key32,
};
use crate::models::{addresses, DownloadSession, IpAddr, SessionView, CHUNK_SIZE};
use crate::storage::{get_file_key_path, join_path, joined, key_path, lemma_ascii_levels};
use crate::text::{decimal, decimal_text, join_text, strip_0x, without_0x};
use vstd::prelude::*;
use vstd::string::*;
use vstd::utf8::*;

verus! {

/// A second, in nanoseconds.
pub const NANOS_PER_SEC: u128 = 1_000_000_000;

// ---------------------------------------------------------------------------
// What the chain tells
// ---------------------------------------------------------------------------

/// Where a file stands in its life.
#[derive(Clone, Copy, PartialEq, Eq, Structural, Debug)]
pub enum FileStatus {
    Processing,
    Active,
    Deactive,
    Deleted,
}

/// A download as the chain knows it.
#[derive(Clone, Copy, Debug)]
pub struct ChainSession {
    pub file_key: Key32,
    pub is_confirmed: bool,
}

/// A file as the chain knows it.
#[derive(Clone, Copy, Debug)]
pub struct ChainFile {
    pub owner: Address,
    pub expire_time: u64,
    pub status: FileStatus,
}

/// Whether a key is all zeros: the chain's way to say that there is none.
pub open spec fn is_zero_key(key: Seq<u8>) -> bool {
    forall|i: int| 0 <= i < key.len() ==> #[trigger] key[i] == 0
}

fn zero_key(key: &Key32) -> (zero: bool)
    ensures
        zero == is_zero_key(key@),
{
    let mut i: usize = 0;
    while i < 32
        invariant
            i <= 32,
            forall|j: int| 0 <= j < i ==> #[trigger] key@[j] == 0,
        decreases 32 - i,
    {
        if key[i] != 0 {
            assert(key@[i as int] != 0);
            return false;
        }
        i = i + 1;
    }
    true
}

// ---------------------------------------------------------------------------
// Opening a session
// ---------------------------------------------------------------------------

/// The thirty-two bytes that a download key writes, or why it writes none.
pub open spec fn key_bytes(download_key: Seq<char>) -> Result<Seq<u8>, Seq<char>> {
    let digits = encode_utf8(without_0x(download_key));
    if !is_hex(digits) {
        Err("Invalid download key hex: "@ + hex_error(digits))
    } else if digits.len() != 64 {
        Err(
            "Invalid download key length: expected 32 bytes, got "@ + decimal(digits.len() / 2)
                + " bytes"@,
        )
    } else {
        Ok(hex_bytes(digits))
    }
}

/// Thirty-two bytes as an array.
pub fn to_key(bytes: &Vec<u8>) -> (key: Key32)
    requires
        bytes@.len() == 32,
    ensures
        key@ == bytes@,
{
    let mut key: Key32 = [0u8; 32];
    let mut i: usize = 0;
    while i < 32
        invariant
            i <= 32,
            bytes@.len() == 32,
            forall|j: int| 0 <= j < i ==> key@[j] == bytes@[j],
        decreases 32 - i,
    {
        key[i] = bytes[i];
        i = i + 1;
    }
    assert(key@ =~= bytes@);
    key
}

/// Reads a download key.
pub fn decode_download_key(download_key: &str) -> (r: Result<Key32, String>)
    ensures
        match r {
            Ok(key) => key_bytes(download_key@) == Ok::<Seq<u8>, Seq<char>>(key@),
            Err(e) => key_bytes(download_key@) == Err::<Seq<u8>, Seq<char>>(e@),
        },
{
    let digits = strip_0x(download_key);
    match hex_decode(digits.as_str()) {
        Err(e) => Err(join_text("Invalid download key hex: ", e.as_str())),
        Ok(bytes) => {
            if bytes.len() != 32 {
                let mut message = join_text(
                    "Invalid download key length: expected 32 bytes, got ",
                    decimal_text(bytes.len() as u64).as_str(),
                );
                message.append(" bytes");
                Err(message)
            } else {
                Ok(to_key(&bytes))
            }
        },
    }
}

/// Whether a session is over: it was confirmed longer ago than it may be kept.
pub open spec fn timed_out(session: SessionView, now: u128, timeout_secs: u64) -> bool {
    match session.confirmed_at {
        Some(at) => now - at > timeout_secs * NANOS_PER_SEC,
        None => false,
    }
}

/// The sessions after the one under a key was dropped if it is over.
pub open spec fn without_stale(
    sessions: SessionMap,
    download_key: Seq<char>,
    now: u128,
    timeout_secs: u64,
) -> SessionMap {
    if sessions.contains_key(download_key) && timed_out(sessions[download_key], now, timeout_secs) {
        sessions.remove(download_key)
    } else {
        sessions
    }
}

/// A session as it starts.
pub open spec fn fresh_session(
    download_key: Seq<char>,
    file_key: Seq<u8>,
    owner: Seq<u8>,
    chunk_count: u64,
    first_ip: IpAddr,
    is_public: bool,
    whitelist: Seq<Seq<u8>>,
    now: u128,
) -> SessionView {
    SessionView {
        download_key,
        file_key: hex_text(file_key),
        file_owner: owner,
        remaining_chunks: chunk_count,
        total_chunks: chunk_count,
        first_ip,
        retry_remaining: (chunk_count * 3) as u64,
        confirmed_at: None,
        verified_signature: None,
        is_public,
        whitelist,
        created_at: now,
    }
}

/// How far the opening of a session has come.
#[derive(Clone, Copy, Debug)]
pub enum InitState {
    Start,
    AwaitLock,
    AwaitContract { key: Key32 },
    AwaitSession,
    AwaitFile { file_key: Key32 },
    AwaitCount { file_key: Key32, owner: Address },
    AwaitPublic { file_key: Key32, owner: Address, chunk_count: u64 },
    AwaitWhitelist { file_key: Key32, owner: Address, chunk_count: u64, is_public: bool },
    Finished,
}

/// What happened while a session is opened.
#[derive(Debug)]
pub enum InitEvent {
    /// A request wants the session.
    Begin { now: u128 },
    /// This request alone may open the session.
    Locked,
    /// The contract is at hand, or is not.
    ContractOpened(Result<(), String>),
    /// The chain's answer on the download key.
    SessionFetched(Result<ChainSession, String>),
    /// The chain's answer on the file, and the time in seconds since the epoch.
    FileFetched(Result<ChainFile, String>, Result<u64, String>),
    /// How many chunks lie on disk.
    ChunksCounted(Result<u64, String>),
    /// Whether everybody may download the file.
    PublicChecked(Result<bool, String>),
    /// Who else may download the file.
    WhitelistFetched { reply: Result<Vec<Address>, String>, now: u128 },
}

/// What to do next while a session is opened.
#[derive(Debug)]
pub enum InitAction {
    /// Wait until this request alone may open the session.
    Lock,
    OpenContract,
    FetchSession { key: Key32 },
    FetchFile { file_key: Key32 },
    CountChunks { path: String },
    CheckPublic { file_key: Key32 },
    FetchWhitelist { file_key: Key32 },
    /// The session is there; the lock may be forgotten if it was opened just now.
    Ready { session: DownloadSession, forget_lock: bool },
    Fail(String),
    /// The event does not belong here; nothing changes.
    Ignore,
}

/// Whether a step ends in the given refusal.
pub open spec fn init_fails(next: InitState, action: InitAction, message: Seq<char>) -> bool {
    &&& next is Finished
    &&& action matches InitAction::Fail(e)
    &&& e@ == message
}

/// Whether a step ends with a session at hand.
pub open spec fn init_ready(
    next: InitState,
    action: InitAction,
    session: SessionView,
    forget: bool,
) -> bool {
    &&& next is Finished
    &&& action matches InitAction::Ready { session: s, forget_lock }
    &&& s@ == session
    &&& forget_lock == forget
}

/// What a download asks for.
pub struct InitRequest {
    pub download_key: Seq<char>,
    pub ip: IpAddr,
    pub storage_root: Seq<char>,
    pub timeout_secs: u64,
}

/// One step in the opening of a session: what becomes of the sessions, and what
/// is done next.
pub open spec fn init_step(
    request: InitRequest,
    state: InitState,
    event: InitEvent,
    before: SessionMap,
    after: SessionMap,
    next: InitState,
    action: InitAction,
) -> bool {
    let key = request.download_key;
    match (state, event) {
        (InitState::Start, InitEvent::Begin { now }) => {
            &&& after == without_stale(before, key, now, request.timeout_secs)
            &&& match lookup(after, key) {
                Some(session) => init_ready(next, action, session, false),
                None => next is AwaitLock && action is Lock,
            }
        },
        (InitState::AwaitLock, InitEvent::Locked) => {
            &&& after == before
            &&& match lookup(before, key) {
                Some(session) => init_ready(next, action, session, false),
                None => match key_bytes(key) {
                    Err(e) => init_fails(next, action, e),
                    Ok(bytes) => {
                        &&& next matches InitState::AwaitContract { key: k } && k@ == bytes
                        &&& action is OpenContract
                    },
                },
            }
        },
        (InitState::AwaitContract { key: bytes }, InitEvent::ContractOpened(reply)) => {
            &&& after == before
            &&& match reply {
                Err(e) => init_fails(next, action, "Failed to create contract instance: "@ + e@),
                Ok(_) => next is AwaitSession && action == (InitAction::FetchSession {
                    key: bytes,
                }),
            }
        },
        (InitState::AwaitSession, InitEvent::SessionFetched(reply)) => {
            &&& after == before
            &&& match reply {
                Err(e) => init_fails(
                    next,
                    action,
                    "Failed to get download session info: "@ + e@,
                ),
                Ok(info) => if is_zero_key(info.file_key@) {
                    init_fails(next, action, "Download key '"@ + key + "' not found on-chain"@)
                } else if info.is_confirmed {
                    init_fails(next, action, "Download key '"@ + key + "' has expired"@)
                } else {
                    &&& next == (InitState::AwaitFile { file_key: info.file_key })
                    &&& action == (InitAction::FetchFile { file_key: info.file_key })
                },
            }
        },
        (InitState::AwaitFile { file_key }, InitEvent::FileFetched(reply, clock)) => {
            &&& after == before
            &&& match (reply, clock) {
                (Err(e), _) => init_fails(next, action, "Failed to fetch file info: "@ + e@),
                (Ok(_), Err(e)) => init_fails(next, action, "System time error: "@ + e@),
                (Ok(file), Ok(secs)) => if file.expire_time <= secs {
                    init_fails(next, action, "Download key has expired"@)
                } else if file.status is Deleted {
                    init_fails(next, action, "File  has been deleted"@)
                } else {
                    &&& next == (InitState::AwaitCount { file_key, owner: file.owner })
                    &&& action matches InitAction::CountChunks { path } && path@ == key_path(
                        request.storage_root,
                        hex_text(file_key@),
                    )
                },
            }
        },
        (InitState::AwaitCount { file_key, owner }, InitEvent::ChunksCounted(reply)) => {
            &&& after == before
            &&& match reply {
                Err(e) => init_fails(next, action, "Failed to count chunks: "@ + e@),
                Ok(chunk_count) => {
                    &&& next == (InitState::AwaitPublic { file_key, owner, chunk_count })
                    &&& action == (InitAction::CheckPublic { file_key })
                },
            }
        },
        (
            InitState::AwaitPublic { file_key, owner, chunk_count },
            InitEvent::PublicChecked(reply),
        ) => {
            &&& after == before
            &&& match reply {
                Err(e) => init_fails(next, action, "Failed to check if file is public: "@ + e@),
                Ok(is_public) => {
                    &&& next == (InitState::AwaitWhitelist {
                        file_key,
                        owner,
                        chunk_count,
                        is_public,
                    })
                    &&& action == (InitAction::FetchWhitelist { file_key })
                },
            }
        },
        (
            InitState::AwaitWhitelist { file_key, owner, chunk_count, is_public },
            InitEvent::WhitelistFetched { reply, now },
        ) => match reply {
            Err(e) => after == before && init_fails(
                next,
                action,
                "Failed to get whitelist: "@ + e@,
            ),
            Ok(whitelist) => {
                let session = fresh_session(
                    key,
                    file_key@,
                    owner@,
                    chunk_count,
                    request.ip,
                    is_public,
                    addresses(whitelist@),
                    now,
                );
                after == before.insert(key, session) && init_ready(next, action, session, true)
            },
        },
        _ => after == before && next == state && action is Ignore,
    }
}

fn fail(message: String) -> (r: (InitState, InitAction))
    ensures
        init_fails(r.0, r.1, message@),
{
    (InitState::Finished, InitAction::Fail(message))
}

fn fail_with(front: &str, e: &String) -> (r: (InitState, InitAction))
    ensures
        init_fails(r.0, r.1, front@ + e@),
{
    fail(join_text(front, e.as_str()))
}

fn quote_key(download_key: &str, rest: &str) -> (message: String)
    ensures
        message@ == "Download key '"@ + download_key@ + rest@,
{
    let mut message = join_text("Download key '", download_key);
    message.append(rest);
    message
}

/// The directory of a file named by its key's bytes.
pub fn file_dir(storage_root: &str, file_key: &Key32) -> (path: String)
    ensures
        path@ == key_path(storage_root@, hex_text(file_key@)),
{
    let text = hex_encode(file_key.as_slice());
    proof {
        law_hex_round_trip(file_key@);
        lemma_ascii_levels(text@);
    }
    get_file_key_path(storage_root, text.as_str())
}

/// Goes one step in the opening of a session.
pub fn initialize_download_session(
    caches: &mut Caches,
    download_key: &str,
    request_ip: IpAddr,
    storage_root: &str,
    session_timeout_seconds: u64,
    state: InitState,
    event: InitEvent,
) -> (r: (InitState, InitAction))
    requires
        state matches InitState::AwaitWhitelist { chunk_count, .. } ==> chunk_count * 3 <= u64::MAX,
    ensures
        init_step(
            InitRequest {
                download_key: download_key@,
                ip: request_ip,
                storage_root: storage_root@,
                timeout_secs: session_timeout_seconds,
            },
            state,
            event,
            old(caches)@.sessions,
            final(caches)@.sessions,
            r.0,
            r.1,
        ),
        final(caches)@ == (CachesView { sessions: final(caches)@.sessions, ..old(caches)@ }),
{
    match (state, event) {
        (InitState::Start, InitEvent::Begin { now }) => {
            let mut stale = false;
            match caches.session(download_key) {
                Some(session) => {
                    if let Some(at) = session.confirmed_at {
                        let limit: u128 = (session_timeout_seconds as u128) * NANOS_PER_SEC;
                        if now > at && now - at > limit {
                            stale = true;
                        }
                    }
                },
                None => {},
            }
            if stale {
                let _ = caches.take_session(download_key);
            }
            match caches.session(download_key) {
                Some(session) => (
                    InitState::Finished,
                    InitAction::Ready { session, forget_lock: false },
                ),
                None => (InitState::AwaitLock, InitAction::Lock),
            }
        },
        (InitState::AwaitLock, InitEvent::Locked) => {
            match caches.session(download_key) {
                Some(session) => (
                    InitState::Finished,
                    InitAction::Ready { session, forget_lock: false },
                ),
                None => match decode_download_key(download_key) {
                    Err(e) => fail(e),
                    Ok(key) => (InitState::AwaitContract { key }, InitAction::OpenContract),
                },
            }
        },
        (InitState::AwaitContract { key }, InitEvent::ContractOpened(reply)) => {
            match &reply {
                Err(e) => fail_with("Failed to create contract instance: ", e),
                Ok(_) => (InitState::AwaitSession, InitAction::FetchSession { key }),
            }
        },
        (InitState::AwaitSession, InitEvent::SessionFetched(reply)) => {
            match &reply {
                Err(e) => fail_with("Failed to get download session info: ", e),
                Ok(info) => {
                    if zero_key(&info.file_key) {
                        fail(quote_key(download_key, "' not found on-chain"))
                    } else if info.is_confirmed {
                        fail(quote_key(download_key, "' has expired"))
                    } else {
                        (
                            InitState::AwaitFile { file_key: info.file_key },
                            InitAction::FetchFile { file_key: info.file_key },
                        )
                    }
                },
            }
        },
        (InitState::AwaitFile { file_key }, InitEvent::FileFetched(reply, clock)) => {
            match (&reply, &clock) {
                (Err(e), _) => fail_with("Failed to fetch file info: ", e),
                (Ok(_), Err(e)) => fail_with("System time error: ", e),
                (Ok(file), Ok(secs)) => {
                    if file.expire_time <= *secs {
                        fail("Download key has expired".to_owned())
                    } else if file.status == FileStatus::Deleted {
                        fail("File  has been deleted".to_owned())
                    } else {
                        (
                            InitState::AwaitCount { file_key, owner: file.owner },
                            InitAction::CountChunks { path: file_dir(storage_root, &file_key) },
                        )
                    }
                },
            }
        },
        (InitState::AwaitCount { file_key, owner }, InitEvent::ChunksCounted(reply)) => {
            match &reply {
                Err(e) => fail_with("Failed to count chunks: ", e),
                Ok(chunk_count) => (
                    InitState::AwaitPublic { file_key, owner, chunk_count: *chunk_count },
                    InitAction::CheckPublic { file_key },
                ),
            }
        },
        (
            InitState::AwaitPublic { file_key, owner, chunk_count },
            InitEvent::PublicChecked(reply),
        ) => {
            match &reply {
                Err(e) => fail_with("Failed to check if file is public: ", e),
                Ok(is_public) => (
                    InitState::AwaitWhitelist {
                        file_key,
                        owner,
                        chunk_count,
                        is_public: *is_public,
                    },
                    InitAction::FetchWhitelist { file_key },
                ),
            }
        },
        (
            InitState::AwaitWhitelist { file_key, owner, chunk_count, is_public },
            InitEvent::WhitelistFetched { reply, now },
        ) => {
            match reply {
                Err(e) => fail_with("Failed to get whitelist: ", &e),
                Ok(whitelist) => {
                    let session = DownloadSession {
                        download_key: download_key.to_owned(),
                        file_key: hex_encode(file_key.as_slice()),
                        file_owner: owner,
                        remaining_chunks: chunk_count,
                        total_chunks: chunk_count,
                        first_ip: request_ip,
                        retry_remaining: chunk_count * 3,
                        confirmed_at: None,
                        verified_signature: None,
                        is_public,
                        whitelist,
                        created_at: now,
                    };
                    let copy = session.duplicate();
                    caches.put_session(download_key.to_owned(), session);
                    (InitState::Finished, InitAction::Ready { session: copy, forget_lock: true })
                },
            }
        },
        _ => (state, InitAction::Ignore),
    }
}

/// A session that was confirmed too long ago is gone when it is next asked for,
/// and has to be opened again.
pub proof fn law_stale_session_is_dropped(
    request: InitRequest,
    now: u128,
    before: SessionMap,
    after: SessionMap,
    next: InitState,
    action: InitAction,
)
    requires
        init_step(
            request,
            InitState::Start,
            InitEvent::Begin { now },
            before,
            after,
            next,
            action,
        ),
        lookup(before, request.download_key) matches Some(session) && timed_out(
            session,
            now,
            request.timeout_secs,
        ),
    ensures
        after == before.remove(request.download_key),
        next is AwaitLock && action is Lock,
{
}

/// One step that was taken. Other requests may change the sessions in between.
pub struct InitStep {
    pub state: InitState,
    pub event: InitEvent,
    pub before: SessionMap,
    pub after: SessionMap,
    pub next: InitState,
    pub action: InitAction,
}

/// Whether a row of steps is a run of the opening for a request.
pub open spec fn init_run(request: InitRequest, run: Seq<InitStep>) -> bool {
    &&& forall|i: int|
        0 <= i < run.len() ==> {
            let step = #[trigger] run[i];
            init_step(
                request,
                step.state,
                step.event,
                step.before,
                step.after,
                step.next,
                step.action,
            )
        }
    &&& run.len() > 0 ==> run[0].state is Start
    &&& forall|i: int, j: int|
        0 <= i < run.len() && j == i + 1 && j < run.len() ==> (#[trigger] run[j]).state == (
        #[trigger] run[i]).next
}

/// Whether the chain named the file of the download, and the download was open.
pub open spec fn names_file(step: InitStep, file_key: Key32) -> bool {
    &&& step.event matches InitEvent::SessionFetched(Ok(info))
    &&& info.file_key == file_key
    &&& !is_zero_key(info.file_key@)
    &&& !info.is_confirmed
}

/// Whether the chain named the owner of the file, and the file was alive.
pub open spec fn names_owner(step: InitStep, owner: Address) -> bool {
    &&& step.event matches InitEvent::FileFetched(Ok(file), Ok(secs))
    &&& file.owner == owner
    &&& file.expire_time > secs
    &&& !(file.status is Deleted)
}

/// Whether the disk told how many chunks there are.
pub open spec fn tells_count(step: InitStep, chunk_count: u64) -> bool {
    step.event == InitEvent::ChunksCounted(Ok(chunk_count))
}

/// Whether some step up to the given one has named this file and this owner.
pub open spec fn named(run: Seq<InitStep>, upto: int, file_key: Key32, owner: Address) -> bool {
    &&& exists|i: int| 0 <= i <= upto && names_file(#[trigger] run[i], file_key)
    &&& exists|i: int| 0 <= i <= upto && names_owner(#[trigger] run[i], owner)
}

/// Whether what a state holds was told in the steps up to the given one.
pub open spec fn grounded(run: Seq<InitStep>, upto: int, state: InitState) -> bool {
    match state {
        InitState::AwaitFile { file_key } => exists|i: int|
            0 <= i <= upto && names_file(#[trigger] run[i], file_key),
        InitState::AwaitCount { file_key, owner } => named(run, upto, file_key, owner),
        InitState::AwaitPublic { file_key, owner, chunk_count } => named(
            run,
            upto,
            file_key,
            owner,
        ) && exists|i: int| 0 <= i <= upto && tells_count(#[trigger] run[i], chunk_count),
        InitState::AwaitWhitelist { file_key, owner, chunk_count, .. } => named(
            run,
            upto,
            file_key,
            owner,
        ) && exists|i: int| 0 <= i <= upto && tells_count(#[trigger] run[i], chunk_count),
        _ => true,
    }
}

proof fn lemma_grounded(request: InitRequest, run: Seq<InitStep>, n: int)
    requires
        init_run(request, run),
        0 <= n < run.len(),
    ensures
        grounded(run, n, run[n].next),
        n > 0 ==> grounded(run, n - 1, run[n].state),
    decreases n,
{
    let step = run[n];
    if n > 0 {
        lemma_grounded(request, run, n - 1);
        assert(step.state == run[n - 1].next);
    }
    assert(grounded(run, n, step.state));
    match (step.state, step.event) {
        (InitState::AwaitSession, InitEvent::SessionFetched(reply)) => {
            if let InitState::AwaitFile { file_key } = step.next {
                assert(names_file(run[n], file_key));
            }
        },
        (InitState::AwaitFile { file_key }, InitEvent::FileFetched(reply, clock)) => {
            if let InitState::AwaitCount { file_key: k, owner } = step.next {
                assert(names_owner(run[n], owner));
            }
        },
        (InitState::AwaitCount { file_key, owner }, InitEvent::ChunksCounted(reply)) => {
            if let InitState::AwaitPublic { chunk_count, .. } = step.next {
                assert(tells_count(run[n], chunk_count));
            }
        },
        _ => {},
    }
}

/// A session is opened only after the chain has named its file as that of an
/// open download, and the file's owner as that of a file that has neither
/// expired nor been deleted, and with as many chunks as were found on disk.
pub proof fn law_session_is_grounded(request: InitRequest, run: Seq<InitStep>, n: int)
    requires
        init_run(request, run),
        0 <= n < run.len(),
        run[n].action matches InitAction::Ready { forget_lock, .. } && forget_lock,
    ensures
        run[n].action matches InitAction::Ready { session, .. } && {
            &&& lookup(run[n].after, request.download_key) == Some(session@)
            &&& session.first_ip == request.ip
            &&& session.verified_signature is None
            &&& exists|file_key: Key32, owner: Address| #[trigger]
                named(run, n, file_key, owner) && session.file_key@ == hex_text(file_key@)
                    && session.file_owner@ == owner@
            &&& exists|i: int| 0 <= i <= n && tells_count(#[trigger] run[i], session.total_chunks)
        },
{
    lemma_grounded(request, run, n);
    let step = run[n];
    assert(init_step(
        request,
        step.state,
        step.event,
        step.before,
        step.after,
        step.next,
        step.action,
    ));
    match (step.state, step.event) {
        (
            InitState::AwaitWhitelist { file_key, owner, chunk_count, is_public },
            InitEvent::WhitelistFetched { reply, now },
        ) => {
            assert(n > 0);
            assert(named(run, n - 1, file_key, owner));
            assert(named(run, n, file_key, owner));
        },
        _ => {
            assert(false);
        },
    }
}

/// How far along a state is.
spec fn init_rank(state: InitState) -> int {
    match state {
        InitState::Start => 0,
        InitState::AwaitLock => 1,
        InitState::AwaitContract { .. } => 2,
        InitState::AwaitSession => 3,
        InitState::AwaitFile { .. } => 4,
        InitState::AwaitCount { .. } => 5,
        InitState::AwaitPublic { .. } => 6,
        InitState::AwaitWhitelist { .. } => 7,
        InitState::Finished => 8,
    }
}

proof fn lemma_init_rank(request: InitRequest, run: Seq<InitStep>, i: int, j: int)
    requires
        init_run(request, run),
        0 <= i < j < run.len(),
    ensures
        init_rank(run[i].next) <= init_rank(run[j].state),
    decreases j - i,
{
    let step = run[j - 1];
    assert(run[j].state == step.next);
    if i < j - 1 {
        lemma_init_rank(request, run, i, j - 1);
        assert(init_rank(step.state) <= init_rank(step.next));
    }
}

/// Whether a step agrees with what a state holds: the answers that were given in it
/// are those that the state holds, and what was asked in it was about the same file.
spec fn agrees(request: InitRequest, step: InitStep, state: InitState) -> bool {
    match state {
        InitState::AwaitFile { file_key } => agrees_on_file(request, step, file_key),
        InitState::AwaitCount { file_key, owner } => agrees_on_file(request, step, file_key)
            && agrees_on_owner(step, owner),
        InitState::AwaitPublic { file_key, owner, chunk_count } => agrees_on_file(
            request,
            step,
            file_key,
        ) && agrees_on_owner(step, owner) && agrees_on_count(step, chunk_count),
        InitState::AwaitWhitelist { file_key, owner, chunk_count, is_public } => agrees_on_file(
            request,
            step,
            file_key,
        ) && agrees_on_owner(step, owner) && agrees_on_count(step, chunk_count)
            && agrees_on_public(step, is_public),
        _ => true,
    }
}

/// Whether a step says of no other file that it is the one of the download, and asks
/// about no other.
pub open spec fn agrees_on_file(request: InitRequest, step: InitStep, key: Key32) -> bool {
    &&& step.state is AwaitSession ==> (step.event matches InitEvent::SessionFetched(reply) ==> (
    reply matches Ok(info) && info.file_key == key))
    &&& step.action matches InitAction::FetchFile { file_key } ==> file_key == key
    &&& step.action matches InitAction::CheckPublic { file_key } ==> file_key == key
    &&& step.action matches InitAction::FetchWhitelist { file_key } ==> file_key == key
    &&& step.action matches InitAction::CountChunks { path } ==> path@ == key_path(
        request.storage_root,
        hex_text(key@),
    )
}

/// Whether a step says of no other that it owns the file.
pub open spec fn agrees_on_owner(step: InitStep, owner: Address) -> bool {
    step.state is AwaitFile ==> (step.event matches InitEvent::FileFetched(reply, clock) ==> (
    reply matches Ok(file) && file.owner == owner))
}

/// Whether a step gives no other number of chunks.
pub open spec fn agrees_on_count(step: InitStep, chunk_count: u64) -> bool {
    step.state is AwaitCount ==> (step.event matches InitEvent::ChunksCounted(reply) ==> (
    reply matches Ok(count) && count == chunk_count))
}

/// Whether a step gives no other answer to whether the file is public.
pub open spec fn agrees_on_public(step: InitStep, is_public: bool) -> bool {
    step.state is AwaitPublic ==> (step.event matches InitEvent::PublicChecked(reply) ==> (
    reply matches Ok(public) && public == is_public))
}

proof fn lemma_agrees(request: InitRequest, run: Seq<InitStep>, k: int, n: int)
    requires
        init_run(request, run),
        0 <= k <= n < run.len(),
    ensures
        agrees(request, run[k], run[n].next),
    decreases n,
{
    let step = run[n];
    let early = run[k];
    if k < n {
        lemma_agrees(request, run, k, n - 1);
        assert(step.state == run[n - 1].next);
        lemma_init_rank(request, run, k, n);
    }
    if n > 0 {
        assert(step.state == run[n - 1].next);
        lemma_holds_own_file(request, run, n - 1);
    }
}

proof fn lemma_holds_own_file(request: InitRequest, run: Seq<InitStep>, n: int)
    requires
        init_run(request, run),
        0 <= n < run.len(),
    ensures
        agrees(request, run[n], run[n].next),
{
}

/// Whether a step gives the chain's answer to whether the file is public.
pub open spec fn answers_public(step: InitStep, is_public: bool) -> bool {
    step.state is AwaitPublic && step.event == InitEvent::PublicChecked(Ok(is_public))
}

proof fn lemma_public_was_answered(request: InitRequest, run: Seq<InitStep>, n: int)
    requires
        init_run(request, run),
        0 <= n < run.len(),
        run[n].next is AwaitWhitelist,
    ensures
        run[n].next matches InitState::AwaitWhitelist { is_public, .. } && exists|i: int|
            0 <= i <= n && answers_public(#[trigger] run[i], is_public),
    decreases n,
{
    let step = run[n];
    if step.state is AwaitWhitelist {
        assert(n > 0);
        assert(step.state == run[n - 1].next);
        lemma_public_was_answered(request, run, n - 1);
    } else if let InitState::AwaitWhitelist { is_public, .. } = step.next {
        assert(answers_public(run[n], is_public));
    }
}

/// A session that is opened just now holds what was said while it was opened. It is
/// public exactly if the chain said that the file is, its list holds exactly the
/// addresses that the chain listed, in order, and it is of the file, the owner and
/// the number of chunks that were told; no step of the run says otherwise, and none
/// asks about another file. It is as the request wants it, and nothing was given yet.
pub proof fn law_session_holds_what_was_said(
    request: InitRequest,
    run: Seq<InitStep>,
    n: int,
    k: int,
)
    requires
        init_run(request, run),
        0 <= k <= n < run.len(),
        run[n].action matches InitAction::Ready { forget_lock, .. } && forget_lock,
    ensures
        run[n].action matches InitAction::Ready { session, .. } && {
            &&& exists|i: int| 0 <= i < n && answers_public(#[trigger] run[i], session.is_public)
            &&& agrees_on_public(run[k], session.is_public)
            &&& agrees_on_count(run[k], session.total_chunks)
            &&& exists|file_key: Key32, owner: Address| #[trigger]
                named(run, n, file_key, owner) && session.file_key@ == hex_text(file_key@)
                    && session.file_owner@ == owner@ && agrees_on_file(request, run[k], file_key)
                    && agrees_on_owner(run[k], owner)
            &&& run[n].event matches InitEvent::WhitelistFetched { reply, now }
            &&& reply matches Ok(listed)
            &&& session.whitelist@.len() == listed@.len()
            &&& forall|i: int|
                0 <= i < listed@.len() ==> (#[trigger] session.whitelist@[i])@ == listed@[i]@
            &&& session.created_at == now
            &&& session.download_key@ == request.download_key
            &&& session.first_ip == request.ip
            &&& session.remaining_chunks == session.total_chunks
            &&& session.total_chunks * 3 <= u64::MAX ==> session.retry_remaining == 3
                * session.total_chunks
            &&& session.confirmed_at is None
            &&& session.verified_signature is None
            &&& lookup(run[n].after, request.download_key) == Some(session@)
        },
{
    lemma_grounded(request, run, n);
    let step = run[n];
    assert(init_step(
        request,
        step.state,
        step.event,
        step.before,
        step.after,
        step.next,
        step.action,
    ));
    match (step.state, step.event) {
        (
            InitState::AwaitWhitelist { file_key, owner, chunk_count, is_public },
            InitEvent::WhitelistFetched { reply, now },
        ) => {
            assert(n > 0);
            assert(step.state == run[n - 1].next);
            lemma_public_was_answered(request, run, n - 1);
            if k < n {
                lemma_agrees(request, run, k, n - 1);
            }
            assert(named(run, n - 1, file_key, owner));
            assert(named(run, n, file_key, owner));
            if let InitAction::Ready { session, .. } = step.action {
                if let Ok(listed) = reply {
                    assert(session@.whitelist == addresses(listed@));
                    assert(addresses(session.whitelist@).len() == session.whitelist@.len());
                    assert(addresses(listed@).len() == listed@.len());
                    assert forall|i: int| 0 <= i < listed@.len() implies (
                    #[trigger] session.whitelist@[i])@ == listed@[i]@ by {
                        assert(addresses(session.whitelist@)[i] == addresses(listed@)[i]);
                    }
                }
            }
        },
        _ => {
            assert(false);
        },
    }
}

/// Where every answer is good, the session is opened: from the first word to the
/// last, each answer leads to the next question, about the file that the chain named
/// for the download, and to the session in the end. Until then the sessions stay as
/// they are.
pub proof fn law_good_answers_open_the_session(
    request: InitRequest,
    run: Seq<InitStep>,
    info: ChainSession,
    file: ChainFile,
    secs: u64,
    chunk_count: u64,
    is_public: bool,
    listed: Vec<Address>,
    begun: u128,
    now: u128,
)
    requires
        init_run(request, run),
        run.len() == 8,
        run[0].event == (InitEvent::Begin { now: begun }),
        run[1].event is Locked,
        run[2].event matches InitEvent::ContractOpened(reply) && reply is Ok,
        run[3].event == InitEvent::SessionFetched(Ok(info)),
        run[4].event == InitEvent::FileFetched(Ok(file), Ok(secs)),
        run[5].event == InitEvent::ChunksCounted(Ok(chunk_count)),
        run[6].event == InitEvent::PublicChecked(Ok(is_public)),
        run[7].event == (InitEvent::WhitelistFetched { reply: Ok(listed), now }),
        !run[0].before.contains_key(request.download_key),
        !run[1].before.contains_key(request.download_key),
        is_hex(encode_utf8(without_0x(request.download_key))),
        encode_utf8(without_0x(request.download_key)).len() == 64,
        exists|i: int| 0 <= i < 32 && #[trigger] info.file_key@[i] != 0,
        !info.is_confirmed,
        file.expire_time > secs,
        file.status != FileStatus::Deleted,
    ensures
        run[0].action is Lock,
        run[1].action is OpenContract,
        run[2].action matches InitAction::FetchSession { key } && key@ == hex_bytes(
            encode_utf8(without_0x(request.download_key)),
        ),
        run[3].action matches InitAction::FetchFile { file_key } && file_key == info.file_key,
        run[4].action is CountChunks,
        run[5].action matches InitAction::CheckPublic { file_key } && file_key == info.file_key,
        run[6].action matches InitAction::FetchWhitelist { file_key } && file_key
            == info.file_key,
        run[7].action matches InitAction::Ready { session, forget_lock } && {
            &&& forget_lock
            &&& session.file_owner@ == file.owner@
            &&& session.file_key@ == hex_text(info.file_key@)
            &&& session.total_chunks == chunk_count
            &&& session.is_public == is_public
            &&& run[7].after == run[7].before.insert(request.download_key, session@)
        },
        forall|i: int| 0 <= i < 7 ==> (#[trigger] run[i]).after == run[i].before,
{
    assert(run[1].state == run[0].next);
    assert(run[2].state == run[1].next);
    assert(run[3].state == run[2].next);
    assert(run[4].state == run[3].next);
    assert(run[5].state == run[4].next);
    assert(run[6].state == run[5].next);
    assert(run[7].state == run[6].next);
    assert(!is_zero_key(info.file_key@));
    assert(run[0].next is AwaitLock);
    assert(run[1].next is AwaitContract);
    assert(run[2].next is AwaitSession);
    assert(run[3].next == (InitState::AwaitFile { file_key: info.file_key }));
    assert(run[4].next == (InitState::AwaitCount { file_key: info.file_key, owner: file.owner }));
    assert(run[5].next == (InitState::AwaitPublic {
        file_key: info.file_key,
        owner: file.owner,
        chunk_count,
    }));
    assert(run[6].next == (InitState::AwaitWhitelist {
        file_key: info.file_key,
        owner: file.owner,
        chunk_count,
        is_public,
    }));
}

/// An answer that is not good opens no session: it ends the opening, in words that
/// say what was wrong, and the sessions stay as they are.
pub proof fn law_bad_answers_open_nothing(
    request: InitRequest,
    state: InitState,
    event: InitEvent,
    before: SessionMap,
    after: SessionMap,
    next: InitState,
    action: InitAction,
)
    requires
        init_step(request, state, event, before, after, next, action),
        match (state, event) {
            (InitState::AwaitLock, InitEvent::Locked) => !before.contains_key(request.download_key)
                && (!is_hex(encode_utf8(without_0x(request.download_key))) || encode_utf8(
                without_0x(request.download_key),
            ).len() != 64),
            (InitState::AwaitContract { .. }, InitEvent::ContractOpened(reply)) => reply is Err,
            (InitState::AwaitSession, InitEvent::SessionFetched(reply)) => match reply {
                Ok(info) => info.is_confirmed || forall|i: int|
                    0 <= i < 32 ==> #[trigger] info.file_key@[i] == 0,
                Err(_) => true,
            },
            (InitState::AwaitFile { .. }, InitEvent::FileFetched(reply, clock)) => match (
                reply,
                clock,
            ) {
                (Ok(file), Ok(secs)) => file.expire_time <= secs || file.status
                    == FileStatus::Deleted,
                _ => true,
            },
            (InitState::AwaitCount { .. }, InitEvent::ChunksCounted(reply)) => reply is Err,
            (InitState::AwaitPublic { .. }, InitEvent::PublicChecked(reply)) => reply is Err,
            (InitState::AwaitWhitelist { .. }, InitEvent::WhitelistFetched { reply, .. }) => reply
                is Err,
            _ => false,
        },
    ensures
        after == before,
        next is Finished,
        action matches InitAction::Fail(e) && match event {
            InitEvent::ContractOpened(Err(why)) => e@ == "Failed to create contract instance: "@
                + why@,
            InitEvent::SessionFetched(Err(why)) => e@ == "Failed to get download session info: "@
                + why@,
            InitEvent::SessionFetched(Ok(info)) => if is_zero_key(info.file_key@) {
                e@ == "Download key '"@ + request.download_key + "' not found on-chain"@
            } else {
                e@ == "Download key '"@ + request.download_key + "' has expired"@
            },
            InitEvent::FileFetched(Err(why), _) => e@ == "Failed to fetch file info: "@ + why@,
            InitEvent::FileFetched(Ok(file), Err(why)) => e@ == "System time error: "@ + why@,
            InitEvent::FileFetched(Ok(file), Ok(secs)) => if file.expire_time <= secs {
                e@ == "Download key has expired"@
            } else {
                e@ == "File  has been deleted"@
            },
            InitEvent::ChunksCounted(Err(why)) => e@ == "Failed to count chunks: "@ + why@,
            InitEvent::PublicChecked(Err(why)) => e@ == "Failed to check if file is public: "@
                + why@,
            InitEvent::WhitelistFetched { reply: Err(why), .. } => e@
                == "Failed to get whitelist: "@ + why@,
            _ => true,
        },
{
    if let InitEvent::SessionFetched(Ok(info)) = event {
        assert(info.file_key@.len() == 32);
    }
}

/// A session that is there is handed out as it is, also to a request that has waited
/// for its turn, unless it was confirmed longer ago than the time it may be kept.
pub proof fn law_open_session_is_handed_out(
    request: InitRequest,
    state: InitState,
    event: InitEvent,
    before: SessionMap,
    after: SessionMap,
    next: InitState,
    action: InitAction,
)
    requires
        init_step(request, state, event, before, after, next, action),
        before.contains_key(request.download_key),
        match (state, event) {
            (InitState::Start, InitEvent::Begin { now }) => match (
            before[request.download_key].confirmed_at) {
                Some(at) => now <= at + request.timeout_secs * 1_000_000_000,
                None => true,
            },
            (InitState::AwaitLock, InitEvent::Locked) => true,
            _ => false,
        },
    ensures
        after == before,
        next is Finished,
        action matches InitAction::Ready { session, forget_lock } && session@
            == before[request.download_key] && !forget_lock,
{
}

/// A session that was confirmed longer ago than the time it may be kept is dropped
/// when it is asked for, and no other; the request then waits for its turn to open
/// it anew.
pub proof fn law_overdue_session_is_dropped(
    request: InitRequest,
    now: u128,
    at: u128,
    before: SessionMap,
    after: SessionMap,
    next: InitState,
    action: InitAction,
)
    requires
        init_step(request, InitState::Start, InitEvent::Begin { now }, before, after, next, action),
        before.contains_key(request.download_key),
        before[request.download_key].confirmed_at == Some(at),
        now > at + request.timeout_secs * 1_000_000_000,
    ensures
        !after.contains_key(request.download_key),
        forall|key: Seq<char>|
            key != request.download_key ==> lookup(after, key) == #[trigger] lookup(before, key),
        next is AwaitLock && action is Lock,
{
}

// ---------------------------------------------------------------------------
// What sessions keep
// ---------------------------------------------------------------------------

/// Whether each session stands under its own download key.
pub open spec fn well_keyed(sessions: SessionMap) -> bool {
    forall|key: Seq<char>| #[trigger]
        sessions.contains_key(key) ==> sessions[key].download_key == key
}

/// Whether a session is an earlier one, further on: whose download it is has not
/// changed, nor has a signature that was accepted.
pub open spec fn same_binding(earlier: SessionView, later: SessionView) -> bool {
    &&& later.download_key == earlier.download_key
    &&& later.file_key == earlier.file_key
    &&& later.file_owner == earlier.file_owner
    &&& later.first_ip == earlier.first_ip
    &&& later.is_public == earlier.is_public
    &&& later.whitelist == earlier.whitelist
    &&& later.created_at == earlier.created_at
    &&& earlier.verified_signature is Some ==> later.verified_signature
        == earlier.verified_signature
}

/// Whether sessions only go on, or end: none is new, and each is the one that
/// stood under its key.
pub open spec fn carries_on(before: SessionMap, after: SessionMap) -> bool {
    forall|key: Seq<char>| #[trigger]
        after.contains_key(key) ==> before.contains_key(key) && same_binding(
            before[key],
            after[key],
        )
}

/// Sessions that go on keep their keys.
pub proof fn law_carrying_on_keeps_keys(before: SessionMap, after: SessionMap)
    requires
        carries_on(before, after),
        well_keyed(before),
    ensures
        well_keyed(after),
{
}

/// However long sessions go on, each that is left is the one that stood under its
/// key.
pub proof fn law_carrying_on_lasts(run: Seq<SessionMap>)
    requires
        run.len() > 0,
        forall|i: int, j: int|
            0 <= i < run.len() && j == i + 1 && j < run.len() ==> carries_on(
                #[trigger] run[i],
                #[trigger] run[j],
            ),
    ensures
        carries_on(run[0], run.last()),
    decreases run.len(),
{
    if run.len() > 1 {
        let front = run.drop_last();
        assert forall|i: int, j: int| 0 <= i < front.len() && j == i + 1 && j < front.len() implies
            carries_on(#[trigger] front[i], #[trigger] front[j]) by {
            assert(front[i] == run[i] && front[j] == run[j]);
        }
        law_carrying_on_lasts(front);
        let n = run.len() - 1;
        assert(front.last() == run[n - 1]);
        assert(carries_on(run[n - 1], run[n]));
    }
}

/// Opening a session puts it under its own key, and leaves the others as they are
/// or drops one that timed out.
pub proof fn law_opening_keeps_keys(
    request: InitRequest,
    state: InitState,
    event: InitEvent,
    before: SessionMap,
    after: SessionMap,
    next: InitState,
    action: InitAction,
)
    requires
        init_step(request, state, event, before, after, next, action),
    ensures
        well_keyed(before) ==> well_keyed(after),
        carries_on(before.remove(request.download_key), after.remove(request.download_key)),
        !(event is WhitelistFetched) ==> carries_on(before, after),
{
}

/// Counting a chunk keeps whose download it is.
pub proof fn law_counting_carries_on(sessions: SessionMap, download_key: Seq<char>)
    requires
        sessions.contains_key(download_key),
    ensures
        carries_on(
            sessions,
            sessions.insert(download_key, counted_down(sessions[download_key])),
        ),
{
}

// ---------------------------------------------------------------------------
// Using a session up
// ---------------------------------------------------------------------------

/// Whether a session still has a chunk to give, be it a repeated one.
pub open spec fn has_budget(session: SessionView) -> bool {
    session.remaining_chunks > 0 || session.retry_remaining > 0
}

/// Whether the place of a chunk fits, where its session still has one to give.
pub open spec fn is_readable(
    sessions: SessionMap,
    download_key: Seq<char>,
    chunk_index: u64,
) -> bool {
    match lookup(sessions, download_key) {
        Some(session) => has_budget(session) ==> chunk_index * CHUNK_SIZE <= u64::MAX,
        None => true,
    }
}

/// Whether the place of a chunk fits, where its session still has one to give.
pub fn chunk_is_readable(caches: &Caches, download_key: &str, chunk_index: u64) -> (r: bool)
    ensures
        r == is_readable(caches@.sessions, download_key@, chunk_index),
{
    match caches.session(download_key) {
        Some(session) => {
            !(session.remaining_chunks > 0 || session.retry_remaining > 0) || chunk_index
                <= u64::MAX / CHUNK_SIZE
        },
        None => true,
    }
}

/// A session after one more chunk was given: first the chunks of the file count
/// down, then the repetitions.
pub open spec fn counted_down(session: SessionView) -> SessionView {
    if session.remaining_chunks > 0 {
        SessionView { remaining_chunks: (session.remaining_chunks - 1) as u64, ..session }
    } else {
        SessionView { retry_remaining: (session.retry_remaining - 1) as u64, ..session }
    }
}

/// Whether one more chunk completes the download.
pub open spec fn completes(session: SessionView) -> bool {
    session.remaining_chunks == 1
}

/// A chunk was counted.
#[derive(Clone, Copy, PartialEq, Eq, Structural, Debug)]
pub struct CountDown {
    /// How many chunks of the file are still to be given.
    pub remaining: u64,
    /// The download is complete just now: it is to be confirmed on the chain.
    pub should_confirm: bool,
}

/// Counts one chunk that was given under a download key.
pub fn descrease_chunk_count(caches: &mut Caches, download_key: &str) -> (r: Result<
    CountDown,
    String,
>)
    ensures
        match lookup(old(caches)@.sessions, download_key@) {
            None => {
                &&& r matches Err(e)
                &&& e@ == "Download session not found"@
                &&& final(caches)@ == old(caches)@
            },
            Some(session) => if !has_budget(session) {
                &&& r matches Err(e)
                &&& e@ == "No remaining chunks"@
                &&& final(caches)@ == old(caches)@
            } else {
                &&& r matches Ok(count)
                &&& count.remaining == counted_down(session).remaining_chunks
                &&& count.should_confirm == completes(session)
                &&& final(caches)@ == (CachesView {
                    sessions: old(caches)@.sessions.insert(download_key@, counted_down(session)),
                    ..old(caches)@
                })
            },
        },
{
    match caches.session(download_key) {
        None => Err("Download session not found".to_owned()),
        Some(mut session) => {
            if session.remaining_chunks > 0 {
                session.remaining_chunks = session.remaining_chunks - 1;
                let remaining: u64 = session.remaining_chunks;
                caches.put_session(download_key.to_owned(), session);
                Ok(CountDown { remaining, should_confirm: remaining == 0 })
            } else if session.retry_remaining > 0 {
                session.retry_remaining = session.retry_remaining - 1;
                let remaining: u64 = session.remaining_chunks;
                caches.put_session(download_key.to_owned(), session);
                Ok(CountDown { remaining, should_confirm: false })
            } else {
                Err("No remaining chunks".to_owned())
            }
        },
    }
}

/// A session after so many chunks were given.
pub open spec fn after_chunks(session: SessionView, given: nat) -> SessionView
    decreases given,
{
    if given == 0 {
        session
    } else {
        counted_down(after_chunks(session, (given - 1) as nat))
    }
}

/// A fresh session gives exactly four chunks for each chunk of the file: the
/// chunks themselves, and three repetitions of each. It is complete when every
/// chunk has been given once, and only then.
pub proof fn law_download_budget(
    download_key: Seq<char>,
    file_key: Seq<u8>,
    owner: Seq<u8>,
    chunk_count: u64,
    first_ip: IpAddr,
    is_public: bool,
    whitelist: Seq<Seq<u8>>,
    now: u128,
    given: nat,
)
    requires
        chunk_count * 3 <= u64::MAX,
        given <= 4 * chunk_count,
    ensures
        ({
            let fresh = fresh_session(
                download_key,
                file_key,
                owner,
                chunk_count,
                first_ip,
                is_public,
                whitelist,
                now,
            );
            let session = after_chunks(fresh, given);
            &&& session.remaining_chunks + session.retry_remaining == 4 * chunk_count - given
            &&& has_budget(session) <==> given < 4 * chunk_count
            &&& completes(session) <==> given + 1 == chunk_count
            &&& session == (SessionView {
                remaining_chunks: session.remaining_chunks,
                retry_remaining: session.retry_remaining,
                ..fresh
            })
        }),
{
    let fresh = fresh_session(
        download_key,
        file_key,
        owner,
        chunk_count,
        first_ip,
        is_public,
        whitelist,
        now,
    );
    lemma_after_chunks(fresh, given);
}

proof fn lemma_after_chunks(fresh: SessionView, given: nat)
    requires
        fresh.retry_remaining == 3 * fresh.remaining_chunks,
        given <= 4 * fresh.remaining_chunks,
    ensures
        after_chunks(fresh, given) == (SessionView {
            remaining_chunks: (if given < fresh.remaining_chunks {
                fresh.remaining_chunks - given
            } else {
                0
            }) as u64,
            retry_remaining: (if given < fresh.remaining_chunks {
                fresh.retry_remaining as int
            } else {
                4 * fresh.remaining_chunks - given
            }) as u64,
            ..fresh
        }),
    decreases given,
{
    if given > 0 {
        lemma_after_chunks(fresh, (given - 1) as nat);
    }
}

/// What became of a confirmation that was offered to the queue.
#[derive(Clone, Copy, PartialEq, Eq, Structural, Debug)]
pub enum QueueOutcome {
    Accepted,
    Full,
    Closed,
}

/// A line to append to a file.
#[derive(Debug)]
pub struct PendingLine {
    pub path: String,
    pub line: String,
}

/// Whether a confirmation that was offered to the queue is parked as it should be.
pub open spec fn parks(
    storage_root: Seq<char>,
    download_key: Seq<char>,
    outcome: QueueOutcome,
    parked: Option<PendingLine>,
) -> bool {
    match parked {
        Some(pending) => outcome is Full && pending.path@ == joined(
            storage_root,
            "pending_confirmations.txt"@,
        ) && pending.line@ == download_key + "\n"@,
        None => !(outcome is Full),
    }
}

/// A confirmation that the queue has no room for is not lost: it is appended, on a line
/// of its own, to the file that is taken up later. What the queue took, and what it
/// will never take, is not.
pub proof fn law_full_queue_parks(
    storage_root: Seq<char>,
    download_key: Seq<char>,
    outcome: QueueOutcome,
    parked: Option<PendingLine>,
)
    requires
        parks(storage_root, download_key, outcome, parked),
    ensures
        parked is Some <==> outcome == QueueOutcome::Full,
        parked matches Some(pending) ==> {
            &&& pending.path@ == joined(storage_root, "pending_confirmations.txt"@)
            &&& pending.line@.len() == download_key.len() + 1
            &&& pending.line@.drop_last() == download_key
            &&& pending.line@.last() == '\n'
        },
{
    reveal_strlit("\n");
    if let Some(pending) = parked {
        assert(pending.line@.drop_last() =~= download_key);
    }
}

/// Where a confirmation goes that the queue has no room for: to a line on disk.
/// With the queue closed it is lost.
pub fn park_confirmation(storage_root: &str, download_key: &str, outcome: QueueOutcome) -> (r:
    Option<PendingLine>)
    ensures
        match r {
            Some(pending) => outcome is Full && pending.path@ == joined(
                storage_root@,
                "pending_confirmations.txt"@,
            ) && pending.line@ == download_key@ + "\n"@,
            None => !(outcome is Full),
        },
        parks(storage_root@, download_key@, outcome, r),
{
    match outcome {
        QueueOutcome::Full => Some(
            PendingLine {
                path: join_path(storage_root, "pending_confirmations.txt"),
                line: join_text(download_key, "\n"),
            },
        ),
        _ => None,
    }
}

/// A chunk that is given takes one off what is left: off the chunks themselves while
/// there are any, then off the repetitions. There is something left as long as either
/// is, the last of the chunks completes the download, and all else stays.
pub proof fn law_counting_takes_one(session: SessionView)
    requires
        session.remaining_chunks + session.retry_remaining > 0,
    ensures
        has_budget(session),
        ({
            let after = counted_down(session);
            &&& session.remaining_chunks > 0 ==> after.remaining_chunks + 1
                == session.remaining_chunks && after.retry_remaining == session.retry_remaining
            &&& session.remaining_chunks == 0 ==> after.remaining_chunks == 0
                && after.retry_remaining + 1 == session.retry_remaining
            &&& has_budget(after) <==> after.remaining_chunks + after.retry_remaining > 0
            &&& completes(session) <==> session.remaining_chunks > 0 && after.remaining_chunks == 0
            &&& after.download_key == session.download_key
            &&& after.file_key == session.file_key
            &&& after.file_owner == session.file_owner
            &&& after.total_chunks == session.total_chunks
            &&& after.first_ip == session.first_ip
            &&& after.confirmed_at == session.confirmed_at
            &&& after.verified_signature == session.verified_signature
            &&& after.is_public == session.is_public
            &&& after.whitelist == session.whitelist
            &&& after.created_at == session.created_at
        }),
{
}

/// What happens to the opening of a session out of turn changes nothing.
pub proof fn law_opening_ignores_strays(
    request: InitRequest,
    state: InitState,
    event: InitEvent,
    before: SessionMap,
    after: SessionMap,
    next: InitState,
    action: InitAction,
)
    requires
        init_step(request, state, event, before, after, next, action),
        !(state is Start && event is Begin),
        !(state is AwaitLock && event is Locked),
        !(state is AwaitContract && event is ContractOpened),
        !(state is AwaitSession && event is SessionFetched),
        !(state is AwaitFile && event is FileFetched),
        !(state is AwaitCount && event is ChunksCounted),
        !(state is AwaitPublic && event is PublicChecked),
        !(state is AwaitWhitelist && event is WhitelistFetched),
    ensures
        next == state && after == before && action is Ignore,
{
}

/// A chunk can be read where its place in the file can be counted, and where there is
/// nothing left to give, it need not.
pub proof fn law_readable_where_the_place_fits(
    sessions: SessionMap,
    download_key: Seq<char>,
    chunk_index: u64,
)
    ensures
        chunk_index * 1_048_576 <= u64::MAX ==> is_readable(sessions, download_key, chunk_index),
        !sessions.contains_key(download_key) ==> is_readable(sessions, download_key, chunk_index),
        sessions.contains_key(download_key) && sessions[download_key].remaining_chunks
            + sessions[download_key].retry_remaining > 0 && chunk_index * 1_048_576 > u64::MAX
            ==> !is_readable(sessions, download_key, chunk_index),
{
}

} // verus!
