use storage_node::cache::Caches;
use storage_node::download_manager::{
    chunk_is_readable, decode_download_key, descrease_chunk_count, file_dir, initialize_download_session,
    park_confirmation, ChainFile, ChainSession, FileStatus, InitAction, InitEvent, InitState,
    QueueOutcome, NANOS_PER_SEC,
};
use storage_node::listener::process_download_confirmed_event;
use storage_node::models::{DownloadSession, IpAddr};
use storage_node::sweeper::sweep_sessions;

const ROOT: &str = "root";
const TIMEOUT: u64 = 900;
const CLIENT: IpAddr = IpAddr::V4(0x7f00_0001);

fn key() -> String {
    "ab".repeat(32)
}

fn step(
    caches: &mut Caches,
    key: &str,
    state: InitState,
    event: InitEvent,
) -> (InitState, InitAction) {
    initialize_download_session(caches, key, CLIENT, ROOT, TIMEOUT, state, event)
}

fn failure(action: InitAction) -> String {
    match action {
        InitAction::Fail(e) => e,
        other => panic!("no failure: {:?}", other),
    }
}

fn session(remaining: u64, retry: u64, confirmed_at: Option<u128>) -> DownloadSession {
    DownloadSession {
        download_key: key(),
        file_key: "cd".repeat(32),
        file_owner: [1; 20],
        remaining_chunks: remaining,
        total_chunks: remaining,
        first_ip: CLIENT,
        retry_remaining: retry,
        confirmed_at,
        verified_signature: None,
        is_public: false,
        whitelist: vec![],
        created_at: 0,
    }
}

fn open_file(status: FileStatus, expire_time: u64) -> ChainFile {
    ChainFile { owner: [3; 20], expire_time, status }
}

/// Opens a session for a file with so many chunks, every answer being good.
fn open_session(caches: &mut Caches, key: &str, chunks: u64) -> DownloadSession {
    let (s, a) = step(caches, key, InitState::Start, InitEvent::Begin { now: 5 });
    assert!(matches!(a, InitAction::Lock));
    let (s, a) = step(caches, key, s, InitEvent::Locked);
    assert!(matches!(a, InitAction::OpenContract));
    let (s, a) = step(caches, key, s, InitEvent::ContractOpened(Ok(())));
    assert!(matches!(a, InitAction::FetchSession { key } if key == [0xab; 32]));
    let info = ChainSession { file_key: [0xcd; 32], is_confirmed: false };
    let (s, a) = step(caches, key, s, InitEvent::SessionFetched(Ok(info)));
    assert!(matches!(a, InitAction::FetchFile { file_key } if file_key == [0xcd; 32]));
    let file = open_file(FileStatus::Active, 100);
    let (s, a) = step(caches, key, s, InitEvent::FileFetched(Ok(file), Ok(99)));
    match a {
        InitAction::CountChunks { path } => {
            assert_eq!(path, format!("root/cd/cd/{}", "cd".repeat(32)))
        }
        other => panic!("{:?}", other),
    }
    let (s, a) = step(caches, key, s, InitEvent::ChunksCounted(Ok(chunks)));
    assert!(matches!(a, InitAction::CheckPublic { .. }));
    let (s, a) = step(caches, key, s, InitEvent::PublicChecked(Ok(false)));
    assert!(matches!(a, InitAction::FetchWhitelist { .. }));
    let reply = Ok(vec![[8u8; 20]]);
    let (_, a) = step(caches, key, s, InitEvent::WhitelistFetched { reply, now: 42 });
    match a {
        InitAction::Ready { session, forget_lock } => {
            assert!(forget_lock);
            session
        }
        other => panic!("{:?}", other),
    }
}

#[test]
fn sessions_open_when_every_answer_is_good() {
    let mut caches = Caches::new();
    let opened = open_session(&mut caches, &key(), 5);
    assert_eq!(opened.download_key, key());
    assert_eq!(opened.file_key, "cd".repeat(32));
    assert_eq!(opened.file_owner, [3; 20]);
    assert_eq!(opened.remaining_chunks, 5);
    assert_eq!(opened.total_chunks, 5);
    assert_eq!(opened.retry_remaining, 15);
    assert_eq!(opened.first_ip, CLIENT);
    assert_eq!(opened.confirmed_at, None);
    assert_eq!(opened.verified_signature, None);
    assert_eq!(opened.whitelist, vec![[8u8; 20]]);
    assert_eq!(opened.created_at, 42);
    assert_eq!(caches.session(&key()).unwrap().total_chunks, 5);
}

#[test]
fn open_sessions_are_found_at_once() {
    let mut caches = Caches::new();
    open_session(&mut caches, &key(), 2);
    let (_, a) = step(&mut caches, &key(), InitState::Start, InitEvent::Begin { now: 50 });
    assert!(matches!(a, InitAction::Ready { forget_lock: false, .. }));
    let (_, a) = step(&mut caches, &key(), InitState::AwaitLock, InitEvent::Locked);
    assert!(matches!(a, InitAction::Ready { forget_lock: false, .. }));
}

#[test]
fn confirmed_sessions_go_stale() {
    let limit = TIMEOUT as u128 * NANOS_PER_SEC;
    let mut caches = Caches::new();
    caches.put_session(key(), session(0, 3, Some(10)));
    let at_limit = InitEvent::Begin { now: 10 + limit };
    let (_, a) = step(&mut caches, &key(), InitState::Start, at_limit);
    assert!(matches!(a, InitAction::Ready { .. }));
    let beyond = InitEvent::Begin { now: 11 + limit };
    let (_, a) = step(&mut caches, &key(), InitState::Start, beyond);
    assert!(matches!(a, InitAction::Lock));
    assert!(caches.session(&key()).is_none());
}

#[test]
fn download_keys_must_write_thirty_two_bytes() {
    let mut caches = Caches::new();
    let (_, a) = step(&mut caches, "0xzz", InitState::AwaitLock, InitEvent::Locked);
    assert_eq!(failure(a), "Invalid download key hex: Invalid character 'z' at position 0");
    let (_, a) = step(&mut caches, "0xabcd", InitState::AwaitLock, InitEvent::Locked);
    assert_eq!(
        failure(a),
        "Invalid download key length: expected 32 bytes, got 2 bytes"
    );
    assert_eq!(decode_download_key(&format!("0x{}", key())), Ok([0xab; 32]));
}

#[test]
fn openings_fail_where_the_chain_does() {
    let mut caches = Caches::new();
    let k = key();
    let bad = || "boom".to_string();
    let contract = InitState::AwaitContract { key: [1; 32] };
    let (_, a) = step(&mut caches, &k, contract, InitEvent::ContractOpened(Err(bad())));
    assert_eq!(failure(a), "Failed to create contract instance: boom");
    let (_, a) = step(&mut caches, &k, InitState::AwaitSession, InitEvent::SessionFetched(Err(bad())));
    assert_eq!(failure(a), "Failed to get download session info: boom");
    let file = InitState::AwaitFile { file_key: [1; 32] };
    let (_, a) = step(&mut caches, &k, file, InitEvent::FileFetched(Err(bad()), Ok(1)));
    assert_eq!(failure(a), "Failed to fetch file info: boom");
    let good = open_file(FileStatus::Active, 9);
    let (_, a) = step(&mut caches, &k, file, InitEvent::FileFetched(Ok(good), Err(bad())));
    assert_eq!(failure(a), "System time error: boom");
    let count = InitState::AwaitCount { file_key: [1; 32], owner: [2; 20] };
    let (_, a) = step(&mut caches, &k, count, InitEvent::ChunksCounted(Err(bad())));
    assert_eq!(failure(a), "Failed to count chunks: boom");
    let public = InitState::AwaitPublic { file_key: [1; 32], owner: [2; 20], chunk_count: 1 };
    let (_, a) = step(&mut caches, &k, public, InitEvent::PublicChecked(Err(bad())));
    assert_eq!(failure(a), "Failed to check if file is public: boom");
    let whitelist = InitState::AwaitWhitelist {
        file_key: [1; 32],
        owner: [2; 20],
        chunk_count: 1,
        is_public: true,
    };
    let event = InitEvent::WhitelistFetched { reply: Err(bad()), now: 1 };
    let (s, a) = step(&mut caches, &k, whitelist, event);
    assert_eq!(failure(a), "Failed to get whitelist: boom");
    assert!(matches!(s, InitState::Finished));
    assert!(caches.session(&k).is_none());
}

#[test]
fn openings_fail_for_dead_downloads_and_files() {
    let mut caches = Caches::new();
    let k = key();
    let unknown = ChainSession { file_key: [0; 32], is_confirmed: true };
    let event = InitEvent::SessionFetched(Ok(unknown));
    let (_, a) = step(&mut caches, &k, InitState::AwaitSession, event);
    assert_eq!(failure(a), format!("Download key '{}' not found on-chain", k));
    let confirmed = ChainSession { file_key: [1; 32], is_confirmed: true };
    let event = InitEvent::SessionFetched(Ok(confirmed));
    let (_, a) = step(&mut caches, &k, InitState::AwaitSession, event);
    assert_eq!(failure(a), format!("Download key '{}' has expired", k));
    let file = InitState::AwaitFile { file_key: [1; 32] };
    let expired = open_file(FileStatus::Deleted, 7);
    let (_, a) = step(&mut caches, &k, file, InitEvent::FileFetched(Ok(expired), Ok(7)));
    assert_eq!(failure(a), "Download key has expired");
    let deleted = open_file(FileStatus::Deleted, 8);
    let (_, a) = step(&mut caches, &k, file, InitEvent::FileFetched(Ok(deleted), Ok(7)));
    assert_eq!(failure(a), "File  has been deleted");
}

#[test]
fn foreign_events_change_nothing() {
    let mut caches = Caches::new();
    let (s, a) = step(&mut caches, &key(), InitState::Start, InitEvent::Locked);
    assert!(matches!(s, InitState::Start));
    assert!(matches!(a, InitAction::Ignore));
}

#[test]
fn downloads_have_four_times_their_chunks() {
    let mut caches = Caches::new();
    open_session(&mut caches, &key(), 2);
    let mut confirmed = 0;
    for given in 0..8u64 {
        let count = descrease_chunk_count(&mut caches, &key()).unwrap();
        assert_eq!(count.remaining, if given < 2 { 1 - given } else { 0 });
        if count.should_confirm {
            confirmed += 1;
            assert_eq!(given, 1);
        }
    }
    assert_eq!(confirmed, 1);
    assert_eq!(
        descrease_chunk_count(&mut caches, &key()).unwrap_err(),
        "No remaining chunks"
    );
}

#[test]
fn counting_needs_a_session() {
    let mut caches = Caches::new();
    assert_eq!(
        descrease_chunk_count(&mut caches, "none").unwrap_err(),
        "Download session not found"
    );
}

#[test]
fn confirmations_without_room_go_to_disk() {
    let parked = park_confirmation("root", "k1", QueueOutcome::Full).unwrap();
    assert_eq!(parked.path, "root/pending_confirmations.txt");
    assert_eq!(parked.line, "k1\n");
    assert!(park_confirmation("root", "k1", QueueOutcome::Closed).is_none());
    assert!(park_confirmation("root", "k1", QueueOutcome::Accepted).is_none());
}

#[test]
fn file_directories_are_named_in_hex() {
    assert_eq!(
        file_dir("r", &[0x0f; 32]),
        format!("r/0f/0f/{}", "0f".repeat(32))
    );
}

#[test]
fn sessions_keep_whose_download_they_are() {
    let mut caches = Caches::new();
    let opened = open_session(&mut caches, &key(), 2);
    assert_eq!(opened.download_key, key());
    let mut signed = caches.session(&key()).unwrap();
    signed.verified_signature = Some("first".to_string());
    caches.put_session(key(), signed);
    assert!(descrease_chunk_count(&mut caches, &key()).is_ok());
    assert!(process_download_confirmed_event(&mut caches, &[0xab; 32], 6).is_some());
    assert_eq!(sweep_sessions(&mut caches, 7), 0);
    let kept = caches.session(&key()).unwrap();
    assert_eq!(kept.download_key, key());
    assert_eq!(kept.file_key, opened.file_key);
    assert_eq!(kept.file_owner, opened.file_owner);
    assert_eq!(kept.first_ip, opened.first_ip);
    assert_eq!(kept.whitelist, opened.whitelist);
    assert_eq!(kept.created_at, opened.created_at);
    assert_eq!(kept.verified_signature.as_deref(), Some("first"));
}

#[test]
fn chunks_are_readable_while_their_place_fits() {
    let mut caches = Caches::new();
    assert!(chunk_is_readable(&caches, &key(), u64::MAX));
    caches.put_session(key(), session(0, 0, None));
    assert!(chunk_is_readable(&caches, &key(), u64::MAX));
    caches.put_session(key(), session(0, 1, None));
    assert!(chunk_is_readable(&caches, &key(), (1 << 44) - 1));
    assert!(!chunk_is_readable(&caches, &key(), 1 << 44));
}
