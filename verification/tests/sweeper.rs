use storage_node::cache::Caches;
use storage_node::download_manager::{park_confirmation, QueueOutcome, NANOS_PER_SEC};
use storage_node::models::{DownloadSession, IpAddr};
use storage_node::sweeper::{
    parse_pending, retry_confirmations, sweep_sessions, WorkerAction, WorkerEvent, WorkerState,
};

fn session(created_at: u128) -> DownloadSession {
    DownloadSession {
        download_key: String::new(),
        file_key: String::new(),
        file_owner: [1; 20],
        remaining_chunks: 0,
        total_chunks: 0,
        first_ip: IpAddr::V4(4),
        retry_remaining: 0,
        confirmed_at: None,
        verified_signature: None,
        is_public: false,
        whitelist: vec![],
        created_at,
    }
}

#[test]
fn sessions_older_than_a_day_are_swept() {
    let mut caches = Caches::new();
    let day = 86_400 * NANOS_PER_SEC;
    caches.put_session("old".to_string(), session(0));
    caches.put_session("edge".to_string(), session(NANOS_PER_SEC));
    caches.put_session("new".to_string(), session(2 * day));
    let now = day + NANOS_PER_SEC;
    assert_eq!(sweep_sessions(&mut caches, now), 1);
    assert!(caches.session("old").is_none());
    assert!(caches.session("edge").is_some());
    assert!(caches.session("new").is_some());
    let almost = now + NANOS_PER_SEC - 1;
    assert_eq!(sweep_sessions(&mut caches, almost), 0);
    assert_eq!(sweep_sessions(&mut caches, almost + 1), 1);
    assert!(caches.session("edge").is_none());
}

#[test]
fn waiting_confirmations_are_read_line_by_line() {
    let text = "k1,0xaa\r\n  k2 , 0xbb \nbare\n,x\ny,\na,b,c\n\nk3,0xcc";
    let row: Vec<(String, String)> =
        parse_pending(text).into_iter().map(|p| (p.key, p.address)).collect();
    let expected = [("k1", "0xaa"), ("k2", "0xbb"), ("k3", "0xcc")];
    assert_eq!(row.len(), 3);
    for (got, want) in row.iter().zip(expected) {
        assert_eq!((got.0.as_str(), got.1.as_str()), want);
    }
    assert!(parse_pending("").is_empty());
}

#[test]
fn a_single_line_is_read_by_itself() {
    let row = parse_pending("k,0xaa\n");
    assert_eq!(row.len(), 1);
    assert_eq!((row[0].key.as_str(), row[0].address.as_str()), ("k", "0xaa"));
    let parked = park_confirmation("r", &"ab".repeat(32), QueueOutcome::Full).unwrap();
    assert!(parse_pending(&parked.line).is_empty());
}

#[test]
fn a_round_renames_reads_queues_and_removes() {
    let (s, a) = retry_confirmations("r", WorkerState::Sleeping, WorkerEvent::Woke);
    assert!(matches!(a, WorkerAction::Look { path } if path == "r/pending_confirmations.txt"));
    let (s, a) = retry_confirmations("r", s, WorkerEvent::Exists(true));
    match a {
        WorkerAction::Rename { from, to } => {
            assert_eq!(from, "r/pending_confirmations.txt");
            assert_eq!(to, "r/processing_confirmations.txt");
        }
        other => panic!("{:?}", other),
    }
    let (s, a) = retry_confirmations("r", s, WorkerEvent::Renamed(true));
    assert!(matches!(a, WorkerAction::Read { path } if path == "r/processing_confirmations.txt"));
    let event = WorkerEvent::Content(Some("k,a\n".to_string()));
    let (s, a) = retry_confirmations("r", s, event);
    assert!(matches!(a, WorkerAction::Queue { row } if row.len() == 1));
    let (s, a) = retry_confirmations("r", s, WorkerEvent::Queued);
    assert!(matches!(a, WorkerAction::Remove { path } if path == "r/processing_confirmations.txt"));
    let (s, a) = retry_confirmations("r", s, WorkerEvent::Removed);
    assert!(matches!(a, WorkerAction::Sleep { secs: 120 }));
    assert_eq!(s, WorkerState::Sleeping);
}

#[test]
fn a_round_ends_early_where_there_is_nothing_to_do() {
    let (s, a) = retry_confirmations("r", WorkerState::Looking, WorkerEvent::Exists(false));
    assert_eq!(s, WorkerState::Sleeping);
    assert!(matches!(a, WorkerAction::Sleep { .. }));
    let (s, _) = retry_confirmations("r", WorkerState::Renaming, WorkerEvent::Renamed(false));
    assert_eq!(s, WorkerState::Sleeping);
    let (s, a) = retry_confirmations("r", WorkerState::Reading, WorkerEvent::Content(None));
    assert_eq!(s, WorkerState::Removing);
    assert!(matches!(a, WorkerAction::Remove { .. }));
    let (s, a) = retry_confirmations("r", WorkerState::Sleeping, WorkerEvent::Queued);
    assert_eq!(s, WorkerState::Sleeping);
    assert!(matches!(a, WorkerAction::Ignore));
}
