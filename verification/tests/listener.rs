use storage_node::cache::Caches;
use storage_node::listener::{
    classify_log, drop_confirmed_session, find_listed_text, get_block_number,
    listen_download_confirmed_events, logs_or_none, process_download_confirmed_event,
    process_file_activated_event, process_file_deleted_event, read_block_number, read_logs,
    BlockReply, ChainEvent, DecodedLog, DeleteAction, DeleteEvent, DeleteState, PollAction, PollEvent,
    PollState, RawLog,
};
use storage_node::models::{DownloadSession, IpAddr, UploadFileInfo};

fn body(text: &str) -> Result<Vec<u8>, String> {
    Ok(text.as_bytes().to_vec())
}

#[test]
fn block_numbers_are_read_from_replies() {
    let read = |text: &str| get_block_number(&BlockReply::Json(text.as_bytes().to_vec()));
    assert_eq!(read("{\"result\":\"0x10\"}"), Ok(16));
    assert_eq!(read("{\"jsonrpc\":\"2.0\",\"id\":1,\"result\":\"ff\"}"), Ok(255));
    for text in ["{\"result\":null}", "{\"result\":5}", "{\"error\":{}}", "[1]", "\"0x1\"", "{"] {
        assert_eq!(read(text).unwrap_err(), "Invalid response");
    }
    let unsent = BlockReply::Unsent("refused".to_string());
    assert_eq!(get_block_number(&unsent).unwrap_err(), "Request error: refused");
    let unread = BlockReply::Unread("error decoding response body".to_string());
    assert_eq!(
        get_block_number(&unread).unwrap_err(),
        "JSON error: error decoding response body"
    );
}

#[test]
fn block_numbers_must_be_hex() {
    let read = |text: &str| read_block_number(&Some(text.to_string()));
    assert_eq!(read("0x0xFf"), Ok(255));
    assert_eq!(read("0x").unwrap_err(), "Parse error: cannot parse integer from empty string");
    assert_eq!(read("0xg").unwrap_err(), "Parse error: invalid digit found in string");
    assert_eq!(
        read("0x10000000000000000").unwrap_err(),
        "Parse error: number too large to fit in target type"
    );
    assert_eq!(read_block_number(&None).unwrap_err(), "Invalid response");
}

fn log_json(address: u8, topics: &[u8], data: &str) -> String {
    let topics: Vec<String> =
        topics.iter().map(|t| format!("\"0x{}\"", format!("{:02x}", t).repeat(32))).collect();
    format!(
        "{{\"address\":\"0x{}\",\"topics\":[{}],\"data\":\"{}\",\"blockHash\":null,\
         \"blockNumber\":\"0x5\",\"transactionHash\":null,\"transactionIndex\":null,\
         \"logIndex\":\"0x0\",\"removed\":false}}",
        format!("{:02x}", address).repeat(20),
        topics.join(","),
        data
    )
}

fn logs_reply(logs: &[String]) -> Result<Vec<u8>, String> {
    body(&format!("{{\"jsonrpc\":\"2.0\",\"id\":1,\"result\":[{}]}}", logs.join(",")))
}

#[test]
fn logs_are_read_from_replies() {
    let logs = read_logs(&logs_reply(&[log_json(1, &[7, 8], "0x0a0B"), log_json(2, &[], "0x")]));
    assert_eq!(logs.len(), 2);
    assert_eq!(logs[0].address, [1; 20]);
    assert_eq!(logs[0].topics, vec![[7; 32], [8; 32]]);
    assert_eq!(logs[0].data, vec![10, 11]);
    assert_eq!(logs[1].address, [2; 20]);
    assert!(logs[1].topics.is_empty());
    assert!(logs[1].data.is_empty());
}

#[test]
fn replies_without_logs_list_none() {
    assert!(read_logs(&Err("refused".to_string())).is_empty());
    for text in [
        "{\"result\":null}",
        "{\"result\":[]}",
        "{\"result\":\"null\"}",
        "{\"result\":{}}",
        "{\"error\":{\"code\":-32000}}",
        "[]",
        "",
        "{\"result\":[{\"address\":\"0x01\"}]}",
    ] {
        assert!(read_logs(&body(text)).is_empty());
    }
    let one_bad = [log_json(1, &[7], "0x0a"), log_json(2, &[8], "zz")];
    assert!(read_logs(&logs_reply(&one_bad)).is_empty());
}

#[test]
fn null_results_list_nothing() {
    assert_eq!(find_listed_text(None), None);
    assert_eq!(find_listed_text(Some("null".to_string())), None);
    assert_eq!(find_listed_text(Some("[]".to_string())), Some("[]".to_string()));
    assert_eq!(find_listed_text(Some("\"null\"".to_string())), Some("\"null\"".to_string()));
    assert!(logs_or_none(None).is_empty());
    let log = RawLog { address: [3; 20], topics: vec![[4; 32]], data: vec![5] };
    let logs = logs_or_none(Some(vec![log]));
    assert_eq!((logs[0].address, logs[0].data.clone()), ([3; 20], vec![5]));
}

fn decoded(confirmed: bool, activated: bool, deleted: bool) -> DecodedLog {
    DecodedLog {
        download_confirmed: confirmed.then_some([1; 32]),
        file_activated: activated.then_some([2; 32]),
        file_deleted: deleted.then_some([3; 32]),
    }
}

#[test]
fn logs_are_the_first_event_that_fits() {
    let all = classify_log(&decoded(true, true, true));
    assert!(matches!(all, Some(ChainEvent::DownloadKeyConfirmed(k)) if k == [1; 32]));
    let two = classify_log(&decoded(false, true, true));
    assert!(matches!(two, Some(ChainEvent::FileActivated(k)) if k == [2; 32]));
    let one = classify_log(&decoded(false, false, true));
    assert!(matches!(one, Some(ChainEvent::FileDeleted(k)) if k == [3; 32]));
    assert!(classify_log(&decoded(false, false, false)).is_none());
}

#[test]
fn blocks_are_asked_about_in_turn() {
    let (s, a) = listen_download_confirmed_events(PollState::Start, PollEvent::Block(Ok(10)));
    assert!(matches!(a, PollAction::FetchBlock));
    let (s, a) = listen_download_confirmed_events(s, PollEvent::Block(Ok(12)));
    assert!(matches!(a, PollAction::Sleep { millis: 2500 }));
    let (s, a) = listen_download_confirmed_events(s, PollEvent::Woke);
    assert!(matches!(a, PollAction::FetchLogs { from_block: 11, to_block: 12 }));
    let (s, a) = listen_download_confirmed_events(s, PollEvent::Fetched(body("{\"result\":null}")));
    assert!(matches!(a, PollAction::Sleep { millis: 2000 }));
    let (s, a) = listen_download_confirmed_events(s, PollEvent::Woke);
    assert!(matches!(a, PollAction::FetchBlock));
    let (s, a) = listen_download_confirmed_events(s, PollEvent::Block(Err("down".to_string())));
    assert!(matches!(a, PollAction::Sleep { millis: 2000 }));
    let (s, _) = listen_download_confirmed_events(s, PollEvent::Woke);
    let (s, a) = listen_download_confirmed_events(s, PollEvent::Block(Ok(12)));
    assert!(matches!(a, PollAction::Sleep { millis: 2000 }));
    let (s, _) = listen_download_confirmed_events(s, PollEvent::Woke);
    let (s, _) = listen_download_confirmed_events(s, PollEvent::Block(Ok(20)));
    let (_, a) = listen_download_confirmed_events(s, PollEvent::Woke);
    assert!(matches!(a, PollAction::FetchLogs { from_block: 13, to_block: 20 }));
}

#[test]
fn listeners_start_anew() {
    let event = PollEvent::Block(Err("down".to_string()));
    let (s, a) = listen_download_confirmed_events(PollState::Start, event);
    match a {
        PollAction::Restart { reason, millis } => {
            assert_eq!(reason, "Failed to get initial block number: down");
            assert_eq!(millis, 100);
        }
        other => panic!("{:?}", other),
    }
    let (s, a) = listen_download_confirmed_events(s, PollEvent::Woke);
    assert!(matches!(s, PollState::Start));
    assert!(matches!(a, PollAction::FetchBlock));
    let (s, a) = listen_download_confirmed_events(s, PollEvent::Acted);
    assert!(matches!(s, PollState::Start));
    assert!(matches!(a, PollAction::Ignore));
}

#[test]
fn only_events_of_valid_contracts_are_acted_on() {
    let reply = logs_reply(&[
        log_json(1, &[7], "0x01"),
        log_json(2, &[8], "0x02"),
        log_json(3, &[9, 7], "0x03"),
    ]);
    let fetching = PollState::Fetching { current_block: 5 };
    let (s, a) = listen_download_confirmed_events(fetching, PollEvent::Fetched(reply));
    assert!(matches!(a, PollAction::CheckContract { address } if address == [1; 20]));
    let (s, a) = listen_download_confirmed_events(s, PollEvent::Validity(false));
    assert!(matches!(a, PollAction::CheckContract { address } if address == [2; 20]));
    let (s, a) = listen_download_confirmed_events(s, PollEvent::Validity(true));
    assert!(matches!(a, PollAction::Decode { log } if log.data == vec![2]));
    let (s, a) =
        listen_download_confirmed_events(s, PollEvent::Decoded(decoded(false, false, false)));
    assert!(matches!(a, PollAction::CheckContract { address } if address == [3; 20]));
    let (s, a) = listen_download_confirmed_events(s, PollEvent::Validity(true));
    match a {
        PollAction::Decode { log } => {
            assert_eq!(log.address, [3; 20]);
            assert_eq!(log.topics, vec![[9; 32], [7; 32]]);
            assert_eq!(log.data, vec![3]);
        }
        other => panic!("{:?}", other),
    }
    let (s, a) =
        listen_download_confirmed_events(s, PollEvent::Decoded(decoded(false, false, true)));
    assert!(matches!(a, PollAction::Act(ChainEvent::FileDeleted(k)) if k == [3; 32]));
    let (s, a) = listen_download_confirmed_events(s, PollEvent::Acted);
    assert!(matches!(a, PollAction::Sleep { millis: 2000 }));
    assert!(matches!(s, PollState::Resting { last_block: 5 }));
}

fn caches() -> Caches {
    let mut caches = Caches::new();
    let session = DownloadSession {
        download_key: String::new(),
        file_key: String::new(),
        file_owner: [1; 20],
        remaining_chunks: 0,
        total_chunks: 0,
        first_ip: IpAddr::V4(4),
        retry_remaining: 0,
        confirmed_at: None,
        verified_signature: None,
        is_public: false,
        whitelist: vec![],
        created_at: 0,
    };
    caches.put_session("07".repeat(32), session);
    let info =
        UploadFileInfo { verified_address: [0; 20], merkle_root: String::new(), total_chunks: 1 };
    caches.put_upload("08".repeat(32), info);
    caches
}

#[test]
fn confirmed_downloads_are_dropped() {
    let mut c = caches();
    assert!(process_download_confirmed_event(&mut c, &[9; 32], 5).is_none());
    let key = process_download_confirmed_event(&mut c, &[7; 32], 5).unwrap();
    assert_eq!(key, "07".repeat(32));
    assert_eq!(c.session(&key).unwrap().confirmed_at, Some(5));
    assert!(drop_confirmed_session(&mut c, &key));
    assert!(!drop_confirmed_session(&mut c, &key));
    assert!(c.session(&key).is_none());
}

#[test]
fn active_files_are_no_longer_uploaded() {
    let mut c = caches();
    assert_eq!(process_file_activated_event(&mut c, &[8; 32]), "08".repeat(32));
    assert!(c.upload(&"08".repeat(32)).is_none());
}

#[test]
fn deleted_files_leave_the_disk() {
    let mut c = caches();
    let key = "08".repeat(32);
    let path_of = |a: &DeleteAction| match a {
        DeleteAction::RemoveTree { path } => format!("tree {}", path),
        DeleteAction::RemoveEmpty { path } => format!("empty {}", path),
        DeleteAction::CloseFiles { key } => format!("close {}", key),
        DeleteAction::Ignore => "ignore".to_string(),
    };
    let (s, a) =
        process_file_deleted_event(&mut c, "r", &[8; 32], DeleteState::Start, DeleteEvent::Begin);
    assert_eq!(path_of(&a), format!("tree r/08/08/{}", key));
    let (s, a) = process_file_deleted_event(&mut c, "r", &[8; 32], s, DeleteEvent::Removed(true));
    assert_eq!(path_of(&a), "empty r/08/08");
    assert!(c.upload(&key).is_some());
    let (s, a) = process_file_deleted_event(&mut c, "r", &[8; 32], s, DeleteEvent::Removed(false));
    assert_eq!(path_of(&a), "empty r/08");
    let (s, a) = process_file_deleted_event(&mut c, "r", &[8; 32], s, DeleteEvent::Removed(true));
    assert_eq!(path_of(&a), format!("close {}", key));
    assert!(c.upload(&key).is_none());
    let (_, a) = process_file_deleted_event(&mut c, "r", &[8; 32], s, DeleteEvent::Begin);
    assert_eq!(path_of(&a), "ignore");
    let mut c = caches();
    let (_, a) = process_file_deleted_event(
        &mut c,
        "r",
        &[8; 32],
        DeleteState::RemovingTree,
        DeleteEvent::Removed(false),
    );
    assert_eq!(path_of(&a), format!("close {}", key));
    assert!(c.upload(&key).is_none());
}
