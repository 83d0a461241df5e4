use storage_node::cache::Caches;
use storage_node::listing::{DirEntry, DirListing, LogFile};
use storage_node::models::{
    Command, DownloadChunkPayload, DownloadSession, GetLogContentPayload, IpAddr, ListChunksPayload,
    LogsContentResponse, UploadChunkPayload,
};
use storage_node::server::{
    encode_chunk, handle_command, handle_connection, request_line, response_line, take_text,
    ConnectionAction, ConnectionEvent, ConnectionState, Response, TaskAction, TaskEvent, TaskState,
};

fn generic(response: Response) -> (String, String) {
    match response {
        Response::Generic(g) => (g.status, g.message),
        other => panic!("{:?}", other),
    }
}

fn error(text: &str) -> (String, String) {
    ("ERROR".to_string(), text.to_string())
}

fn reply(action: TaskAction) -> Response {
    match action {
        TaskAction::Reply(response) => response,
        other => panic!("{:?}", other),
    }
}

fn refusal(response: Response) -> String {
    match response {
        Response::Download(r) => {
            assert_eq!(r.status, "ERROR");
            assert_eq!(r.chunk_data_base64, None);
            r.message
        }
        other => panic!("{:?}", other),
    }
}

fn step(caches: &mut Caches, state: TaskState, event: TaskEvent) -> (TaskState, TaskAction) {
    handle_command(caches, "root", "log_80", state, event)
}

#[test]
fn lines_are_trimmed_and_ended() {
    assert_eq!(request_line(" {} \r\n").as_deref(), Some("{}"));
    assert_eq!(request_line(" \n"), None);
    assert_eq!(response_line(b"{}".to_vec()), b"{}\n".to_vec());
}

#[test]
fn connections_turn_lines_into_commands() {
    let (s, a) = handle_connection(ConnectionState::AwaitStream, ConnectionEvent::Accepted(true));
    assert!(matches!(a, ConnectionAction::Receive));
    let bytes = b"  {\"a\":\xff1}\n".to_vec();
    let (s, a) = handle_connection(s, ConnectionEvent::Received(Some(bytes)));
    assert!(matches!(a, ConnectionAction::Parse { line } if line == "{\"a\":\u{fffd}1}"));
    let command = Command::GetLogList { payload: None };
    let (s, a) = handle_connection(s, ConnectionEvent::Parsed(Ok(command)));
    assert!(matches!(a, ConnectionAction::Spawn(Command::GetLogList { .. })));
    assert_eq!(s, ConnectionState::AwaitStream);
}

#[test]
fn connections_pass_over_silence_and_refuse_nonsense() {
    let data = ConnectionState::AwaitData;
    for received in [None, Some(vec![]), Some(b" \n ".to_vec())] {
        let (s, a) = handle_connection(data, ConnectionEvent::Received(received));
        assert_eq!(s, ConnectionState::AwaitStream);
        assert!(matches!(a, ConnectionAction::Accept));
    }
    let event = ConnectionEvent::Parsed(Err("eof".to_string()));
    let (s, a) = handle_connection(ConnectionState::AwaitCommand, event);
    assert_eq!(s, ConnectionState::AwaitStream);
    match a {
        ConnectionAction::Refuse(r) => assert_eq!(generic(r), error("Invalid command format")),
        other => panic!("{:?}", other),
    }
    let (s, a) = handle_connection(ConnectionState::AwaitStream, ConnectionEvent::Accepted(false));
    assert_eq!(s, ConnectionState::Closed);
    assert!(matches!(a, ConnectionAction::Stop));
    let (s, a) = handle_connection(ConnectionState::Closed, ConnectionEvent::Accepted(true));
    assert_eq!(s, ConnectionState::Closed);
    assert!(matches!(a, ConnectionAction::Ignore));
    let (s, a) = take_text(" x ");
    assert_eq!(s, ConnectionState::AwaitCommand);
    assert!(matches!(a, ConnectionAction::Parse { line } if line == "x"));
}

fn upload() -> UploadChunkPayload {
    UploadChunkPayload {
        file_key: "abcdef".to_string(),
        chunk_index: 2,
        signature: "s".to_string(),
        merkle_proof_hashes: vec![],
        merkle_root: "r".to_string(),
    }
}

#[test]
fn uploads_are_stored() {
    let mut caches = Caches::new();
    let begin = TaskEvent::Begin(Command::UploadChunk { payload: upload() });
    let (s, a) = step(&mut caches, TaskState::Start, begin);
    assert!(matches!(a, TaskAction::Acquire));
    let (s, a) = step(&mut caches, s, TaskEvent::Permit(true));
    assert!(matches!(a, TaskAction::ReceiveChunk));
    let (s, a) = step(&mut caches, s, TaskEvent::ChunkReceived(Some(vec![1, 2])));
    match a {
        TaskAction::VerifyUpload { payload, data } => {
            assert_eq!(payload.file_key, "abcdef");
            assert_eq!(data, vec![1, 2]);
        }
        other => panic!("{:?}", other),
    }
    let (s, a) = step(&mut caches, s, TaskEvent::UploadVerified(Ok(())));
    match a {
        TaskAction::Store { plan, data } => {
            assert_eq!(data, vec![1, 2]);
            assert_eq!(plan.offset, 512_000);
            assert_eq!(plan.dir, "root/ab/cd/abcdef");
            assert_eq!(plan.meta_line, "2\n");
        }
        other => panic!("{:?}", other),
    }
    let (_, a) = step(&mut caches, s, TaskEvent::Stored(true));
    let stored = ("SUCCESS".to_string(), "Chunk stored successfully".to_string());
    assert_eq!(generic(reply(a)), stored);
}

#[test]
fn uploads_fail_in_words() {
    let mut caches = Caches::new();
    let (_, a) =
        step(&mut caches, TaskState::UploadPermit { payload: upload() }, TaskEvent::Permit(false));
    assert_eq!(generic(reply(a)), error("Server is shutting down"));
    let state = TaskState::UploadData { payload: upload() };
    let (_, a) = step(&mut caches, state, TaskEvent::ChunkReceived(None));
    assert_eq!(generic(reply(a)), error("Failed to receive binary chunk data"));
    let verify = |key: &str, chunk_index: u64| TaskState::UploadVerify {
        file_key: key.to_string(),
        chunk_index,
        data: vec![9],
    };
    let event = TaskEvent::UploadVerified(Err("no".to_string()));
    let (_, a) = step(&mut caches, verify("abcdef", 0), event);
    assert_eq!(generic(reply(a)), error("Verification failed: no"));
    let unplaced = error("Failed to store chunk on disk");
    let (_, a) = step(&mut caches, verify("abc", 0), TaskEvent::UploadVerified(Ok(())));
    assert_eq!(generic(reply(a)), unplaced);
    let (_, a) = step(&mut caches, verify("abcd", u64::MAX), TaskEvent::UploadVerified(Ok(())));
    assert_eq!(generic(reply(a)), unplaced);
    let (_, a) = step(&mut caches, TaskState::UploadStore, TaskEvent::Stored(false));
    assert_eq!(generic(reply(a)), unplaced);
}

fn asked() -> DownloadChunkPayload {
    DownloadChunkPayload {
        file_key: "abcdef".to_string(),
        download_key: "dk".to_string(),
        chunk_index: 1,
        signature: "s".to_string(),
    }
}

fn session(remaining: u64, retry: u64) -> DownloadSession {
    DownloadSession {
        download_key: "dk".to_string(),
        file_key: "fedcba".to_string(),
        file_owner: [1; 20],
        remaining_chunks: remaining,
        total_chunks: 2,
        first_ip: IpAddr::V4(4),
        retry_remaining: retry,
        confirmed_at: None,
        verified_signature: None,
        is_public: true,
        whitelist: vec![],
        created_at: 0,
    }
}

#[test]
fn downloads_carry_their_chunk_in_base64() {
    let mut caches = Caches::new();
    caches.put_session("dk".to_string(), session(1, 0));
    let begin = TaskEvent::Begin(Command::DownloadChunkRequest { payload: asked() });
    let (s, a) = step(&mut caches, TaskState::Start, begin);
    assert!(matches!(a, TaskAction::Acquire));
    let (s, a) = step(&mut caches, s, TaskEvent::Permit(true));
    match a {
        TaskAction::VerifyDownload { payload } => {
            assert_eq!(payload.download_key, "dk");
            assert_eq!(payload.file_key, "abcdef");
            assert_eq!(payload.chunk_index, 1);
            assert_eq!(payload.signature, "s");
        }
        other => panic!("{:?}", other),
    }
    let (s, a) = step(&mut caches, s, TaskEvent::DownloadVerified(Ok(true)));
    match a {
        TaskAction::ReadChunk { file_key, offset, limit } => {
            assert_eq!((file_key.as_str(), offset, limit), ("fedcba", 1_048_576, 1_048_576))
        }
        other => panic!("{:?}", other),
    }
    let (s, a) = step(&mut caches, s, TaskEvent::ChunkRead(Some(b"hello".to_vec())));
    match a {
        TaskAction::Send(Response::Download(r)) => {
            assert_eq!(r.status, "SUCCESS");
            assert_eq!(r.message, "");
            assert_eq!(r.chunk_data_base64.as_deref(), Some("aGVsbG8="));
        }
        other => panic!("{:?}", other),
    }
    let (_, a) = step(&mut caches, s, TaskEvent::Sent(true));
    assert!(matches!(a, TaskAction::Done { should_confirm: true }));
    assert_eq!(caches.session("dk").unwrap().remaining_chunks, 0);
}

#[test]
fn base64_pads_to_groups_of_four() {
    for (data, text) in [
        (&b""[..], ""),
        (b"f", "Zg=="),
        (b"fo", "Zm8="),
        (b"foo", "Zm9v"),
        (b"\xfb\xff\xfe", "+//+"),
        (b"foobar", "Zm9vYmFy"),
    ] {
        let response = encode_chunk(Some(data.to_vec()));
        assert_eq!(response.chunk_data_base64.as_deref(), Some(text));
    }
}

#[test]
fn chunks_count_only_when_they_went_out() {
    let mut caches = Caches::new();
    caches.put_session("dk".to_string(), session(0, 1));
    let sending = || TaskState::DownloadSend { download_key: "dk".to_string() };
    let (_, a) = step(&mut caches, sending(), TaskEvent::Sent(false));
    assert!(matches!(a, TaskAction::Done { should_confirm: false }));
    assert_eq!(caches.session("dk").unwrap().retry_remaining, 1);
    let (_, a) = step(&mut caches, sending(), TaskEvent::Sent(true));
    assert!(matches!(a, TaskAction::Done { should_confirm: false }));
    assert_eq!(caches.session("dk").unwrap().retry_remaining, 0);
    let (_, a) = step(&mut caches, sending(), TaskEvent::Sent(true));
    assert!(matches!(a, TaskAction::Done { should_confirm: false }));
}

#[test]
fn downloads_fail_in_words() {
    let mut caches = Caches::new();
    let state = TaskState::DownloadPermit { payload: asked() };
    let (_, a) = step(&mut caches, state, TaskEvent::Permit(false));
    assert_eq!(generic(reply(a)), error("Server is shutting down"));
    let verify = || TaskState::DownloadVerify { payload: asked() };
    let (_, a) = step(&mut caches, verify(), TaskEvent::DownloadVerified(Ok(false)));
    assert_eq!(refusal(reply(a)), "Ownership or signature verification failed");
    let event = TaskEvent::DownloadVerified(Err("no".to_string()));
    let (_, a) = step(&mut caches, verify(), event);
    assert_eq!(refusal(reply(a)), "Verification error: no");
    let (_, a) = step(&mut caches, verify(), TaskEvent::DownloadVerified(Ok(true)));
    assert_eq!(refusal(reply(a)), "Download session not found, please verify first.");
    caches.put_session("dk".to_string(), session(0, 0));
    let (_, a) = step(&mut caches, verify(), TaskEvent::DownloadVerified(Ok(true)));
    assert_eq!(refusal(reply(a)), "No remaining downloads for this key");
    let state = TaskState::DownloadRead { download_key: "dk".to_string() };
    let (_, a) = step(&mut caches, state, TaskEvent::ChunkRead(None));
    assert_eq!(refusal(reply(a)), "Chunk data not found");
}

#[test]
fn chunks_are_listed() {
    let mut caches = Caches::new();
    let payload = ListChunksPayload { file_key: "abcdef".to_string() };
    let begin = TaskEvent::Begin(Command::ListChunksRequest { payload });
    let (s, a) = step(&mut caches, TaskState::Start, begin);
    assert!(matches!(a, TaskAction::ListDir { path } if path == "root/ab/cd/abcdef"));
    let entries = vec![
        DirEntry::File(Some("4".to_string())),
        DirEntry::File(Some("1".to_string())),
        DirEntry::File(Some("x".to_string())),
    ];
    let (_, a) = step(&mut caches, s, TaskEvent::Listed(DirListing::Entries(entries)));
    match reply(a) {
        Response::ListChunks(r) => {
            assert_eq!(r.status, "SUCCESS");
            assert_eq!(r.message, "Found 2 chunks");
            assert_eq!(r.chunk_indices, vec![1, 4]);
        }
        other => panic!("{:?}", other),
    }
    let (_, a) = step(&mut caches, TaskState::Listing, TaskEvent::Listed(DirListing::Missing));
    assert_eq!(generic(reply(a)), error("File path does not exist"));
}

#[test]
fn logs_are_listed() {
    let mut caches = Caches::new();
    let begin = TaskEvent::Begin(Command::GetLogList { payload: None });
    let (s, a) = step(&mut caches, TaskState::Start, begin);
    assert!(matches!(a, TaskAction::ListLogs));
    let files = vec![
        LogFile { name: "old".to_string(), modified: 1 },
        LogFile { name: "new".to_string(), modified: 2 },
    ];
    let (_, a) = step(&mut caches, s, TaskEvent::LogsListed(Ok(files)));
    match reply(a) {
        Response::LogsList(r) => {
            assert_eq!(r.status, "SUCCESS");
            assert_eq!(r.message, "Found 2 log files.");
            assert_eq!(r.available_files, ["new", "old"]);
        }
        other => panic!("{:?}", other),
    }
    let event = TaskEvent::LogsListed(Err("denied".to_string()));
    let (_, a) = step(&mut caches, TaskState::LogList, event);
    match reply(a) {
        Response::LogsList(r) => {
            assert_eq!(r.status, "ERROR");
            assert_eq!(r.message, "Failed to read log directory: denied");
            assert!(r.available_files.is_empty());
        }
        other => panic!("{:?}", other),
    }
}

fn log_reply(action: TaskAction) -> LogsContentResponse {
    match reply(action) {
        Response::LogsContent(r) => r,
        other => panic!("{:?}", other),
    }
}

#[test]
fn logs_are_read() {
    let mut caches = Caches::new();
    let begin = |name: &str| {
        let payload = GetLogContentPayload { file_name: name.to_string() };
        TaskEvent::Begin(Command::GetLogContent { payload })
    };
    let (s, a) = step(&mut caches, TaskState::Start, begin("app.log"));
    assert!(matches!(a, TaskAction::Probe { path } if path == "log_80/app.log"));
    let (s, a) = step(&mut caches, s, TaskEvent::Probed(true));
    assert!(matches!(a, TaskAction::LoadLog { path } if path == "log_80/app.log"));
    let (_, a) = step(&mut caches, s, TaskEvent::LogLoaded(Ok("lines".to_string())));
    let r = log_reply(a);
    assert_eq!(r.status, "SUCCESS");
    assert_eq!(r.message, "Retrieved content for file: app.log");
    let content = r.log_content.unwrap();
    assert_eq!(content.file_name, "app.log");
    assert_eq!(content.content, "lines");
    let missing = "Error: File '/etc/passwd' not found or invalid.";
    let (_, a) = step(&mut caches, TaskState::Start, begin("/etc/passwd"));
    let r = log_reply(a);
    assert_eq!((r.status.as_str(), r.message.as_str()), ("ERROR", missing));
    assert!(r.log_content.is_none());
    let probe = TaskState::LogProbe { file_name: "gone".to_string() };
    let (_, a) = step(&mut caches, probe, TaskEvent::Probed(false));
    assert_eq!(log_reply(a).message, "Error: File 'gone' not found or invalid.");
    let read = TaskState::LogRead { file_name: "bin".to_string() };
    let (_, a) = step(&mut caches, read, TaskEvent::LogLoaded(Err("utf8".to_string())));
    let r = log_reply(a);
    assert_eq!(r.status, "ERROR");
    assert_eq!(r.message, "Found file 'bin', but failed to read its content: utf8");
    assert!(r.log_content.is_none());
}

#[test]
fn logs_are_sought_in_the_log_directory_alone() {
    let mut caches = Caches::new();
    for name in ["../secret.txt", "a/../../b", "..", "/log_80/../x", "../log_8/app.log", "x/../../log_80x"] {
        let payload = GetLogContentPayload { file_name: name.to_string() };
        let begin = TaskEvent::Begin(Command::GetLogContent { payload });
        let (s, a) = step(&mut caches, TaskState::Start, begin);
        assert!(matches!(s, TaskState::Finished));
        let r = log_reply(a);
        assert_eq!(r.status, "ERROR");
        assert_eq!(r.message, format!("Error: File '{}' not found or invalid.", name));
        assert!(r.log_content.is_none());
    }
    for name in [
        "a..b",
        "sub/app.log",
        "...",
        ".hidden",
        "d/../app.log",
        "a/b/../../c/../app.log",
        "sub/..",
        "../log_80/app.log",
    ] {
        let payload = GetLogContentPayload { file_name: name.to_string() };
        let begin = TaskEvent::Begin(Command::GetLogContent { payload });
        let (_, a) = step(&mut caches, TaskState::Start, begin);
        let wanted = format!("log_80/{}", name);
        assert!(matches!(a, TaskAction::Probe { path } if path == wanted));
    }
}

#[test]
fn stray_task_events_change_nothing() {
    let mut caches = Caches::new();
    let (s, a) = step(&mut caches, TaskState::UploadStore, TaskEvent::Permit(true));
    assert!(matches!(s, TaskState::UploadStore));
    assert!(matches!(a, TaskAction::Ignore));
}
