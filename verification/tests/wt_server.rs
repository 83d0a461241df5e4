use storage_node::cache::Caches;
use storage_node::frame::{build_frame, FrameEvent, FrameState, ResponseHeader};
use storage_node::models::{DownloadSession, IpAddr, UploadChunkPayload, UploadFileInfo};
use storage_node::wt_server::{
    handle_download_chunk, handle_stream, handle_upload_chunk, StreamAction, StreamEvent,
    StreamState, WtDownloadAction, WtDownloadEvent, WtDownloadPayload, WtDownloadState, WtRequest,
    WtUploadAction, WtUploadEvent, WtUploadState,
};

fn error_of(header: ResponseHeader, id: &str, command: &str) -> String {
    assert_eq!(header.id, id);
    assert_eq!(header.command, command);
    assert_eq!(header.status, "error");
    assert_eq!(header.chunk_index, None);
    header.message.unwrap()
}

fn success_of(header: ResponseHeader, id: &str) -> u64 {
    assert_eq!(header.id, id);
    assert_eq!(header.command, "chunk_response");
    assert_eq!(header.status, "success");
    assert_eq!(header.message, None);
    header.chunk_index.unwrap()
}

fn stream_start() -> StreamState {
    StreamState::Reading(FrameState::AwaitLength)
}

#[test]
fn streams_are_read_and_dispatched() {
    let frame = build_frame(b"{}", b"raw");
    let (s, a) = handle_stream(
        stream_start(),
        StreamEvent::Frame(FrameEvent::Bytes(frame[0..4].to_vec())),
    );
    assert!(matches!(a, StreamAction::Read { count: 2 }));
    let (s, a) = handle_stream(s, StreamEvent::Frame(FrameEvent::Bytes(frame[4..6].to_vec())));
    assert!(matches!(a, StreamAction::Read { count: 2 }));
    let (s, a) = handle_stream(s, StreamEvent::Frame(FrameEvent::Bytes(frame[6..8].to_vec())));
    assert!(matches!(a, StreamAction::Read { count: 3 }));
    let (s, a) = handle_stream(s, StreamEvent::Frame(FrameEvent::Bytes(frame[8..11].to_vec())));
    assert!(matches!(a, StreamAction::Parse { json } if json == b"{}"));
    let request = WtRequest { id: "1".to_string(), command: "upload_chunk".to_string() };
    let (_, a) = handle_stream(s, StreamEvent::Parsed(Ok(request)));
    match a {
        StreamAction::Upload { id, data } => assert_eq!((id.as_str(), &data[..]), ("1", &b"raw"[..])),
        other => panic!("{:?}", other),
    }
}

#[test]
fn bad_streams_are_answered() {
    let event = StreamEvent::Frame(FrameEvent::Failed("eof".to_string()));
    let (_, a) = handle_stream(stream_start(), event);
    match a {
        StreamAction::Reply(h) => {
            assert_eq!(error_of(h, "", ""), "frame_read_error: read length: eof")
        }
        other => panic!("{:?}", other),
    }
    let parsing = || StreamState::Parsing { data: vec![] };
    let (_, a) = handle_stream(parsing(), StreamEvent::Parsed(Err("eof".to_string())));
    match a {
        StreamAction::Reply(h) => assert_eq!(error_of(h, "", ""), "invalid_json: eof"),
        other => panic!("{:?}", other),
    }
    let request = WtRequest { id: "9".to_string(), command: "fly".to_string() };
    let (_, a) = handle_stream(parsing(), StreamEvent::Parsed(Ok(request)));
    match a {
        StreamAction::Reply(h) => assert_eq!(error_of(h, "9", "fly"), "unsupported command"),
        other => panic!("{:?}", other),
    }
    let request = WtRequest { id: "9".to_string(), command: "download_chunk".to_string() };
    let (_, a) = handle_stream(parsing(), StreamEvent::Parsed(Ok(request)));
    assert!(matches!(a, StreamAction::Download { id } if id == "9"));
    let (_, a) = handle_stream(stream_start(), StreamEvent::Parsed(Err(String::new())));
    assert!(matches!(a, StreamAction::Ignore));
}

fn session(remaining: u64) -> DownloadSession {
    DownloadSession {
        download_key: "dk".to_string(),
        file_key: "abcdef".to_string(),
        file_owner: [1; 20],
        remaining_chunks: remaining,
        total_chunks: 1,
        first_ip: IpAddr::V4(4),
        retry_remaining: 0,
        confirmed_at: None,
        verified_signature: None,
        is_public: true,
        whitelist: vec![],
        created_at: 0,
    }
}

fn request() -> WtDownloadPayload {
    WtDownloadPayload {
        download_key: "dk".to_string(),
        chunk_index: 3,
        signature: "sig".to_string(),
    }
}

fn download_error(action: WtDownloadAction) -> String {
    match action {
        WtDownloadAction::Reply(h) => error_of(h, "7", "chunk_response"),
        other => panic!("{:?}", other),
    }
}

#[test]
fn chunks_are_downloaded_and_counted() {
    let mut caches = Caches::new();
    caches.put_session("dk".to_string(), session(1));
    let event = WtDownloadEvent::Payload(Ok(request()));
    let (s, a) = handle_download_chunk(&mut caches, "7", WtDownloadState::Start, event);
    match a {
        WtDownloadAction::Verify { payload } => {
            assert_eq!(payload.file_key, "");
            assert_eq!(payload.download_key, "dk");
            assert_eq!(payload.chunk_index, 3);
            assert_eq!(payload.signature, "sig");
        }
        other => panic!("{:?}", other),
    }
    let (s, a) = handle_download_chunk(&mut caches, "7", s, WtDownloadEvent::Verified(Ok(true)));
    match a {
        WtDownloadAction::Read { file_key, offset, limit } => {
            assert_eq!((file_key.as_str(), offset, limit), ("abcdef", 3_145_728, 1_048_576))
        }
        other => panic!("{:?}", other),
    }
    let event = WtDownloadEvent::ChunkRead(Some(vec![1, 2, 3]));
    let (s, a) = handle_download_chunk(&mut caches, "7", s, event);
    match a {
        WtDownloadAction::Send { header, data } => {
            assert_eq!(success_of(header, "7"), 3);
            assert_eq!(data, vec![1, 2, 3]);
        }
        other => panic!("{:?}", other),
    }
    let (_, a) = handle_download_chunk(&mut caches, "7", s, WtDownloadEvent::Sent(true));
    assert!(matches!(a, WtDownloadAction::Close { should_confirm: true }));
    assert_eq!(caches.session("dk").unwrap().remaining_chunks, 0);
}

#[test]
fn chunks_that_did_not_go_out_do_not_count() {
    let mut caches = Caches::new();
    caches.put_session("dk".to_string(), session(1));
    let sending = || WtDownloadState::AwaitSend { download_key: "dk".to_string() };
    let (_, a) = handle_download_chunk(&mut caches, "7", sending(), WtDownloadEvent::Sent(false));
    assert!(matches!(a, WtDownloadAction::Stop));
    assert_eq!(caches.session("dk").unwrap().remaining_chunks, 1);
    let mut empty = Caches::new();
    let (_, a) = handle_download_chunk(&mut empty, "7", sending(), WtDownloadEvent::Sent(true));
    assert!(matches!(a, WtDownloadAction::Close { should_confirm: false }));
}

#[test]
fn refused_downloads_are_answered() {
    let mut caches = Caches::new();
    let event = WtDownloadEvent::Payload(Err("no field".to_string()));
    let (_, a) = handle_download_chunk(&mut caches, "7", WtDownloadState::Start, event);
    assert_eq!(download_error(a), "invalid payload: no field");
    let verify = || WtDownloadState::AwaitVerify { payload: request() };
    let event = WtDownloadEvent::Verified(Err("IP address mismatch".to_string()));
    let (_, a) = handle_download_chunk(&mut caches, "7", verify(), event);
    assert_eq!(download_error(a), "IP address mismatch");
    let (_, a) = handle_download_chunk(&mut caches, "7", verify(), WtDownloadEvent::Verified(Ok(false)));
    assert_eq!(download_error(a), "verification failed");
    let (_, a) = handle_download_chunk(&mut caches, "7", verify(), WtDownloadEvent::Verified(Ok(true)));
    assert_eq!(download_error(a), "session not found after verify");
    caches.put_session("dk".to_string(), session(0));
    let (_, a) = handle_download_chunk(&mut caches, "7", verify(), WtDownloadEvent::Verified(Ok(true)));
    assert_eq!(download_error(a), "No remaining downloads for this key");
    let read = WtDownloadState::AwaitRead { download_key: "dk".to_string(), chunk_index: 3 };
    let (_, a) = handle_download_chunk(&mut caches, "7", read, WtDownloadEvent::ChunkRead(None));
    assert_eq!(download_error(a), "Chunk data not found");
    let (_, a) =
        handle_download_chunk(&mut caches, "7", WtDownloadState::Start, WtDownloadEvent::Sent(true));
    assert!(matches!(a, WtDownloadAction::Ignore));
}

fn upload(file_key: &str) -> UploadChunkPayload {
    UploadChunkPayload {
        file_key: file_key.to_string(),
        chunk_index: 1,
        signature: "s".to_string(),
        merkle_proof_hashes: vec!["p".to_string()],
        merkle_root: "r".to_string(),
    }
}

fn upload_step(
    caches: &mut Caches,
    state: WtUploadState,
    event: WtUploadEvent,
) -> (WtUploadState, WtUploadAction) {
    handle_upload_chunk(caches, "7", b"data", "root", state, event)
}

fn upload_error(action: WtUploadAction) -> (String, bool) {
    match action {
        WtUploadAction::Reply { header, close } => (error_of(header, "7", "chunk_response"), close),
        other => panic!("{:?}", other),
    }
}

#[test]
fn chunks_are_uploaded_and_tracked() {
    let mut caches = Caches::new();
    let info =
        UploadFileInfo { verified_address: [0; 20], merkle_root: "r".to_string(), total_chunks: 4 };
    caches.put_upload("abcdef".to_string(), info);
    let event = WtUploadEvent::Payload(Ok(upload("0xabcdef")));
    let (s, a) = upload_step(&mut caches, WtUploadState::Start, event);
    match a {
        WtUploadAction::Verify { payload, data } => {
            assert_eq!(data, b"data");
            assert_eq!(payload.file_key, "abcdef");
            assert_eq!(payload.chunk_index, 1);
            assert_eq!(payload.signature, "s");
            assert_eq!(payload.merkle_proof_hashes, ["p"]);
            assert_eq!(payload.merkle_root, "r");
        }
        other => panic!("{:?}", other),
    }
    let verified = WtUploadEvent::Verified(Ok(()));
    let (s, a) = handle_upload_chunk(&mut caches, "7", b"others", "root", s, verified);
    match a {
        WtUploadAction::Write { plan, data } => {
            assert_eq!(data, b"data");
            assert_eq!(plan.bin_path, "root/ab/cd/abcdef/abcdef.bin");
            assert_eq!(plan.offset, 1_048_576);
        }
        other => panic!("{:?}", other),
    }
    let (s, a) = upload_step(&mut caches, s, WtUploadEvent::Written(true));
    match a {
        WtUploadAction::Acknowledge(header) => assert_eq!(success_of(header, "7"), 1),
        other => panic!("{:?}", other),
    }
    let (_, a) = upload_step(&mut caches, s, WtUploadEvent::Acked);
    assert!(matches!(a, WtUploadAction::Close { complete: None }));
    let event = WtUploadEvent::Payload(Ok(upload("abcdef")));
    let (_, a) = upload_step(&mut caches, WtUploadState::Start, event);
    match a {
        WtUploadAction::Reply { header, close } => {
            assert_eq!(success_of(header, "7"), 1);
            assert!(!close);
        }
        other => panic!("{:?}", other),
    }
    let last = WtUploadState::AwaitAck { file_key: "abcdef".to_string(), chunk_index: 3 };
    let (_, a) = upload_step(&mut caches, last, WtUploadEvent::Acked);
    assert!(matches!(a, WtUploadAction::Close { complete: Some(key) } if key == "abcdef"));
}

#[test]
fn refused_uploads_are_answered() {
    let mut caches = Caches::new();
    let event = WtUploadEvent::Payload(Err("x".to_string()));
    let (_, a) = upload_step(&mut caches, WtUploadState::Start, event);
    assert_eq!(upload_error(a), ("invalid payload: x".to_string(), false));
    let event = WtUploadEvent::Payload(Ok(upload("abcdef")));
    let (_, a) = handle_upload_chunk(&mut caches, "7", b"", "root", WtUploadState::Start, event);
    assert_eq!(upload_error(a), ("chunk data is empty".to_string(), false));
    let verify = |key: &str, chunk_index: u64| WtUploadState::AwaitVerify {
        file_key: key.to_string(),
        chunk_index,
        data: vec![9],
    };
    let event = WtUploadEvent::Verified(Err("bad proof".to_string()));
    let (_, a) = upload_step(&mut caches, verify("abcdef", 0), event);
    assert_eq!(upload_error(a), ("bad proof".to_string(), true));
    let disk = ("disk write error".to_string(), true);
    let (_, a) = upload_step(&mut caches, verify("abc", 0), WtUploadEvent::Verified(Ok(())));
    assert_eq!(upload_error(a), disk);
    let (_, a) =
        upload_step(&mut caches, verify("abcd", u64::MAX), WtUploadEvent::Verified(Ok(())));
    assert_eq!(upload_error(a), disk);
    let write = WtUploadState::AwaitWrite { file_key: "abcd".to_string(), chunk_index: 0 };
    let (_, a) = upload_step(&mut caches, write, WtUploadEvent::Written(false));
    assert_eq!(upload_error(a), disk);
    let (_, a) = upload_step(&mut caches, WtUploadState::Finished, WtUploadEvent::Acked);
    assert!(matches!(a, WtUploadAction::Ignore));
}
