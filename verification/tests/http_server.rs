use storage_node::cache::Caches;
use storage_node::http_server::{
    decode_chunk, download_chunk_handler, forwarded_address, GetAction, GetEvent, GetState,
};
use storage_node::models::{DownloadSession, IpAddr};
use storage_node::server::ChunkResponse;

const PEER: IpAddr = IpAddr::V4(9);

fn session(remaining: u64) -> DownloadSession {
    DownloadSession {
        download_key: "dk".to_string(),
        file_key: "abcdef".to_string(),
        file_owner: [1; 20],
        remaining_chunks: remaining,
        total_chunks: 1,
        first_ip: PEER,
        retry_remaining: 0,
        confirmed_at: None,
        verified_signature: None,
        is_public: true,
        whitelist: vec![],
        created_at: 0,
    }
}

fn step(caches: &mut Caches, state: GetState, event: GetEvent) -> (GetState, GetAction) {
    download_chunk_handler(caches, "dk", 2, PEER, state, event)
}

fn refusal(action: GetAction) -> (u16, String) {
    match action {
        GetAction::Refuse { status, message } => (status, message),
        other => panic!("{:?}", other),
    }
}

#[test]
fn forwarded_addresses_stand_first() {
    assert_eq!(forwarded_address(" 10.0.0.1 , 10.0.0.2"), "10.0.0.1");
    assert_eq!(forwarded_address("::1"), "::1");
    assert_eq!(forwarded_address(""), "");
}

#[test]
fn chunks_are_served() {
    let mut caches = Caches::new();
    caches.put_session("dk".to_string(), session(1));
    let event = GetEvent::Headers { forwarded: None, signature: Some("s".to_string()) };
    let (s, a) = step(&mut caches, GetState::Start, event);
    match a {
        GetAction::Verify { payload, request_ip } => {
            assert_eq!(request_ip, PEER);
            assert_eq!(payload.download_key, "dk");
            assert_eq!(payload.chunk_index, 2);
            assert_eq!(payload.signature, "s");
            assert_eq!(payload.file_key, "");
        }
        other => panic!("{:?}", other),
    }
    let (s, a) = step(&mut caches, s, GetEvent::Verified(Ok(true)));
    match a {
        GetAction::Read { file_key, offset, limit } => {
            assert_eq!((file_key.as_str(), offset, limit), ("abcdef", 2_097_152, 1_048_576))
        }
        other => panic!("{:?}", other),
    }
    let (_, a) = step(&mut caches, s, GetEvent::ChunkRead(Some(vec![0, 255, 7])));
    match a {
        GetAction::Serve { status, content_type, cache_control, body, should_confirm } => {
            assert_eq!(status, 200);
            assert_eq!(content_type, "application/octet-stream");
            assert_eq!(cache_control, "no-store");
            assert_eq!(body, vec![0, 255, 7]);
            assert!(should_confirm);
        }
        other => panic!("{:?}", other),
    }
    assert_eq!(caches.session("dk").unwrap().remaining_chunks, 0);
}

#[test]
fn proxies_name_the_client() {
    let mut caches = Caches::new();
    let event =
        GetEvent::Headers { forwarded: Some(IpAddr::V6(5)), signature: Some(String::new()) };
    let (_, a) = step(&mut caches, GetState::Start, event);
    assert!(matches!(a, GetAction::Verify { request_ip: IpAddr::V6(5), .. }));
}

#[test]
fn gets_are_refused() {
    let mut caches = Caches::new();
    let event = GetEvent::Headers { forwarded: None, signature: None };
    let (_, a) = step(&mut caches, GetState::Start, event);
    assert_eq!(refusal(a), (401, "Missing X-Signature header".to_string()));
    let (_, a) = step(&mut caches, GetState::AwaitVerify, GetEvent::Verified(Ok(false)));
    assert_eq!(refusal(a), (401, "Verification failed".to_string()));
    let event = GetEvent::Verified(Err("why".to_string()));
    let (_, a) = step(&mut caches, GetState::AwaitVerify, event);
    assert_eq!(refusal(a), (403, "why".to_string()));
    let (_, a) = step(&mut caches, GetState::AwaitVerify, GetEvent::Verified(Ok(true)));
    assert_eq!(refusal(a), (500, "Session not found after verify".to_string()));
    caches.put_session("dk".to_string(), session(0));
    let (_, a) = step(&mut caches, GetState::AwaitVerify, GetEvent::Verified(Ok(true)));
    assert_eq!(refusal(a), (500, "No remaining downloads for this key".to_string()));
    let (_, a) = step(&mut caches, GetState::AwaitRead, GetEvent::ChunkRead(None));
    assert_eq!(refusal(a), (500, "Chunk data not found".to_string()));
    let (_, a) = step(&mut caches, GetState::Finished, GetEvent::ChunkRead(None));
    assert!(matches!(a, GetAction::Ignore));
}

#[test]
fn chunks_are_taken_out_of_responses() {
    let response = |text: Option<&str>| ChunkResponse {
        status: "SUCCESS".to_string(),
        message: String::new(),
        chunk_data_base64: text.map(|t| t.to_string()),
    };
    assert_eq!(decode_chunk(&response(Some("Zm9v"))), b"foo".to_vec());
    assert_eq!(decode_chunk(&response(Some("not base64!"))), Vec::<u8>::new());
    assert_eq!(decode_chunk(&response(None)), Vec::<u8>::new());
}
