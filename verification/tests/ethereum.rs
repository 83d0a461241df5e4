use alloy::signers::local::PrivateKeySigner;
use alloy::signers::SignerSync;
use storage_node::cache::Caches;
use storage_node::crypto::signed_message;
use storage_node::download_manager::{InitEvent, InitState};
use storage_node::ethereum::{
    admit_signer, admit_uploader, batch_keys, check_download, chunk_reply, confirm_upload_batch,
    decode_file_key, handle_confirm_download, handle_download_request, key_is_confirmable,
    remember_signature, upload_fits, verify_download_chunk, verify_upload_chunk, BatchAction, BatchEvent, BatchState, DownloadCheck,
    DownloadStep, UploadAction, UploadEvent, UploadState, VerifyAction,
};
use storage_node::models::{DownloadChunkPayload, DownloadSession, IpAddr, UploadChunkPayload};

const CLIENT: IpAddr = IpAddr::V6(1);

fn signer(seed: u8) -> PrivateKeySigner {
    PrivateKeySigner::from_slice(&[seed; 32]).unwrap()
}

fn address(seed: u8) -> [u8; 20] {
    signer(seed).address().into_array()
}

fn sign(seed: u8, text: &str) -> String {
    let digest = alloy::primitives::keccak256(signed_message(text));
    hex::encode(signer(seed).sign_hash_sync(&digest).unwrap().as_bytes())
}

fn session(owner: [u8; 20]) -> DownloadSession {
    DownloadSession {
        download_key: "dk".to_string(),
        file_key: "ab".repeat(32),
        file_owner: owner,
        remaining_chunks: 1,
        total_chunks: 1,
        first_ip: CLIENT,
        retry_remaining: 0,
        confirmed_at: None,
        verified_signature: None,
        is_public: false,
        whitelist: vec![],
        created_at: 77,
    }
}

fn request(signature: &str) -> DownloadChunkPayload {
    DownloadChunkPayload {
        file_key: String::new(),
        download_key: "dk".to_string(),
        chunk_index: 2,
        signature: signature.to_string(),
    }
}

fn refusal(check: DownloadCheck) -> String {
    match check {
        DownloadCheck::Refused(e) => e,
        other => panic!("{:?}", other),
    }
}

#[test]
fn downloads_are_bound_to_the_first_address() {
    let s = session(address(1));
    let check = check_download(&s, &request(&sign(1, "dk")), IpAddr::V4(1));
    assert_eq!(refusal(check), "IP address mismatch");
}

#[test]
fn public_files_need_no_signature() {
    let mut s = session(address(1));
    s.is_public = true;
    assert!(matches!(check_download(&s, &request("junk"), CLIENT), DownloadCheck::Granted));
}

#[test]
fn owners_and_listed_signers_may_download() {
    let mut s = session(address(1));
    let own = check_download(&s, &request(&sign(1, "dk")), CLIENT);
    assert!(matches!(own, DownloadCheck::GrantedNow));
    let stranger = check_download(&s, &request(&sign(2, "dk")), CLIENT);
    assert_eq!(
        refusal(stranger),
        "Signer address does not match file owner and is not in whitelist"
    );
    s.whitelist = vec![address(3), address(2)];
    let listed = check_download(&s, &request(&sign(2, "dk")), CLIENT);
    assert!(matches!(listed, DownloadCheck::GrantedNow));
    let broken = check_download(&s, &request("ab"), CLIENT);
    assert_eq!(refusal(broken), "Invalid signature length: expected 65, got 1");
}

#[test]
fn outcomes_of_recovery_are_decided_on() {
    let s = session([4; 20]);
    assert!(matches!(admit_signer(&s, Ok([4; 20])), DownloadCheck::GrantedNow));
    assert_eq!(refusal(admit_signer(&s, Err("no".to_string()))), "no");
    assert!(admit_uploader(Ok([4; 20]), &[4; 20]).is_ok());
    assert_eq!(admit_uploader(Err("no".to_string()), &[4; 20]).unwrap_err(), "no");
    assert_eq!(
        admit_uploader(Ok([5; 20]), &[4; 20]).unwrap_err(),
        "Signer is not the authorized admin uploader"
    );
}

#[test]
fn first_accepted_signature_binds() {
    let mut caches = Caches::new();
    let s = session(address(1));
    caches.put_session("dk".to_string(), session(address(1)));
    remember_signature(&mut caches, "dk", &s, "first");
    remember_signature(&mut caches, "dk", &s, "second");
    let bound = caches.session("dk").unwrap();
    assert_eq!(bound.verified_signature.as_deref(), Some("first"));
    assert!(matches!(check_download(&bound, &request("first"), CLIENT), DownloadCheck::Granted));
    let other = check_download(&bound, &request(&sign(1, "dk")), CLIENT);
    assert_eq!(refusal(other), "Invalid signature (mismatch with cached)");
}

#[test]
fn signatures_are_not_kept_in_a_later_session() {
    let mut caches = Caches::new();
    let earlier = session(address(1));
    let mut later = session(address(1));
    later.created_at = 78;
    caches.put_session("dk".to_string(), later);
    remember_signature(&mut caches, "dk", &earlier, "sig");
    assert!(caches.session("dk").unwrap().verified_signature.is_none());
    let mut empty = Caches::new();
    remember_signature(&mut empty, "dk", &earlier, "sig");
    assert!(empty.session("dk").is_none());
}

#[test]
fn requests_are_verified_through_their_session() {
    let mut caches = Caches::new();
    caches.put_session("dk".to_string(), session(address(1)));
    let signature = sign(1, "dk");
    let begin = InitEvent::Begin { now: 100 };
    let (_, action) =
        verify_download_chunk(&mut caches, &request(&signature), CLIENT, "r", 9, InitState::Start, begin);
    assert!(matches!(action, VerifyAction::Decided { verdict: Ok(true), forget_lock: false }));
    assert_eq!(caches.session("dk").unwrap().verified_signature, Some(signature));
    let begin = InitEvent::Begin { now: 100 };
    let (_, action) =
        verify_download_chunk(&mut caches, &request("x"), CLIENT, "r", 9, InitState::Start, begin);
    match action {
        VerifyAction::Decided { verdict: Err(e), .. } => {
            assert_eq!(e, "Invalid signature (mismatch with cached)")
        }
        other => panic!("{:?}", other),
    }
    let (_, action) = verify_download_chunk(
        &mut Caches::new(),
        &request("x"),
        CLIENT,
        "r",
        9,
        InitState::AwaitLock,
        InitEvent::Locked,
    );
    match action {
        VerifyAction::Decided { verdict: Err(e), forget_lock: false } => {
            assert_eq!(e, "Invalid download key hex: Invalid character 'k' at position 1")
        }
        other => panic!("{:?}", other),
    }
}

fn ask(caches: &mut Caches, signature: &str, ip: IpAddr, now: u128) -> Result<bool, String> {
    let begin = InitEvent::Begin { now };
    let start = InitState::Start;
    match verify_download_chunk(caches, &request(signature), ip, "r", 9, start, begin).1 {
        VerifyAction::Decided { verdict, .. } => verdict,
        other => panic!("{:?}", other),
    }
}

#[test]
fn granted_signatures_stay_bound() {
    let mut caches = Caches::new();
    let mut s = session(address(1));
    s.whitelist = vec![address(2)];
    caches.put_session("dk".to_string(), s);
    let (first, other) = (sign(2, "dk"), sign(1, "dk"));
    let mismatch = Err("Invalid signature (mismatch with cached)".to_string());
    assert_eq!(ask(&mut caches, &first, CLIENT, 100), Ok(true));
    assert_eq!(ask(&mut caches, &other, CLIENT, 101), mismatch);
    assert_eq!(ask(&mut caches, &first, CLIENT, 102), Ok(true));
    assert_eq!(ask(&mut caches, "", CLIENT, 103), mismatch);
    assert_eq!(
        ask(&mut caches, &first, IpAddr::V6(2), 104),
        Err("IP address mismatch".to_string())
    );
    assert_eq!(caches.session("dk").unwrap().verified_signature, Some(first));
}

#[test]
fn signatures_are_kept_under_the_key_of_the_request() {
    let mut caches = Caches::new();
    let mut s = session(address(1));
    s.download_key = "elsewhere".to_string();
    caches.put_session("dk".to_string(), s);
    let first = sign(1, "dk");
    assert_eq!(ask(&mut caches, &first, CLIENT, 100), Ok(true));
    assert_eq!(caches.session("dk").unwrap().verified_signature, Some(first));
    assert!(caches.session("elsewhere").is_none());
}

#[test]
fn chunks_are_read_while_the_session_has_any() {
    let mut caches = Caches::new();
    match handle_download_request(&caches, &request("")) {
        DownloadStep::Answer(r) => {
            assert_eq!(r.status, "ERROR");
            assert_eq!(r.message, "Download session not found, please verify first.");
        }
        other => panic!("{:?}", other),
    }
    caches.put_session("dk".to_string(), session(address(1)));
    match handle_download_request(&caches, &request("")) {
        DownloadStep::Read { offset, limit } => assert_eq!((offset, limit), (2_097_152, 1_048_576)),
        other => panic!("{:?}", other),
    }
    let mut spent = session(address(1));
    spent.remaining_chunks = 0;
    caches.put_session("dk".to_string(), spent);
    match handle_download_request(&caches, &request("")) {
        DownloadStep::Answer(r) => assert_eq!(r.message, "No remaining downloads for this key"),
        other => panic!("{:?}", other),
    }
}

#[test]
fn reads_are_answered() {
    let (response, data) = chunk_reply(Some(vec![1, 2]));
    assert_eq!((response.status.as_str(), response.message.as_str()), ("SUCCESS", ""));
    assert_eq!(data, Some(vec![1, 2]));
    let (response, data) = chunk_reply(None);
    assert_eq!(response.status, "ERROR");
    assert_eq!(response.message, "Chunk data not found");
    assert_eq!(data, None);
}

fn upload(seed: u8, chunk: &[u8]) -> UploadChunkPayload {
    let file_key = "ab".repeat(32);
    let merkle_root = hex::encode(alloy::primitives::keccak256(chunk));
    let signature = sign(seed, &format!("{}{}", file_key, merkle_root));
    UploadChunkPayload { file_key, chunk_index: 0, signature, merkle_proof_hashes: vec![], merkle_root }
}

fn upload_step(
    caches: &mut Caches,
    payload: &UploadChunkPayload,
    state: UploadState,
    event: UploadEvent,
) -> (UploadState, UploadAction) {
    let admin = hex::encode(address(1));
    verify_upload_chunk(caches, payload, b"chunk", &admin, state, event)
}

fn verdict(action: UploadAction) -> (Result<(), String>, bool) {
    match action {
        UploadAction::Decided { verdict, forget_lock } => (verdict, forget_lock),
        other => panic!("{:?}", other),
    }
}

#[test]
fn first_chunks_are_checked_with_the_chain() {
    let mut caches = Caches::new();
    let payload = upload(1, b"chunk");
    let (s, a) = upload_step(&mut caches, &payload, UploadState::Start, UploadEvent::Begin);
    assert!(matches!(a, UploadAction::Lock { key } if key == format!("upload_{}", "ab".repeat(32))));
    let (s, a) = upload_step(&mut caches, &payload, s, UploadEvent::Locked);
    assert!(matches!(a, UploadAction::OpenContract));
    let (s, a) = upload_step(&mut caches, &payload, s, UploadEvent::ContractOpened(Ok(())));
    assert!(matches!(a, UploadAction::FetchFile { file_key } if file_key == [0xab; 32]));
    let (_, a) = upload_step(&mut caches, &payload, s, UploadEvent::FileFetched(Ok(7)));
    assert_eq!(verdict(a), (Ok(()), true));
    let info = caches.upload(&payload.file_key).unwrap();
    assert_eq!(info.total_chunks, 7);
    assert_eq!(info.verified_address, address(1));
    assert_eq!(info.merkle_root, payload.merkle_root);
    let (_, a) = upload_step(&mut caches, &payload, UploadState::Start, UploadEvent::Begin);
    assert_eq!(verdict(a), (Ok(()), false));
    let again = UploadState::AwaitLock { admin: address(1) };
    let (_, a) = upload_step(&mut caches, &payload, again, UploadEvent::Locked);
    assert_eq!(verdict(a), (Ok(()), true));
}

#[test]
fn proofs_are_checked_also_for_known_uploads() {
    let mut caches = Caches::new();
    let payload = upload(1, b"other");
    let file = UploadState::AwaitFile { admin: address(1) };
    let failed = Err("Merkle proof verification failed".to_string());
    let (_, a) = upload_step(&mut caches, &payload, file, UploadEvent::FileFetched(Ok(1)));
    assert_eq!(verdict(a), (failed.clone(), true));
    let (_, a) = upload_step(&mut caches, &payload, UploadState::Start, UploadEvent::Begin);
    assert_eq!(verdict(a), (failed, false));
}

#[test]
fn uploads_are_refused() {
    let mut caches = Caches::new();
    let payload = upload(2, b"chunk");
    let refused = |text: &str| (Err(text.to_string()), false);
    let (_, a) =
        verify_upload_chunk(&mut caches, &payload, b"", "0x12", UploadState::Start, UploadEvent::Begin);
    assert_eq!(verdict(a), refused("Invalid Admin Uploader Address"));
    let locked = UploadState::AwaitLock { admin: address(1) };
    let (_, a) = upload_step(&mut caches, &payload, locked, UploadEvent::Locked);
    assert_eq!(verdict(a), refused("Signer is not the authorized admin uploader"));
    let contract = UploadState::AwaitContract { admin: address(1) };
    let event = UploadEvent::ContractOpened(Err("x".to_string()));
    let (_, a) = upload_step(&mut caches, &payload, contract, event);
    assert_eq!(verdict(a), refused("Contract err: x"));
    let file = UploadState::AwaitFile { admin: address(1) };
    let event = UploadEvent::FileFetched(Err("x".to_string()));
    let (_, a) = upload_step(&mut caches, &payload, file, event);
    assert_eq!(verdict(a), refused("getFileInfo failed: x"));
    let mut short = upload(1, b"chunk");
    short.file_key = "0xabcd".to_string();
    let (_, a) = upload_step(&mut caches, &short, contract, UploadEvent::ContractOpened(Ok(())));
    assert_eq!(verdict(a), refused("Invalid file_key length"));
    short.file_key = "0xz".to_string();
    let (_, a) = upload_step(&mut caches, &short, contract, UploadEvent::ContractOpened(Ok(())));
    assert_eq!(verdict(a), refused("Invalid file_key hex: Odd number of digits"));
    short.signature = "00".to_string();
    let (_, a) = upload_step(&mut caches, &short, locked, UploadEvent::Locked);
    assert_eq!(verdict(a), refused("Invalid signature length: expected 65, got 1"));
}

#[test]
fn known_uploads_keep_their_uploader_and_root() {
    let mut caches = Caches::new();
    let payload = upload(1, b"chunk");
    let other_admin = UploadState::AwaitFile { admin: address(5) };
    upload_step(&mut caches, &payload, other_admin, UploadEvent::FileFetched(Ok(1)));
    let (_, a) = upload_step(&mut caches, &payload, UploadState::Start, UploadEvent::Begin);
    assert_eq!(verdict(a).0.unwrap_err(), "Uploader is not validator");
    let mine = UploadState::AwaitFile { admin: address(1) };
    upload_step(&mut caches, &payload, mine, UploadEvent::FileFetched(Ok(1)));
    let mut changed = upload(1, b"chunk");
    changed.merkle_root = "00".to_string();
    let (_, a) = upload_step(&mut caches, &changed, UploadState::Start, UploadEvent::Begin);
    assert_eq!(
        verdict(a).0.unwrap_err(),
        format!("Merkle root mismatch: expected {}, got 00", payload.merkle_root)
    );
}

#[test]
fn readable_keys_are_confirmed() {
    let good = "cd".repeat(32);
    let keys = vec![format!("0x{}", good), "zz".to_string(), "ab".to_string(), good];
    assert_eq!(batch_keys(&keys), vec![[0xcd; 32], [0xcd; 32]]);
    let (s, a) = confirm_upload_batch(&keys, BatchState::Start, BatchEvent::Begin);
    assert!(matches!(a, BatchAction::OpenContract));
    let (s, a) = confirm_upload_batch(&keys, s, BatchEvent::ContractOpened(Ok(())));
    assert!(matches!(a, BatchAction::Send { keys } if keys.len() == 2));
    let (s, a) = confirm_upload_batch(&keys, s, BatchEvent::Sent(Ok(())));
    assert!(matches!(a, BatchAction::FetchReceipt));
    let (s, a) = confirm_upload_batch(&keys, s, BatchEvent::Receipt(Ok(false)));
    assert!(matches!(a, BatchAction::Decided(Ok(()))));
    assert!(matches!(s, BatchState::Finished));
}

#[test]
fn nothing_is_sent_without_a_key() {
    let (_, a) = confirm_upload_batch(&vec![], BatchState::Start, BatchEvent::Begin);
    assert!(matches!(a, BatchAction::Decided(Ok(()))));
    let keys = vec!["junk".to_string()];
    let opened = BatchEvent::ContractOpened(Ok(()));
    let (_, a) = confirm_upload_batch(&keys, BatchState::AwaitContract, opened);
    assert!(matches!(a, BatchAction::Decided(Ok(()))));
}

#[test]
fn failed_confirmations_are_reported() {
    let keys = vec!["cd".repeat(32)];
    let text = |a: BatchAction| match a {
        BatchAction::Decided(Err(e)) => e,
        other => panic!("{:?}", other),
    };
    let e = || "x".to_string();
    let event = BatchEvent::ContractOpened(Err(e()));
    assert_eq!(text(confirm_upload_batch(&keys, BatchState::AwaitContract, event).1), "x");
    let event = BatchEvent::Sent(Err(e()));
    assert_eq!(
        text(confirm_upload_batch(&keys, BatchState::AwaitSend, event).1),
        "Failed to send tx: x"
    );
    let event = BatchEvent::Receipt(Err(e()));
    assert_eq!(
        text(confirm_upload_batch(&keys, BatchState::AwaitReceipt, event).1),
        "Failed to get receipt: x"
    );
}

#[test]
fn keys_round_trip_through_hex() {
    let key: [u8; 32] = std::array::from_fn(|i| (i * 7) as u8);
    assert_eq!(decode_file_key(&hex::encode(key)), Ok(key));
    assert_eq!(decode_file_key(&format!("0x{}", hex::encode(key))), Ok(key));
}

#[test]
fn keys_are_read_for_the_chain() {
    assert_eq!(decode_file_key(&"0c".repeat(32)), Ok([12; 32]));
    assert_eq!(handle_confirm_download(&"0c".repeat(32)), Ok([12; 32]));
    assert_eq!(
        handle_confirm_download("0x").unwrap_err(),
        "Invalid character 'x' at position 1"
    );
    assert_eq!(
        handle_confirm_download("-1").unwrap_err(),
        "Invalid character '-' at position 0"
    );
    assert_eq!(
        handle_confirm_download("abc'").unwrap_err(),
        "Invalid character '\\'' at position 3"
    );
    assert_eq!(handle_confirm_download("zzz").unwrap_err(), "Odd number of digits");
}

#[test]
fn keys_are_confirmable_with_as_many_digits() {
    assert!(key_is_confirmable(&"0c".repeat(32)));
    assert!(key_is_confirmable("0x"));
    assert!(key_is_confirmable("abc"));
    assert!(!key_is_confirmable("abcd"));
    assert!(!key_is_confirmable(""));
}

#[test]
fn uploads_fit_while_proofs_are_low() {
    let mut caches = Caches::new();
    let admin = hex::encode(address(1));
    let mut payload = upload(1, b"chunk");
    let high = vec!["00".repeat(32); 65];
    let fits = |caches: &Caches, payload: &UploadChunkPayload, state, event| {
        upload_fits(caches, payload, &admin, &state, &event)
    };
    let file = UploadState::AwaitFile { admin: address(1) };
    let waiting = UploadState::AwaitLock { admin: address(1) };
    let (_, a) = upload_step(&mut caches, &payload, file, UploadEvent::FileFetched(Ok(7)));
    assert_eq!(verdict(a), (Ok(()), true));
    assert!(fits(&caches, &payload, UploadState::Start, UploadEvent::Begin));
    payload.merkle_proof_hashes = high;
    assert!(!fits(&caches, &payload, UploadState::Start, UploadEvent::Begin));
    assert!(!fits(&caches, &payload, waiting, UploadEvent::Locked));
    assert!(!fits(&caches, &payload, file, UploadEvent::FileFetched(Ok(7))));
    assert!(fits(&caches, &payload, file, UploadEvent::FileFetched(Err("x".to_string()))));
    assert!(fits(&Caches::new(), &payload, UploadState::Start, UploadEvent::Begin));
    let expected = payload.merkle_root.clone();
    payload.merkle_root = "other".to_string();
    assert!(fits(&caches, &payload, UploadState::Start, UploadEvent::Begin));
    let (_, a) = upload_step(&mut caches, &payload, UploadState::Start, UploadEvent::Begin);
    let mismatch = format!("Merkle root mismatch: expected {}, got other", expected);
    assert_eq!(verdict(a), (Err(mismatch), false));
}
