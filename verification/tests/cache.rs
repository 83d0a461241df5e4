use std::collections::HashSet;
use storage_node::cache::Caches;
use storage_node::models::{DownloadSession, IpAddr, UploadFileInfo};

fn session(created_at: u128) -> DownloadSession {
    DownloadSession {
        download_key: "k".to_string(),
        file_key: "f".to_string(),
        file_owner: [1; 20],
        remaining_chunks: 2,
        total_chunks: 3,
        first_ip: IpAddr::V4(4),
        retry_remaining: 5,
        confirmed_at: Some(6),
        verified_signature: Some("s".to_string()),
        is_public: true,
        whitelist: vec![[7; 20]],
        created_at,
    }
}

#[test]
fn sessions_are_kept_by_key() {
    let mut caches = Caches::new();
    assert!(caches.session("k").is_none());
    caches.put_session("k".to_string(), session(1));
    caches.put_session("k".to_string(), session(2));
    let kept = caches.session("k").unwrap();
    assert_eq!(kept.created_at, 2);
    assert_eq!(kept.verified_signature.as_deref(), Some("s"));
    assert_eq!(kept.whitelist, vec![[7; 20]]);
    assert_eq!(kept.confirmed_at, Some(6));
    assert_eq!(caches.take_session("k").unwrap().retry_remaining, 5);
    assert!(caches.take_session("k").is_none());
}

#[test]
fn every_session_is_listed_once() {
    let mut caches = Caches::new();
    assert!(caches.list_sessions().is_empty());
    for i in 0..20u128 {
        caches.put_session(format!("k{}", i), session(i));
    }
    let mut row = caches.list_sessions();
    row.sort_by_key(|entry| entry.1);
    assert_eq!(row.len(), 20);
    for (i, entry) in row.iter().enumerate() {
        assert_eq!(*entry, (format!("k{}", i), i as u128));
    }
}

#[test]
fn uploads_are_kept_by_key() {
    let mut caches = Caches::new();
    let info = UploadFileInfo {
        verified_address: [2; 20],
        merkle_root: "r".to_string(),
        total_chunks: 9,
    };
    caches.put_upload("f".to_string(), info);
    let kept = caches.upload("f").unwrap();
    assert_eq!(kept.verified_address, [2; 20]);
    assert_eq!(kept.merkle_root, "r");
    assert_eq!(kept.total_chunks, 9);
    assert!(caches.forget_upload("f"));
    assert!(!caches.forget_upload("f"));
    assert!(caches.upload("f").is_none());
}

#[test]
fn received_chunks_and_contracts_are_kept() {
    let mut caches = Caches::new();
    assert!(caches.take_received("f").is_none());
    caches.put_received("f".to_string(), HashSet::from([1, 5]));
    assert_eq!(caches.take_received("f"), Some(HashSet::from([1, 5])));
    assert!(caches.take_received("f").is_none());
    assert_eq!(caches.contract(&[3; 20]), None);
    caches.put_contract([3; 20], true);
    assert_eq!(caches.contract(&[3; 20]), Some(true));
    caches.put_contract([3; 20], false);
    assert_eq!(caches.contract(&[3; 20]), Some(false));
    assert_eq!(caches.contract(&[4; 20]), None);
}
