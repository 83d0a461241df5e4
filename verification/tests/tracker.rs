use storage_node::cache::Caches;
use storage_node::models::UploadFileInfo;
use storage_node::tracker::{is_duplicate, share_can_be_counted, track_chunk};

fn caches(total_chunks: u64) -> Caches {
    let mut caches = Caches::new();
    let info = UploadFileInfo { verified_address: [0; 20], merkle_root: String::new(), total_chunks };
    caches.put_upload("f".to_string(), info);
    caches
}

#[test]
fn even_shares_are_halved_upwards() {
    let mut c = caches(5);
    assert!(!track_chunk(&mut c, "f", 0));
    assert!(!track_chunk(&mut c, "f", 4));
    assert!(track_chunk(&mut c, "f", 2));
}

#[test]
fn odd_shares_are_halved_downwards() {
    let mut c = caches(5);
    assert!(!track_chunk(&mut c, "f", 3));
    assert!(track_chunk(&mut c, "f", 1));
}

#[test]
fn share_sizes_count_every_index_of_a_parity() {
    for total in 1u64..9 {
        for parity in 0..2u64 {
            let share: Vec<u64> = (0..total).filter(|i| i % 2 == parity).collect();
            let mut c = caches(total);
            for (n, index) in share.iter().enumerate() {
                assert_eq!(track_chunk(&mut c, "f", *index), n + 1 == share.len());
            }
        }
    }
}

#[test]
fn repeated_chunks_do_not_count() {
    let mut c = caches(4);
    assert!(!track_chunk(&mut c, "f", 0));
    assert!(!track_chunk(&mut c, "f", 0));
    assert!(track_chunk(&mut c, "f", 2));
}

#[test]
fn noted_chunks_are_duplicates_until_the_share_is_complete() {
    let mut c = caches(4);
    assert!(!is_duplicate(&mut c, "f", 0));
    track_chunk(&mut c, "f", 0);
    assert!(is_duplicate(&mut c, "f", 0));
    assert!(is_duplicate(&mut c, "f", 0));
    assert!(!is_duplicate(&mut c, "f", 2));
    assert!(track_chunk(&mut c, "f", 2));
    assert!(!is_duplicate(&mut c, "f", 0));
}

#[test]
fn unknown_files_are_not_tracked() {
    let mut c = caches(1);
    assert!(!track_chunk(&mut c, "g", 0));
    assert!(!is_duplicate(&mut c, "g", 0));
}

#[test]
fn shares_are_counted_while_they_fit() {
    let most = caches(u64::MAX);
    assert!(!share_can_be_counted(&most, "f", 0));
    assert!(share_can_be_counted(&most, "f", 1));
    assert!(share_can_be_counted(&most, "g", 0));
    assert!(share_can_be_counted(&caches(u64::MAX - 1), "f", 2));
}
