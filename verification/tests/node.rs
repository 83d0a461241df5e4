use storage_node::node::{add_upload, enough_files, log_dir_name, start_batches};

#[test]
fn file_limits_are_checked() {
    assert!(!enough_files(1_024));
    assert!(!enough_files(9_999));
    assert!(enough_files(10_000));
    assert!(enough_files(65_536));
}

#[test]
fn logs_are_named_after_the_port() {
    assert_eq!(log_dir_name("0.0.0.0:7081"), "log_7081");
    assert_eq!(log_dir_name("[::1]:9"), "log_9");
    assert_eq!(log_dir_name("host"), "log_host");
    assert_eq!(log_dir_name("host:"), "log_");
}

#[test]
fn uploads_are_batched_by_contract() {
    let mut batches = start_batches("a".to_string(), [1; 20]);
    assert!(!add_upload(&mut batches, "b".to_string(), [2; 20]));
    assert!(!add_upload(&mut batches, "c".to_string(), [1; 20]));
    assert!(!add_upload(&mut batches, "a".to_string(), [1; 20]));
    assert!(!add_upload(&mut batches, "a".to_string(), [2; 20]));
    assert_eq!(batches.len(), 2);
    assert_eq!(batches[0].contract, [1; 20]);
    assert_eq!(batches[0].file_keys, ["a", "c"]);
    assert_eq!(batches[1].contract, [2; 20]);
    assert_eq!(batches[1].file_keys, ["b", "a"]);
}

#[test]
fn batches_are_full_at_fifty() {
    let mut batches = start_batches("0".to_string(), [1; 20]);
    for i in 1..49 {
        assert!(!add_upload(&mut batches, i.to_string(), [1; 20]));
    }
    assert!(!add_upload(&mut batches, "5".to_string(), [1; 20]));
    assert!(add_upload(&mut batches, "49".to_string(), [1; 20]));
    assert_eq!(batches[0].file_keys.len(), 50);
}
