use storage_node::cache::Caches;
use storage_node::registry::{decide_validity, is_valid_contract, note_reply, open_contract, read_contract};

#[test]
fn unknown_contracts_are_asked_about() {
    let caches = Caches::new();
    assert_eq!(is_valid_contract(&caches, "http://chain:80", &[1; 20]), None);
    assert_eq!(is_valid_contract(&caches, "not a url", &[1; 20]), Some(false));
    assert_eq!(is_valid_contract(&caches, "", &[1; 20]), Some(false));
}

#[test]
fn valid_contracts_are_remembered() {
    let mut caches = Caches::new();
    assert!(!note_reply(&mut caches, &[1; 20], Some(false)));
    assert!(!note_reply(&mut caches, &[1; 20], None));
    assert_eq!(is_valid_contract(&caches, "http://chain", &[1; 20]), None);
    assert!(note_reply(&mut caches, &[1; 20], Some(true)));
    assert_eq!(is_valid_contract(&caches, "http://chain", &[1; 20]), Some(true));
    assert_eq!(is_valid_contract(&caches, "nowhere", &[1; 20]), Some(true));
    assert_eq!(is_valid_contract(&caches, "http://chain", &[2; 20]), None);
}

#[test]
fn what_is_noted_goes_first() {
    assert_eq!(decide_validity(Some(false), true), Some(false));
    assert_eq!(decide_validity(Some(true), false), Some(true));
    assert_eq!(decide_validity(None, true), None);
    assert_eq!(decide_validity(None, false), Some(false));
}

#[test]
fn contracts_are_reached_at_urls() {
    assert_eq!(open_contract("http://chain:8545"), Ok(()));
    assert_eq!(open_contract("https://chain/rpc?key=1"), Ok(()));
    assert_eq!(open_contract("").unwrap_err(), "relative URL without a base");
    assert_eq!(open_contract("chain").unwrap_err(), "relative URL without a base");
    assert_eq!(open_contract("http://").unwrap_err(), "empty host");
    assert_eq!(open_contract("http://chain:99999").unwrap_err(), "invalid port number");
}

#[test]
fn contract_addresses_are_read() {
    assert_eq!(read_contract(&"0a".repeat(20)), Ok([10; 20]));
    assert_eq!(read_contract(&format!("0x{}", "0B".repeat(20))), Ok([11; 20]));
    assert_eq!(read_contract("0x1").unwrap_err(), "odd number of digits");
    assert!(read_contract("0x").is_err());
    assert!(read_contract(&"zz".repeat(20)).is_err());
}
