use alloy::primitives::keccak256;
use storage_node::merkle::{
    check_root, parent_bytes, proof_depth_allowed, sibling_hash, verify_merkle_proof,
};

fn pair(a: &[u8], b: &[u8]) -> Vec<u8> {
    keccak256([a, b].concat()).to_vec()
}

fn leaves() -> Vec<Vec<u8>> {
    (0u8..4).map(|i| keccak256([i; 10]).to_vec()).collect()
}

#[test]
fn honest_proofs_are_accepted() {
    let l = leaves();
    let left = pair(&l[0], &l[1]);
    let right = pair(&l[2], &l[3]);
    let root = format!("0x{}", hex::encode(pair(&left, &right)));
    let proofs = [
        vec![hex::encode(&l[1]), hex::encode(&right)],
        vec![hex::encode(&l[0]), hex::encode(&right)],
        vec![format!("0x{}", hex::encode(&l[3])), hex::encode(&left)],
        vec![hex::encode(&l[2]), hex::encode(&left)],
    ];
    for (i, proof) in proofs.iter().enumerate() {
        assert_eq!(verify_merkle_proof(&[i as u8; 10], i as u64, proof, &root), Ok(()));
    }
}

#[test]
fn a_proof_binds_its_chunk_and_its_place() {
    let l = leaves();
    let root = hex::encode(pair(&l[0], &l[1]));
    let proof = vec![hex::encode(&l[1])];
    assert_eq!(verify_merkle_proof(&[0; 10], 0, &proof, &root), Ok(()));
    let failed = Err("Merkle proof verification failed".to_string());
    assert_eq!(verify_merkle_proof(&[9; 10], 0, &proof, &root), failed);
    assert_eq!(verify_merkle_proof(&[0; 10], 1, &proof, &root), failed);
}

#[test]
fn a_single_chunk_is_its_own_root() {
    let root = hex::encode(keccak256(b""));
    assert_eq!(root, "c5d2460186f7233c927e7db2dcc703c0e500b653ca82273b7bfad8045d85a470");
    assert_eq!(verify_merkle_proof(b"", 5, &vec![], &root), Ok(()));
}

#[test]
fn bad_siblings_are_reported_with_their_level() {
    let good = hex::encode(keccak256(b"x"));
    assert_eq!(
        verify_merkle_proof(b"", 0, &vec![good.clone(), "zz".to_string()], &good).unwrap_err(),
        "Invalid sibling hash at level 1: Invalid character 'z' at position 0"
    );
    assert_eq!(
        verify_merkle_proof(b"", 0, &vec!["abcd".to_string()], &good).unwrap_err(),
        "Invalid sibling hash length at level 0: expected 32, got 2"
    );
    assert_eq!(sibling_hash(&good, 3).unwrap(), keccak256(b"x").to_vec());
}

#[test]
fn roots_must_be_hex() {
    assert_eq!(
        check_root(&[0; 32], "0xg0").unwrap_err(),
        "Invalid merkle root: Invalid character 'g' at position 0"
    );
    assert_eq!(check_root(&[1, 2], "0102"), Ok(()));
    assert_eq!(
        check_root(&[1, 2], "01").unwrap_err(),
        "Merkle proof verification failed"
    );
}

#[test]
fn nodes_are_joined_by_the_bit_of_their_level() {
    assert_eq!(parent_bytes(&[1], &[2], 4, 0), vec![1, 2]);
    assert_eq!(parent_bytes(&[1], &[2], 5, 0), vec![2, 1]);
    assert_eq!(parent_bytes(&[1], &[2], 4, 2), vec![2, 1]);
    assert_eq!(parent_bytes(&[1], &[2], u64::MAX, 63), vec![2, 1]);
}

#[test]
fn proofs_are_at_most_sixty_four_levels_deep() {
    let good = hex::encode(keccak256(b"x"));
    assert!(proof_depth_allowed(&vec![good.clone(); 64]));
    assert!(!proof_depth_allowed(&vec![good.clone(); 65]));
    let mut ends_before = vec![good.clone(); 70];
    ends_before[64] = "zz".to_string();
    assert!(proof_depth_allowed(&ends_before));
    assert_eq!(
        verify_merkle_proof(b"", 0, &ends_before, &good).unwrap_err(),
        "Invalid sibling hash at level 64: Invalid character 'z' at position 0"
    );
    let mut too_late = vec![good; 70];
    too_late[65] = "zz".to_string();
    assert!(!proof_depth_allowed(&too_late));
}
