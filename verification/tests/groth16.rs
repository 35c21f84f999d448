use helios_recursion::groth16::{
    attempt_verifies, is_decided, is_zero, proof_verifies, read_vkey_hash,
};

const SOME_VK: &str = "0x00b4ca2bd4b8f4b2a4d1e3d3f3e1c8f7a6b5c4d3e2f1a0b9c8d7e6f5a4b3c2d1";

/// A proof that has the form of one: the hash of the key and three points on the curves.
fn well_formed_proof() -> Vec<u8> {
    let mut proof = sp1_verifier::sha256_hash(&sp1_verifier::GROTH16_VK_BYTES)[..4].to_vec();
    let g1 = "0000000000000000000000000000000000000000000000000000000000000001\
              0000000000000000000000000000000000000000000000000000000000000002";
    let g2 = "198e9393920d483a7260bfb731fb5d25f1aa493335a9e71297e485b7aef312c2\
              1800deef121f1e76426a00665e5c4479674322d4f75edadd46debd5cd992f6ed\
              090689d0585ff075ec9e99ad690c3395bc4b313370b38ef355acdadcd122975b\
              12c85ea5db8c6deb4aab71808dcb408fe3d1e7690c43d37b4ce6cc0166fa7daa";
    proof.extend(hex::decode(g1).unwrap());
    proof.extend(hex::decode(g2).unwrap());
    proof.extend(hex::decode(g1).unwrap());
    proof
}

#[test]
fn key_hashes_are_read() {
    let hash = read_vkey_hash(SOME_VK).unwrap();
    assert_eq!(hash.to_vec(), hex::decode(&SOME_VK[2..]).unwrap());
    let upper = format!("0X{}", SOME_VK[2..].to_uppercase());
    assert_eq!(read_vkey_hash(&upper), Some(hash));
    assert_eq!(read_vkey_hash(&format!("é{}", &SOME_VK[2..])), Some(hash));
    assert_eq!(read_vkey_hash(&SOME_VK[..65]), None);
    assert_eq!(read_vkey_hash(&format!("{}0", SOME_VK)), None);
    assert_eq!(read_vkey_hash(&format!("{}g", &SOME_VK[..65])), None);
    assert_eq!(read_vkey_hash(""), None);
}

#[test]
fn most_arguments_are_decided() {
    let proof = well_formed_proof();
    assert!(is_decided(&proof, &[1, 2, 3], SOME_VK));
    assert!(is_decided(&[], &[], SOME_VK));
    assert!(is_decided(&proof, &[], "0x"));
    assert!(is_decided(&proof, &[], "0xnot a hash"));
    // A prefix of one character with two bytes can be cut off.
    assert!(is_decided(&proof, &[], "é0"));
}

#[test]
fn public_values_count_by_their_digests() {
    assert!(is_zero(&[0u8; 32]));
    assert!(is_decided(&well_formed_proof(), &[0u8; 32], SOME_VK));
}

#[test]
fn a_prefix_that_cannot_be_cut_is_undecided() {
    for vkey_hash in ["", "0", "0é", "€"] {
        assert!(!is_decided(&well_formed_proof(), &[], vkey_hash));
        assert!(!proof_verifies(&well_formed_proof(), &[], vkey_hash));
    }
}

#[test]
fn multiples_of_the_scalar_modulus_are_zero() {
    let zero = [
        "0000000000000000000000000000000000000000000000000000000000000000",
        "30644e72e131a029b85045b68181585d2833e84879b9709143e1f593f0000001",
        "60C89CE5C263405370A08B6D0302B0BA5067D090F372E12287C3EB27E0000002",
        "912ceb58a394e07d28f0d12384840917789bb8d96d2c51b3cba5e0bbd0000003",
        "c19139cb84c680a6e14116da06056174a0cfa121e6e5c2450f87d64fc0000004",
        "f1f5883e65f820d099915c908786b9d1c903896a609f32d65369cbe3b0000005",
    ];
    for digits in zero {
        let vkey_hash = format!("0x{digits}");
        assert!(is_zero(&read_vkey_hash(&vkey_hash).unwrap()));
        assert!(!is_decided(&well_formed_proof(), &[1, 2, 3], &vkey_hash));
        assert!(!proof_verifies(&well_formed_proof(), &[1, 2, 3], &vkey_hash));
    }
    let one_more = "0x30644e72e131a029b85045b68181585d2833e84879b9709143e1f593f0000002";
    assert!(!is_zero(&read_vkey_hash(one_more).unwrap()));
    assert!(is_decided(&well_formed_proof(), &[1, 2, 3], one_more));
}

#[test]
fn an_attempt_needs_points_that_fit() {
    let proof = well_formed_proof();
    let hash = read_vkey_hash(SOME_VK).unwrap();
    assert!(!attempt_verifies(&proof[4..], &hash, &[1u8; 32]));
    assert!(!attempt_verifies(&[], &hash, &[1u8; 32]));
    assert!(!attempt_verifies(&proof[4..], &hash, &[0u8; 32]));
    assert!(!attempt_verifies(&proof[4..], &[0u8; 32], &[1u8; 32]));
}

#[test]
fn a_proof_of_something_else_does_not_verify() {
    assert!(!proof_verifies(&well_formed_proof(), &[1, 2, 3], SOME_VK));
}

#[test]
fn no_proof_does_not_verify() {
    assert!(!proof_verifies(&[], &[], SOME_VK));
    assert!(!proof_verifies(&[0u8; 3], &[], SOME_VK));
    assert!(!proof_verifies(&[0u8; 260], &[], SOME_VK));
    assert!(!proof_verifies(&well_formed_proof()[..259], &[], SOME_VK));
    assert!(!proof_verifies(&well_formed_proof(), &[], "0x1234"));
    assert!(!proof_verifies(&well_formed_proof(), &[], ""));
}
