use helios_recursion::wire::{
    ElectraBlockHeader, RecursionCircuitInputs, RecursionCircuitOutputs, WireError,
    WrapperCircuitInputs,
};

fn header() -> ElectraBlockHeader {
    ElectraBlockHeader {
        slot: 7606144,
        proposer_index: 258,
        parent_root: [1u8; 32],
        state_root: [2u8; 32],
        body_root: [3u8; 32],
    }
}

fn inputs() -> RecursionCircuitInputs {
    RecursionCircuitInputs {
        active_committee_hash: [9u8; 32],
        electra_body_roots: vec![10, 11],
        electra_header: header(),
        helios_proof: vec![20],
        helios_public_values: vec![],
        helios_vk: "0xé".to_string(),
        previous_proof: None,
        previous_public_values: Some(vec![30, 31]),
        previous_vk: Some("0x0b".to_string()),
        previous_head: 7606080,
    }
}

fn inputs_bytes() -> Vec<u8> {
    let mut bytes = vec![9u8; 32];
    bytes.extend([10, 11]);
    bytes.extend(7606144u64.to_le_bytes());
    bytes.extend([2, 1, 0, 0, 0, 0, 0, 0]);
    bytes.extend([1u8; 32]);
    bytes.extend([2u8; 32]);
    bytes.extend([3u8; 32]);
    bytes.extend([1, 0, 0, 0, 20]);
    bytes.extend([0, 0, 0, 0]);
    bytes.extend([4, 0, 0, 0, b'0', b'x', 0xc3, 0xa9]);
    bytes.push(0);
    bytes.extend([1, 2, 0, 0, 0, 30, 31]);
    bytes.extend([1, 4, 0, 0, 0, b'0', b'x', b'0', b'b']);
    bytes.extend(7606080u64.to_le_bytes());
    bytes
}

#[test]
fn outputs_have_their_bytes() {
    let outputs = RecursionCircuitOutputs { root: vec![170, 187, 204], height: 0x0102 };
    let bytes = outputs.encode().unwrap();
    assert_eq!(bytes, vec![3, 0, 0, 0, 170, 187, 204, 2, 1, 0, 0, 0, 0, 0, 0]);
}

#[test]
fn outputs_come_back() {
    let outputs = RecursionCircuitOutputs { root: vec![5u8; 32], height: u64::MAX };
    let decoded = RecursionCircuitOutputs::decode(&outputs.encode().unwrap()).ok().unwrap();
    assert_eq!(decoded.root, vec![5u8; 32]);
    assert_eq!(decoded.height, u64::MAX);
}

#[test]
fn malformed_outputs_are_refused() {
    let good = RecursionCircuitOutputs { root: vec![1, 2], height: 3 }.encode().unwrap();
    let mut longer = good.clone();
    longer.push(0);
    let shorter = &good[..good.len() - 1];
    assert!(matches!(RecursionCircuitOutputs::decode(&longer), Err(WireError::Malformed)));
    assert!(matches!(RecursionCircuitOutputs::decode(shorter), Err(WireError::Malformed)));
    assert!(matches!(RecursionCircuitOutputs::decode(&[]), Err(WireError::Malformed)));
    assert!(matches!(RecursionCircuitOutputs::decode(&[255u8; 20]), Err(WireError::Malformed)));
}

#[test]
fn inputs_have_their_bytes() {
    assert_eq!(inputs().encode().unwrap(), inputs_bytes());
}

#[test]
fn inputs_come_back() {
    let v = RecursionCircuitInputs::decode(&inputs_bytes(), 2).ok().unwrap();
    assert_eq!(v.active_committee_hash, [9u8; 32]);
    assert_eq!(v.electra_body_roots, vec![10, 11]);
    assert_eq!(v.electra_header.slot, 7606144);
    assert_eq!(v.electra_header.proposer_index, 258);
    assert_eq!(v.electra_header.parent_root, [1u8; 32]);
    assert_eq!(v.electra_header.state_root, [2u8; 32]);
    assert_eq!(v.electra_header.body_root, [3u8; 32]);
    assert_eq!(v.helios_proof, vec![20]);
    assert_eq!(v.helios_public_values, Vec::<u8>::new());
    assert_eq!(v.helios_vk, "0xé");
    assert_eq!(v.previous_proof, None);
    assert_eq!(v.previous_public_values, Some(vec![30, 31]));
    assert_eq!(v.previous_vk, Some("0x0b".to_string()));
    assert_eq!(v.previous_head, 7606080);
    assert_eq!(v.encode().unwrap(), inputs_bytes());
}

#[test]
fn malformed_inputs_are_refused() {
    let good = inputs_bytes();
    let mut longer = good.clone();
    longer.push(0);
    assert!(matches!(RecursionCircuitInputs::decode(&longer, 2), Err(WireError::Malformed)));
    assert!(matches!(RecursionCircuitInputs::decode(&good[..100], 2), Err(WireError::Malformed)));
    // The byte of the first option is neither zero nor one.
    let mut tagged = good.clone();
    let at = 32 + 2 + 112 + 5 + 4 + 8;
    assert_eq!(tagged[at], 0);
    tagged[at] = 2;
    assert!(matches!(RecursionCircuitInputs::decode(&tagged, 2), Err(WireError::Malformed)));
    // The text of the Helios key is not UTF-8.
    let mut text = good.clone();
    text[at - 1] = 0xff;
    assert!(matches!(RecursionCircuitInputs::decode(&text, 2), Err(WireError::Malformed)));
}

#[test]
fn the_length_of_the_body_roots_counts() {
    let good = inputs_bytes();
    assert!(matches!(RecursionCircuitInputs::decode(&good, 1), Err(WireError::Malformed)));
    assert!(matches!(RecursionCircuitInputs::decode(&good, good.len()), Err(WireError::Malformed)));
    assert!(matches!(RecursionCircuitInputs::decode(&good, usize::MAX), Err(WireError::Malformed)));
    assert!(matches!(RecursionCircuitInputs::decode(&[9u8; 31], 0), Err(WireError::Malformed)));
    let mut bare = inputs();
    bare.electra_body_roots = vec![];
    let read = RecursionCircuitInputs::decode(&bare.encode().unwrap(), 0).ok().unwrap();
    assert_eq!(read.electra_body_roots, Vec::<u8>::new());
    assert_eq!(read.previous_head, 7606080);
}

#[test]
fn different_inputs_have_different_bytes() {
    let mut other = inputs();
    other.previous_proof = Some(vec![]);
    assert_ne!(other.encode().unwrap(), inputs_bytes());
}

#[test]
fn wrapper_inputs_have_their_bytes() {
    let v = WrapperCircuitInputs {
        recursive_proof: vec![1, 2],
        recursive_public_values: vec![3],
        recursive_vk: "0x".to_string(),
    };
    assert_eq!(
        v.encode().unwrap(),
        vec![2, 0, 0, 0, 1, 2, 1, 0, 0, 0, 3, 2, 0, 0, 0, b'0', b'x']
    );
}
