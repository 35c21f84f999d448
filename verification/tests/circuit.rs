use helios_recursion::circuit::{
    judge, unpad_block_number, verify_update, BlockRoots, CircuitError, HeliosOutputs,
    TRUSTED_HEAD, TRUSTED_SYNC_COMMITTEE_HASH,
};
use helios_recursion::wire::{ElectraBlockHeader, RecursionCircuitInputs};

const BODY: [u8; 32] = [3u8; 32];
const HEADER: [u8; 32] = [4u8; 32];
const STATE: [u8; 32] = [5u8; 32];
const COMMITTEE: [u8; 32] = [6u8; 32];

fn padded(number: u64) -> [u8; 32] {
    let mut bytes = [0u8; 32];
    bytes[..8].copy_from_slice(&number.to_le_bytes());
    bytes
}

fn block() -> BlockRoots {
    BlockRoots {
        header_root: HEADER,
        body_root: BODY,
        state_root: STATE,
        block_number: padded(21_000_000),
    }
}

fn outputs(committee: [u8; 32]) -> Option<HeliosOutputs> {
    Some(HeliosOutputs {
        new_header: HEADER,
        new_head: [0u8; 32],
        prev_sync_committee_hash: committee,
    })
}

fn first() -> RecursionCircuitInputs {
    RecursionCircuitInputs {
        active_committee_hash: COMMITTEE,
        electra_body_roots: vec![],
        electra_header: ElectraBlockHeader {
            slot: 1,
            proposer_index: 2,
            parent_root: [0u8; 32],
            state_root: [0u8; 32],
            body_root: BODY,
        },
        helios_proof: vec![1],
        helios_public_values: vec![2],
        helios_vk: "0x".to_string(),
        previous_proof: None,
        previous_public_values: None,
        previous_vk: None,
        previous_head: TRUSTED_HEAD,
    }
}

fn later() -> RecursionCircuitInputs {
    let mut inputs = first();
    inputs.previous_head = TRUSTED_HEAD + 32;
    inputs.previous_proof = Some(vec![1]);
    inputs.previous_public_values = Some(vec![2]);
    inputs.previous_vk = Some("0x".to_string());
    inputs
}

fn refusal(
    inputs: &RecursionCircuitInputs,
    block: &BlockRoots,
    helios: Option<HeliosOutputs>,
    helios_verified: bool,
    previous_verified: bool,
) -> CircuitError {
    judge(inputs, block, helios, helios_verified, previous_verified).err().unwrap()
}

#[test]
fn block_numbers_are_unpadded() {
    assert_eq!(unpad_block_number(&padded(0)), 0);
    assert_eq!(unpad_block_number(&padded(21_000_000)), 21_000_000);
    assert_eq!(unpad_block_number(&padded(u64::MAX)), u64::MAX);
    let mut bytes = [0u8; 32];
    bytes[1] = 1;
    assert_eq!(unpad_block_number(&bytes), 256);
}

#[test]
fn padding_is_not_read() {
    let mut bytes = [255u8; 32];
    bytes[..8].copy_from_slice(&7u64.to_le_bytes());
    assert_eq!(unpad_block_number(&bytes), 7);
}

#[test]
fn first_update_is_accepted() {
    let verdict = judge(
        &first(),
        &block(),
        outputs(TRUSTED_SYNC_COMMITTEE_HASH),
        true,
        false,
    );
    let committed = verdict.ok().unwrap();
    assert_eq!(committed.root, STATE.to_vec());
    assert_eq!(committed.height, 21_000_000);
}

#[test]
fn first_update_stands_alone() {
    let mut inputs = later();
    inputs.previous_head = TRUSTED_HEAD;
    inputs.active_committee_hash = [77u8; 32];
    let verdict = judge(&inputs, &block(), outputs(TRUSTED_SYNC_COMMITTEE_HASH), true, false);
    assert_eq!(verdict.ok().unwrap().height, 21_000_000);
}

#[test]
fn later_update_is_accepted() {
    let verdict = judge(&later(), &block(), outputs(COMMITTEE), true, true);
    let committed = verdict.ok().unwrap();
    assert_eq!(committed.root, STATE.to_vec());
    assert_eq!(committed.height, 21_000_000);
}

#[test]
fn every_refusal_has_its_reason() {
    let trusted = outputs(TRUSTED_SYNC_COMMITTEE_HASH);
    assert_eq!(
        refusal(&first(), &block(), None, true, true),
        CircuitError::UndecodableHeliosOutputs
    );
    let mut other = first();
    other.electra_header.body_root = [9u8; 32];
    assert_eq!(refusal(&other, &block(), trusted, true, true), CircuitError::BodyRootMismatch);
    let mut other_block = block();
    other_block.header_root[31] = 0;
    assert_eq!(
        refusal(&first(), &other_block, trusted, true, true),
        CircuitError::HeaderRootMismatch
    );
    assert_eq!(
        refusal(&first(), &block(), trusted, false, true),
        CircuitError::HeliosProofRejected
    );
    assert_eq!(
        refusal(&first(), &block(), outputs(COMMITTEE), true, true),
        CircuitError::TrustedCommitteeMismatch
    );
    let mut inputs = later();
    inputs.previous_proof = None;
    assert_eq!(
        refusal(&inputs, &block(), outputs(COMMITTEE), true, true),
        CircuitError::MissingPreviousProof
    );
    let mut inputs = later();
    inputs.previous_public_values = None;
    assert_eq!(
        refusal(&inputs, &block(), outputs(COMMITTEE), true, true),
        CircuitError::MissingPreviousPublicValues
    );
    let mut inputs = later();
    inputs.previous_vk = None;
    assert_eq!(
        refusal(&inputs, &block(), outputs(COMMITTEE), true, true),
        CircuitError::MissingPreviousVk
    );
    assert_eq!(
        refusal(&later(), &block(), outputs(COMMITTEE), true, false),
        CircuitError::PreviousProofRejected
    );
    assert_eq!(
        refusal(&later(), &block(), outputs([8u8; 32]), true, true),
        CircuitError::ActiveCommitteeMismatch
    );
}

#[test]
fn the_first_reason_counts() {
    let mut inputs = later();
    inputs.previous_proof = None;
    inputs.previous_vk = None;
    assert_eq!(
        refusal(&inputs, &block(), outputs([8u8; 32]), false, false),
        CircuitError::HeliosProofRejected
    );
    assert_eq!(
        refusal(&inputs, &block(), outputs([8u8; 32]), true, false),
        CircuitError::MissingPreviousProof
    );
}

#[test]
fn an_update_without_a_real_proof_is_refused() {
    let trusted = outputs(TRUSTED_SYNC_COMMITTEE_HASH);
    assert_eq!(
        verify_update(&first(), &block(), trusted),
        Err(CircuitError::HeliosProofRejected)
    );
    assert_eq!(
        verify_update(&later(), &block(), outputs(COMMITTEE)),
        Err(CircuitError::HeliosProofRejected)
    );
    assert_eq!(
        verify_update(&first(), &block(), None),
        Err(CircuitError::UndecodableHeliosOutputs)
    );
}

#[test]
fn refusals_have_messages() {
    assert_eq!(
        CircuitError::HeliosProofRejected.message(),
        "Failed to verify helios zk light client update"
    );
    assert_eq!(CircuitError::MissingPreviousProof.message(), "Previous proof is not provided");
    assert_eq!(
        CircuitError::MissingPreviousPublicValues.message(),
        "Previous public values is not provided"
    );
    assert_eq!(CircuitError::MissingPreviousVk.message(), "Previous vk is not provided");
    assert_eq!(CircuitError::PreviousProofRejected.message(), "Failed to verify previous proof");
}
