use helios_recursion::bytes::{copy_bytes, same_bytes, to_hash};
use helios_recursion::circuit::{judge, BlockRoots, HeliosOutputs, TRUSTED_HEAD};
use helios_recursion::session::{Action, Event, Keys, ServiceError, Session};
use helios_recursion::state::{slot_of, ProofData, ServiceState};
use helios_recursion::wire::{
    ElectraBlockHeader, RecursionCircuitInputs, RecursionCircuitOutputs, WrapperCircuitInputs,
};

const COMMITTEE: [u8; 32] = [
    0, 173, 0, 173, 0, 173, 0, 173, 0, 173, 0, 173, 0, 173, 0, 173, 0, 173, 0, 173, 0, 173, 0, 173,
    0, 173, 0, 173, 0, 173, 0, 173,
];

fn keys() -> Keys {
    Keys { helios_vk: "0xhelios".to_string(), wrapper_vk: "0xwrapper".to_string() }
}

fn data(bytes: &[u8], public_values: &[u8]) -> ProofData {
    ProofData { bytes: bytes.to_vec(), public_values: public_values.to_vec() }
}

fn head(slot: u64) -> [u8; 32] {
    let mut bytes = [0u8; 32];
    bytes[24..].copy_from_slice(&slot.to_be_bytes());
    bytes
}

fn outputs(slot: u64) -> HeliosOutputs {
    HeliosOutputs {
        new_header: [4u8; 32],
        new_head: head(slot),
        prev_sync_committee_hash: [6u8; 32],
    }
}

fn header() -> ElectraBlockHeader {
    ElectraBlockHeader {
        slot: 11,
        proposer_index: 12,
        parent_root: [1u8; 32],
        state_root: [2u8; 32],
        body_root: [3u8; 32],
    }
}

fn committed(root: &[u8], height: u64) -> Vec<u8> {
    RecursionCircuitOutputs { root: root.to_vec(), height }.encode().unwrap()
}

fn stopped(action: Action) -> ServiceError {
    match action {
        Action::Stop(e) => e,
        _ => panic!("the session goes on"),
    }
}

/// The session after the keys are there.
fn with_keys(state: ServiceState) -> Session {
    let (session, action) = Session::start(state);
    assert!(matches!(action, Action::SetUpKeys));
    session.step(Event::KeysReady(keys())).0
}

/// A session that has completed updates before, with its Helios proof just made.
fn with_helios(state: ServiceState) -> Session {
    let (session, _) = with_keys(state).step(Event::InputsReady(vec![1]));
    let (session, _) = session.step(Event::CommitteeHashed([6u8; 32]));
    session.step(Event::HeliosProved(data(&[20], &[21]))).0
}

fn with_block(state: ServiceState) -> (Session, Action) {
    let (session, _) = with_helios(state).step(Event::OutputsDecoded(outputs(500)));
    session.step(Event::BlockFetched { body_roots: vec![70, 71], header: header() })
}

fn with_recursion(state: ServiceState, public_values: &[u8]) -> Session {
    with_block(state).0.step(Event::RecursionProved(data(&[30], public_values))).0
}

fn later_state() -> ServiceState {
    let mut state = ServiceState::new(400);
    state.update_counter = 1;
    state.most_recent_proof = Some(data(&[90], &[91, 92]));
    state.genesis_committee_hash = Some("abcd".to_string());
    state
}

#[test]
fn the_first_round_completes_an_update() {
    let (session, action) = Session::start(ServiceState::new(TRUSTED_HEAD));
    assert!(matches!(action, Action::SetUpKeys));
    let (session, action) = session.step(Event::KeysReady(keys()));
    assert!(matches!(action, Action::Preprocess { trusted_slot: TRUSTED_HEAD }));
    let (session, action) = session.step(Event::InputsReady(vec![1, 2, 3]));
    assert!(matches!(action, Action::HashCommittee(inputs) if inputs == vec![1, 2, 3]));
    let (session, action) = session.step(Event::CommitteeHashed(COMMITTEE));
    assert!(matches!(action, Action::ProveHelios(inputs) if inputs == vec![1, 2, 3]));
    assert_eq!(session.state.genesis_committee_hash, Some("00ad".repeat(16)));
    let (session, action) = session.step(Event::HeliosProved(data(&[20], &[21, 22])));
    assert!(matches!(action, Action::DecodeOutputs(values) if values == vec![21, 22]));
    let (session, action) = session.step(Event::OutputsDecoded(outputs(TRUSTED_HEAD + 64)));
    assert!(matches!(action, Action::FetchBlock { slot } if slot == TRUSTED_HEAD + 64));
    let (session, action) =
        session.step(Event::BlockFetched { body_roots: vec![70, 71], header: header() });
    let bytes = match action {
        Action::ProveRecursion(bytes) => bytes,
        _ => panic!("no recursion step"),
    };
    let inputs = RecursionCircuitInputs::decode(&bytes, 2).ok().unwrap();
    assert_eq!(inputs.active_committee_hash, [0u8; 32]);
    assert_eq!(inputs.electra_body_roots, vec![70, 71]);
    assert_eq!(inputs.electra_header.slot, 11);
    assert_eq!(inputs.electra_header.body_root, [3u8; 32]);
    assert_eq!(inputs.helios_proof, vec![20]);
    assert_eq!(inputs.helios_public_values, vec![21, 22]);
    assert_eq!(inputs.helios_vk, "0xhelios");
    assert_eq!(inputs.previous_proof, None);
    assert_eq!(inputs.previous_public_values, None);
    assert_eq!(inputs.previous_vk, None);
    assert_eq!(inputs.previous_head, TRUSTED_HEAD);

    let values = committed(&[5u8; 32], 21_000_000);
    let (session, action) = session.step(Event::RecursionProved(data(&[30], &values)));
    let expected = WrapperCircuitInputs {
        recursive_proof: vec![30],
        recursive_public_values: values.clone(),
        recursive_vk: "0xwrapper".to_string(),
    }
    .encode()
    .unwrap();
    assert!(matches!(action, Action::ProveWrapper(bytes) if bytes == expected));
    assert_eq!(session.state.update_counter, 0);
    let (session, action) = session.step(Event::WrapperProved(data(&[40], &[41])));
    assert!(matches!(action, Action::Save));
    assert_eq!(session.state.update_counter, 1);
    assert_eq!(session.state.trusted_slot, TRUSTED_HEAD + 64);
    assert_eq!(session.state.trusted_height, 21_000_000);
    assert_eq!(session.state.trusted_root, [5u8; 32]);
    assert_eq!(session.state.genesis_committee_hash, Some("00ad".repeat(16)));
    assert_eq!(session.state.active_committee_hash, [0u8; 32]);
    let kept = session.state.most_recent_proof.as_ref().unwrap();
    assert_eq!(kept.bytes, vec![40]);
    assert_eq!(kept.public_values, vec![41]);
    let (session, action) = session.step(Event::Saved);
    assert!(matches!(action, Action::SetUpKeys));
    let (_, action) = session.step(Event::KeysReady(keys()));
    assert!(matches!(action, Action::Preprocess { trusted_slot } if trusted_slot == TRUSTED_HEAD + 64));
}

#[test]
fn a_later_round_carries_the_previous_proof() {
    let (session, action) = with_keys(later_state()).step(Event::InputsReady(vec![1]));
    assert!(matches!(action, Action::HashCommittee(inputs) if inputs == vec![1]));
    let (session, action) = session.step(Event::CommitteeHashed([6u8; 32]));
    assert!(matches!(action, Action::ProveHelios(inputs) if inputs == vec![1]));
    assert_eq!(session.state.genesis_committee_hash, Some("abcd".to_string()));
    assert_eq!(session.state.active_committee_hash, [6u8; 32]);
    let (_, action) = with_block(later_state());
    let bytes = match action {
        Action::ProveRecursion(bytes) => bytes,
        _ => panic!("no recursion step"),
    };
    let inputs = RecursionCircuitInputs::decode(&bytes, 2).ok().unwrap();
    assert_eq!(inputs.previous_proof, Some(vec![90]));
    assert_eq!(inputs.previous_public_values, Some(vec![91, 92]));
    assert_eq!(inputs.previous_vk, Some("0xwrapper".to_string()));
    assert_eq!(inputs.previous_head, 400);
    assert_eq!(inputs.active_committee_hash, [6u8; 32]);
}

#[test]
fn a_later_round_completes_an_update() {
    let session = with_recursion(later_state(), &committed(&[8u8; 32], 77));
    let (session, action) = session.step(Event::WrapperProved(data(&[40], &[41])));
    assert!(matches!(action, Action::Save));
    assert_eq!(session.state.update_counter, 2);
    assert_eq!(session.state.trusted_slot, 500);
    assert_eq!(session.state.trusted_height, 77);
    assert_eq!(session.state.trusted_root, [8u8; 32]);
    assert_eq!(session.state.genesis_committee_hash, Some("abcd".to_string()));
}

#[test]
fn without_inputs_the_service_waits() {
    let (session, action) = with_keys(later_state()).step(Event::InputsFailed);
    assert!(matches!(action, Action::Wait { seconds: 60 }));
    let (session, action) = session.step(Event::Waited);
    assert!(matches!(action, Action::SetUpKeys));
    assert_eq!(session.state.trusted_slot, 400);
    assert_eq!(session.state.update_counter, 1);
}

#[test]
fn without_a_helios_proof_the_round_begins_again() {
    let (session, _) = with_keys(later_state()).step(Event::InputsReady(vec![1]));
    let (session, _) = session.step(Event::CommitteeHashed([6u8; 32]));
    let (session, action) = session.step(Event::HeliosFailed);
    assert!(matches!(action, Action::SetUpKeys));
    assert_eq!(session.state.trusted_slot, 400);
    assert_eq!(session.state.update_counter, 1);
    assert_eq!(session.state.most_recent_proof.as_ref().unwrap().bytes, vec![90]);
}

#[test]
fn a_later_round_goes_on_with_the_last_committee() {
    let mut state = later_state();
    state.active_committee_hash = [7u8; 32];
    let (session, _) = with_keys(state).step(Event::InputsReady(vec![1]));
    let (session, action) = session.step(Event::CommitteeUnreadable);
    assert!(matches!(action, Action::ProveHelios(inputs) if inputs == vec![1]));
    assert_eq!(session.state.active_committee_hash, [7u8; 32]);
    assert_eq!(session.state.genesis_committee_hash, Some("abcd".to_string()));
}

#[test]
fn the_service_stops_on_every_other_failure() {
    let first = || ServiceState::new(1);
    let (session, _) = with_keys(first()).step(Event::InputsReady(vec![1]));
    assert_eq!(
        stopped(session.step(Event::CommitteeUnreadable).1),
        ServiceError::CommitteeUnreadable
    );
    assert_eq!(
        stopped(with_helios(later_state()).step(Event::OutputsUndecodable).1),
        ServiceError::UndecodableHeliosOutputs
    );
    let mut far = outputs(0);
    far.new_head[23] = 1;
    assert_eq!(
        stopped(with_helios(later_state()).step(Event::OutputsDecoded(far)).1),
        ServiceError::HeadOutOfRange
    );
    let mut lost = later_state();
    lost.most_recent_proof = None;
    assert_eq!(stopped(with_block(lost).1), ServiceError::MissingPreviousProof);
    assert_eq!(
        stopped(with_block(later_state()).0.step(Event::RecursionFailed).1),
        ServiceError::RecursionProofFailed
    );
    let good = committed(&[5u8; 32], 1);
    assert_eq!(
        stopped(with_recursion(later_state(), &good).step(Event::WrapperFailed).1),
        ServiceError::WrapperProofFailed
    );
    assert_eq!(
        stopped(with_recursion(later_state(), &[1, 2]).step(Event::WrapperProved(data(&[40], &[41]))).1),
        ServiceError::MalformedOutputs
    );
    let short = committed(&[5u8; 31], 1);
    assert_eq!(
        stopped(with_recursion(later_state(), &short).step(Event::WrapperProved(data(&[40], &[41]))).1),
        ServiceError::RootNotAHash
    );
    let mut last = later_state();
    last.update_counter = u64::MAX;
    assert_eq!(
        stopped(with_recursion(last, &good).step(Event::WrapperProved(data(&[40], &[41]))).1),
        ServiceError::CounterExhausted
    );
    let (session, _) = with_recursion(later_state(), &good).step(Event::WrapperProved(data(&[40], &[41])));
    assert_eq!(stopped(session.step(Event::SaveFailed).1), ServiceError::StateNotSaved);
    let (session, action) = with_keys(later_state()).step(Event::Saved);
    assert_eq!(stopped(action), ServiceError::UnexpectedEvent);
    assert_eq!(session.state.trusted_slot, 400);
    assert_eq!(stopped(session.step(Event::Waited).1), ServiceError::UnexpectedEvent);
}

#[test]
fn a_failed_update_leaves_the_state() {
    let session = with_recursion(later_state(), &[1, 2]);
    let (session, _) = session.step(Event::WrapperProved(data(&[40], &[41])));
    assert_eq!(session.state.trusted_slot, 400);
    assert_eq!(session.state.update_counter, 1);
    assert_eq!(session.state.most_recent_proof.as_ref().unwrap().bytes, vec![90]);
}

#[test]
fn what_the_circuit_commits_is_trusted() {
    let (session, action) = with_block(later_state());
    let bytes = match action {
        Action::ProveRecursion(bytes) => bytes,
        _ => panic!("no recursion step"),
    };
    let inputs = RecursionCircuitInputs::decode(&bytes, 2).ok().unwrap();
    let mut number = [0u8; 32];
    number[..8].copy_from_slice(&1234u64.to_le_bytes());
    let block = BlockRoots {
        header_root: [4u8; 32],
        body_root: [3u8; 32],
        state_root: [5u8; 32],
        block_number: number,
    };
    let verdict = judge(&inputs, &block, Some(outputs(500)), true, true).ok().unwrap();
    let values = verdict.encode().unwrap();
    let (session, _) = session.step(Event::RecursionProved(data(&[30], &values)));
    let (session, _) = session.step(Event::WrapperProved(data(&[40], &[41])));
    assert_eq!(session.state.trusted_root, [5u8; 32]);
    assert_eq!(session.state.trusted_height, 1234);
    assert_eq!(session.state.trusted_slot, 500);
}

#[test]
fn errors_have_messages() {
    assert_eq!(ServiceError::MissingPreviousProof.message(), "Missing previous proof in state");
    assert_eq!(ServiceError::RecursionProofFailed.message(), "Failed to prove");
    assert_eq!(ServiceError::WrapperProofFailed.message(), "Failed to prove");
}

#[test]
fn slots_fit_in_64_bits() {
    assert_eq!(slot_of(&head(0)), Some(0));
    assert_eq!(slot_of(&head(7606080)), Some(7606080));
    assert_eq!(slot_of(&head(u64::MAX)), Some(u64::MAX));
    let mut far = head(1);
    far[23] = 1;
    assert_eq!(slot_of(&far), None);
    far[23] = 0;
    far[0] = 128;
    assert_eq!(slot_of(&far), None);
}

#[test]
fn byte_strings_are_compared_and_copied() {
    assert!(same_bytes(&[], &[]));
    assert!(same_bytes(&[1, 2], &[1, 2]));
    assert!(!same_bytes(&[1, 2], &[1, 3]));
    assert!(!same_bytes(&[1, 2], &[1]));
    assert_eq!(copy_bytes(&[3, 4]), vec![3, 4]);
    assert_eq!(to_hash(&[7u8; 32]), Some([7u8; 32]));
    assert_eq!(to_hash(&[7u8; 31]), None);
    assert_eq!(to_hash(&[7u8; 33]), None);
}
