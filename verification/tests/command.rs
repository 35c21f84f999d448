use helios_recursion::command::{Args, Command};
use helios_recursion::state::ServiceState;

fn none() -> Args {
    Args {
        delete: false,
        generate_recursion_circuit: None,
        generate_wrapper_circuit: false,
        dump_elfs: false,
    }
}

#[test]
fn tasks_are_told_apart() {
    assert_eq!(none().command(), Command::Run);
    assert_eq!(Args { delete: true, ..none() }.command(), Command::Run);
    assert_eq!(
        Args { generate_recursion_circuit: Some(42), ..none() }.command(),
        Command::GenerateRecursionCircuit { initial_slot: 42 }
    );
    assert_eq!(
        Args { generate_wrapper_circuit: true, ..none() }.command(),
        Command::GenerateWrapperCircuit
    );
    assert_eq!(Args { dump_elfs: true, ..none() }.command(), Command::DumpElfs);
}

#[test]
fn the_first_task_counts() {
    let mut args = Args {
        delete: true,
        generate_recursion_circuit: Some(1),
        generate_wrapper_circuit: true,
        dump_elfs: true,
    };
    assert_eq!(args.command(), Command::GenerateRecursionCircuit { initial_slot: 1 });
    args.generate_recursion_circuit = None;
    assert_eq!(args.command(), Command::GenerateWrapperCircuit);
    args.generate_wrapper_circuit = false;
    assert_eq!(args.command(), Command::DumpElfs);
}

#[test]
fn a_new_state_starts_from_the_initial_slot() {
    assert_eq!(none().initial_slot(), 7606080);
    let state = none().starting_state(None);
    assert_eq!(state.trusted_slot, 7606080);
    assert_eq!(state.trusted_height, 0);
    assert_eq!(state.trusted_root, [0u8; 32]);
    assert_eq!(state.update_counter, 0);
    assert!(state.most_recent_proof.is_none());
    assert!(state.genesis_committee_hash.is_none());
    assert_eq!(state.active_committee_hash, [0u8; 32]);
    let args = Args { generate_recursion_circuit: Some(8), ..none() };
    assert_eq!(args.starting_state(None).trusted_slot, 8);
}

#[test]
fn a_stored_state_is_kept() {
    let mut stored = ServiceState::new(100);
    stored.update_counter = 3;
    let args = Args { generate_recursion_circuit: Some(8), ..none() };
    let state = args.starting_state(Some(stored));
    assert_eq!(state.trusted_slot, 100);
    assert_eq!(state.update_counter, 3);
}

#[test]
fn a_deleted_state_is_not_kept() {
    let mut stored = ServiceState::new(100);
    stored.update_counter = 3;
    let args = Args { delete: true, ..none() };
    let state = args.starting_state(Some(stored));
    assert_eq!(state.trusted_slot, 7606080);
    assert_eq!(state.update_counter, 0);
    assert_eq!(args.starting_state(None).trusted_slot, 7606080);
}
