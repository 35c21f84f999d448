//! Which of its tasks the service carries out.

use crate::state::{ServiceState, StateView};
use vstd::prelude::*;

verus! {

/// The slot that the service starts from unless told otherwise.
pub const DEFAULT_SLOT: u64 = 7606080;

/// The command line of the service.
pub struct Args {
    /// Delete the stored state before starting.
    pub delete: bool,
    /// Generate the recursion circuit. The slot is the one to start from.
    pub generate_recursion_circuit: Option<u64>,
    /// Generate the wrapper circuit.
    pub generate_wrapper_circuit: bool,
    /// Write the circuit binaries out.
    pub dump_elfs: bool,
}

/// A task of the service.
#[derive(Debug, Clone, Copy, PartialEq, Eq, Structural)]
pub enum Command {
    GenerateRecursionCircuit { initial_slot: u64 },
    GenerateWrapperCircuit,
    DumpElfs,
    Run,
}

impl Args {
    /// The slot to start from.
    pub open spec fn slot(self) -> u64 {
        match self.generate_recursion_circuit {
            Some(slot) => slot,
            None => DEFAULT_SLOT,
        }
    }

    /// The task that is asked for. Of several, the first in this order is carried out, and with
    /// none the service runs.
    pub open spec fn task(self) -> Command {
        if self.generate_recursion_circuit is Some {
            Command::GenerateRecursionCircuit { initial_slot: self.slot() }
        } else if self.generate_wrapper_circuit {
            Command::GenerateWrapperCircuit
        } else if self.dump_elfs {
            Command::DumpElfs
        } else {
            Command::Run
        }
    }

    /// The slot to start from.
    pub fn initial_slot(&self) -> (slot: u64)
        ensures
            slot == self.slot(),
    {
        match self.generate_recursion_circuit {
            Some(slot) => slot,
            None => DEFAULT_SLOT,
        }
    }

    /// The task that is asked for.
    pub fn command(&self) -> (command: Command)
        ensures
            command == self.task(),
    {
        if self.generate_recursion_circuit.is_some() {
            Command::GenerateRecursionCircuit { initial_slot: self.initial_slot() }
        } else if self.generate_wrapper_circuit {
            Command::GenerateWrapperCircuit
        } else if self.dump_elfs {
            Command::DumpElfs
        } else {
            Command::Run
        }
    }

    /// The state that the service starts with: the stored one, or a new one from the initial slot
    /// where there is none or it is to be deleted.
    pub fn starting_state(&self, stored: Option<ServiceState>) -> (state: ServiceState)
        ensures
            match stored {
                Some(s) if !self.delete => state == s,
                _ => state@ == StateView::fresh(self.slot()),
            },
    {
        match stored {
            Some(s) if !self.delete => s,
            _ => ServiceState::new(self.initial_slot()),
        }
    }
}

/// The task is the first that is asked for of generating the recursion circuit, generating the
/// wrapper circuit and writing the binaries out, and the run where none is. The recursion circuit is
/// generated for the slot that is given with it. Whether the state is deleted makes no difference.
pub proof fn law_first_task_is_carried_out(args: Args, slot: u64)
    ensures
        args.generate_recursion_circuit == Some(slot) ==> args.task()
            == (Command::GenerateRecursionCircuit { initial_slot: slot }) && args.slot() == slot,
        args.generate_recursion_circuit is None ==> args.slot() == 7606080,
        args.generate_recursion_circuit is None && args.generate_wrapper_circuit ==> args.task()
            == Command::GenerateWrapperCircuit,
        args.generate_recursion_circuit is None && !args.generate_wrapper_circuit && args.dump_elfs
            ==> args.task() == Command::DumpElfs,
        args.generate_recursion_circuit is None && !args.generate_wrapper_circuit
            && !args.dump_elfs ==> args.task() == Command::Run,
{
}

} // verus!
