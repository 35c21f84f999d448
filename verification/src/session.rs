//! The service loop: the order of its work and what becomes of its state.
//!
//! A session never does outside work itself. It names the next piece of work as an [`Action`], the
//! caller carries it out and reports an [`Event`], and [`Session::step`] answers with the next
//! action. One round of the loop is one update of the light client.

use crate::bytes::{be_value, copy_bytes, to_hash};
use crate::circuit::{
    committed, verdict_on, BlockView, HeliosOutputs, HeliosView, TRUSTED_HEAD,
    TRUSTED_SYNC_COMMITTEE_HASH,
};
use crate::groth16::verifies;
use crate::state::{
    hex_encode, law_hexadecimal_digits, slot_of, ProofData, ProofView, ServiceState, StateView,
};
use crate::wire::{
    inputs_bytes, inputs_of, law_inputs_round_trip, law_outputs_round_trip, outputs_bytes,
    outputs_of, wrapper_bytes, ElectraBlockHeader, HeaderView, InputsView, RecursionCircuitInputs,
    RecursionCircuitOutputs, WrapperCircuitInputs, WrapperView,
};
use vstd::prelude::*;

verus! {

/// How long the service waits, in seconds, when no proof inputs could be had.
pub const RETRY_SECONDS: u64 = 60;

/// The hashes of the verifying keys that a round works with.
pub struct Keys {
    /// The key of the Helios circuit.
    pub helios_vk: String,
    /// The key of the wrapper circuit.
    pub wrapper_vk: String,
}

/// The mathematical value of [`Keys`].
pub struct KeysView {
    pub helios_vk: Seq<char>,
    pub wrapper_vk: Seq<char>,
}

impl View for Keys {
    type V = KeysView;

    open spec fn view(&self) -> KeysView {
        KeysView { helios_vk: self.helios_vk@, wrapper_vk: self.wrapper_vk@ }
    }
}

/// Why the service stops.
#[derive(Debug, Clone, Copy, PartialEq, Eq, Structural)]
pub enum ServiceError {
    /// The proof inputs of the first update hold no sync committee.
    CommitteeUnreadable,
    /// The public values of the Helios proof are not Helios outputs.
    UndecodableHeliosOutputs,
    /// The new head is not a slot.
    HeadOutOfRange,
    /// An update was completed, but its proof is not in the state.
    MissingPreviousProof,
    /// The inputs of a circuit are too long to be encoded.
    InputsTooLong,
    /// The recursion step could not be proved.
    RecursionProofFailed,
    /// The wrapper step could not be proved.
    WrapperProofFailed,
    /// The public values of the recursion proof are not recursion outputs.
    MalformedOutputs,
    /// The state root of the recursion outputs is not a hash.
    RootNotAHash,
    /// There is no number for another update.
    CounterExhausted,
    /// The new state could not be saved.
    StateNotSaved,
    /// The event is no answer to the last action.
    UnexpectedEvent,
}

/// What is told of an error.
pub open spec fn service_message(e: ServiceError) -> Seq<char> {
    match e {
        ServiceError::CommitteeUnreadable => "Failed to read the sync committee"@,
        ServiceError::UndecodableHeliosOutputs => "Failed to decode the Helios outputs"@,
        ServiceError::HeadOutOfRange => "The new head is not a slot"@,
        ServiceError::MissingPreviousProof => "Missing previous proof in state"@,
        ServiceError::InputsTooLong => "The circuit inputs are too long"@,
        ServiceError::RecursionProofFailed => "Failed to prove"@,
        ServiceError::WrapperProofFailed => "Failed to prove"@,
        ServiceError::MalformedOutputs => "Failed to decode the recursion outputs"@,
        ServiceError::RootNotAHash => "The state root is not a hash"@,
        ServiceError::CounterExhausted => "Too many updates"@,
        ServiceError::StateNotSaved => "Failed to save the state"@,
        ServiceError::UnexpectedEvent => "Unexpected event"@,
    }
}

impl ServiceError {
    /// What is told of the error.
    pub fn message(self) -> (text: &'static str)
        ensures
            text@ == service_message(self),
    {
        match self {
            ServiceError::CommitteeUnreadable => "Failed to read the sync committee",
            ServiceError::UndecodableHeliosOutputs => "Failed to decode the Helios outputs",
            ServiceError::HeadOutOfRange => "The new head is not a slot",
            ServiceError::MissingPreviousProof => "Missing previous proof in state",
            ServiceError::InputsTooLong => "The circuit inputs are too long",
            ServiceError::RecursionProofFailed => "Failed to prove",
            ServiceError::WrapperProofFailed => "Failed to prove",
            ServiceError::MalformedOutputs => "Failed to decode the recursion outputs",
            ServiceError::RootNotAHash => "The state root is not a hash",
            ServiceError::CounterExhausted => "Too many updates",
            ServiceError::StateNotSaved => "Failed to save the state",
            ServiceError::UnexpectedEvent => "Unexpected event",
        }
    }
}

/// What the session waits for.
pub enum Phase {
    AwaitingKeys,
    Waiting,
    AwaitingInputs { keys: Keys },
    AwaitingCommittee { keys: Keys, inputs: Vec<u8> },
    AwaitingHelios { keys: Keys },
    AwaitingOutputs { keys: Keys, helios: ProofData },
    AwaitingBlock { keys: Keys, helios: ProofData, new_head: u64 },
    AwaitingRecursion { wrapper_vk: String, new_head: u64 },
    AwaitingWrapper { new_head: u64, outputs: Vec<u8> },
    AwaitingSave,
    Stopped,
}

/// The mathematical value of [`Phase`].
pub enum PhaseView {
    AwaitingKeys,
    Waiting,
    AwaitingInputs { keys: KeysView },
    AwaitingCommittee { keys: KeysView, inputs: Seq<u8> },
    AwaitingHelios { keys: KeysView },
    AwaitingOutputs { keys: KeysView, helios: ProofView },
    AwaitingBlock { keys: KeysView, helios: ProofView, new_head: u64 },
    AwaitingRecursion { wrapper_vk: Seq<char>, new_head: u64 },
    AwaitingWrapper { new_head: u64, outputs: Seq<u8> },
    AwaitingSave,
    Stopped,
}

impl View for Phase {
    type V = PhaseView;

    open spec fn view(&self) -> PhaseView {
        match *self {
            Phase::AwaitingKeys => PhaseView::AwaitingKeys,
            Phase::Waiting => PhaseView::Waiting,
            Phase::AwaitingInputs { keys } => PhaseView::AwaitingInputs { keys: keys@ },
            Phase::AwaitingCommittee { keys, inputs } => PhaseView::AwaitingCommittee {
                keys: keys@,
                inputs: inputs@,
            },
            Phase::AwaitingHelios { keys } => PhaseView::AwaitingHelios { keys: keys@ },
            Phase::AwaitingOutputs { keys, helios } => PhaseView::AwaitingOutputs {
                keys: keys@,
                helios: helios@,
            },
            Phase::AwaitingBlock { keys, helios, new_head } => PhaseView::AwaitingBlock {
                keys: keys@,
                helios: helios@,
                new_head,
            },
            Phase::AwaitingRecursion { wrapper_vk, new_head } => PhaseView::AwaitingRecursion {
                wrapper_vk: wrapper_vk@,
                new_head,
            },
            Phase::AwaitingWrapper { new_head, outputs } => PhaseView::AwaitingWrapper {
                new_head,
                outputs: outputs@,
            },
            Phase::AwaitingSave => PhaseView::AwaitingSave,
            Phase::Stopped => PhaseView::Stopped,
        }
    }
}

/// What came of the last action.
pub enum Event {
    /// The keys of the circuits are set up.
    KeysReady(Keys),
    /// The time to wait has passed.
    Waited,
    /// The proof inputs for the next block.
    InputsReady(Vec<u8>),
    /// There are no proof inputs for now.
    InputsFailed,
    /// The hash of the sync committee that the proof inputs start from.
    CommitteeHashed([u8; 32]),
    /// The proof inputs could not be read.
    CommitteeUnreadable,
    /// The Helios proof.
    HeliosProved(ProofData),
    /// Helios could not be proved.
    HeliosFailed,
    /// What the public values of the Helios proof decode to.
    OutputsDecoded(HeliosOutputs),
    /// The public values of the Helios proof do not decode.
    OutputsUndecodable,
    /// The header of the block and the roots of its body, as the beacon types encode them.
    BlockFetched { body_roots: Vec<u8>, header: ElectraBlockHeader },
    /// The recursion proof.
    RecursionProved(ProofData),
    /// The recursion step could not be proved.
    RecursionFailed,
    /// The wrapped proof.
    WrapperProved(ProofData),
    /// The wrapper step could not be proved.
    WrapperFailed,
    /// The state is saved.
    Saved,
    /// The state could not be saved.
    SaveFailed,
}

/// The mathematical value of [`Event`].
pub enum EventView {
    KeysReady(KeysView),
    Waited,
    InputsReady(Seq<u8>),
    InputsFailed,
    CommitteeHashed(Seq<u8>),
    CommitteeUnreadable,
    HeliosProved(ProofView),
    HeliosFailed,
    OutputsDecoded(HeliosView),
    OutputsUndecodable,
    BlockFetched { body_roots: Seq<u8>, header: HeaderView },
    RecursionProved(ProofView),
    RecursionFailed,
    WrapperProved(ProofView),
    WrapperFailed,
    Saved,
    SaveFailed,
}

impl View for Event {
    type V = EventView;

    open spec fn view(&self) -> EventView {
        match *self {
            Event::KeysReady(keys) => EventView::KeysReady(keys@),
            Event::Waited => EventView::Waited,
            Event::InputsReady(inputs) => EventView::InputsReady(inputs@),
            Event::InputsFailed => EventView::InputsFailed,
            Event::CommitteeHashed(root) => EventView::CommitteeHashed(root@),
            Event::CommitteeUnreadable => EventView::CommitteeUnreadable,
            Event::HeliosProved(p) => EventView::HeliosProved(p@),
            Event::HeliosFailed => EventView::HeliosFailed,
            Event::OutputsDecoded(outputs) => EventView::OutputsDecoded(outputs@),
            Event::OutputsUndecodable => EventView::OutputsUndecodable,
            Event::BlockFetched { body_roots, header } => EventView::BlockFetched {
                body_roots: body_roots@,
                header: header@,
            },
            Event::RecursionProved(p) => EventView::RecursionProved(p@),
            Event::RecursionFailed => EventView::RecursionFailed,
            Event::WrapperProved(p) => EventView::WrapperProved(p@),
            Event::WrapperFailed => EventView::WrapperFailed,
            Event::Saved => EventView::Saved,
            Event::SaveFailed => EventView::SaveFailed,
        }
    }
}

impl EventView {
    /// Whether a committee hash has the length of a hash.
    pub open spec fn well_formed(self) -> bool {
        self matches EventView::CommitteeHashed(root) ==> root.len() == 32
    }
}

/// What the caller is to do next.
pub enum Action {
    /// Set up the keys of the circuits.
    SetUpKeys,
    /// Wait.
    Wait { seconds: u64 },
    /// Get the proof inputs for the block after the trusted slot.
    Preprocess { trusted_slot: u64 },
    /// Hash the sync committee that these proof inputs start from.
    HashCommittee(Vec<u8>),
    /// Prove Helios on these proof inputs.
    ProveHelios(Vec<u8>),
    /// Decode these public values of a Helios proof.
    DecodeOutputs(Vec<u8>),
    /// Fetch the block and the beacon header of this slot.
    FetchBlock { slot: u64 },
    /// Prove the recursion circuit on these bytes.
    ProveRecursion(Vec<u8>),
    /// Prove the wrapper circuit on these bytes.
    ProveWrapper(Vec<u8>),
    /// Save the state.
    Save,
    /// Stop the service.
    Stop(ServiceError),
}

/// The mathematical value of [`Action`].
pub enum ActionView {
    SetUpKeys,
    Wait { seconds: u64 },
    Preprocess { trusted_slot: u64 },
    HashCommittee(Seq<u8>),
    ProveHelios(Seq<u8>),
    DecodeOutputs(Seq<u8>),
    FetchBlock { slot: u64 },
    ProveRecursion(Seq<u8>),
    ProveWrapper(Seq<u8>),
    Save,
    Stop(ServiceError),
}

impl View for Action {
    type V = ActionView;

    open spec fn view(&self) -> ActionView {
        match *self {
            Action::SetUpKeys => ActionView::SetUpKeys,
            Action::Wait { seconds } => ActionView::Wait { seconds },
            Action::Preprocess { trusted_slot } => ActionView::Preprocess { trusted_slot },
            Action::HashCommittee(inputs) => ActionView::HashCommittee(inputs@),
            Action::ProveHelios(inputs) => ActionView::ProveHelios(inputs@),
            Action::DecodeOutputs(values) => ActionView::DecodeOutputs(values@),
            Action::FetchBlock { slot } => ActionView::FetchBlock { slot },
            Action::ProveRecursion(bytes) => ActionView::ProveRecursion(bytes@),
            Action::ProveWrapper(bytes) => ActionView::ProveWrapper(bytes@),
            Action::Save => ActionView::Save,
            Action::Stop(e) => ActionView::Stop(e),
        }
    }
}

/// A run of the service.
pub struct Session {
    pub state: ServiceState,
    pub phase: Phase,
}

/// The mathematical value of [`Session`].
pub struct SessionView {
    pub state: StateView,
    pub phase: PhaseView,
}

impl View for Session {
    type V = SessionView;

    open spec fn view(&self) -> SessionView {
        SessionView { state: self.state@, phase: self.phase@ }
    }
}

impl SessionView {
    /// The session in another phase.
    pub open spec fn at(self, phase: PhaseView) -> SessionView {
        SessionView { phase, ..self }
    }

    /// The session with another state.
    pub open spec fn with(self, state: StateView) -> SessionView {
        SessionView { state, ..self }
    }

    /// What every session keeps: its hashes have the length of one, and the proof of the last
    /// update is there.
    pub open spec fn well_formed(self) -> bool {
        &&& self.state.active_committee_hash.len() == 32
        &&& self.state.trusted_root.len() == 32
        &&& self.state.has_predecessor()
    }

    /// The inputs of the recursion circuit for an update of this session. The proof of the last
    /// update goes with them, except for the first update.
    pub open spec fn recursion_inputs(
        self,
        keys: KeysView,
        helios: ProofView,
        body_roots: Seq<u8>,
        header: HeaderView,
    ) -> InputsView {
        let previous = if self.state.update_counter == 0 {
            None
        } else {
            self.state.most_recent_proof
        };
        InputsView {
            active_committee_hash: self.state.active_committee_hash,
            electra_body_roots: body_roots,
            electra_header: header,
            helios_proof: helios.bytes,
            helios_public_values: helios.public_values,
            helios_vk: keys.helios_vk,
            previous_proof: match previous {
                Some(p) => Some(p.bytes),
                None => None,
            },
            previous_public_values: match previous {
                Some(p) => Some(p.public_values),
                None => None,
            },
            previous_vk: match previous {
                Some(_) => Some(keys.wrapper_vk),
                None => None,
            },
            previous_head: self.state.trusted_slot,
        }
    }
}

/// A new round.
pub open spec fn restarted(s: SessionView) -> (SessionView, ActionView) {
    (s.at(PhaseView::AwaitingKeys), ActionView::SetUpKeys)
}

/// The end of the service.
pub open spec fn stopped(s: SessionView, e: ServiceError) -> (SessionView, ActionView) {
    (s.at(PhaseView::Stopped), ActionView::Stop(e))
}

/// The sync committee that the proof inputs start from could not be read. The first update cannot do
/// without it; any other goes on with the committee that was last noted.
pub open spec fn after_unreadable_committee(s: SessionView, keys: KeysView, inputs: Seq<u8>) -> (
    SessionView,
    ActionView,
) {
    if s.state.update_counter == 0 {
        stopped(s, ServiceError::CommitteeUnreadable)
    } else {
        (s.at(PhaseView::AwaitingHelios { keys }), ActionView::ProveHelios(inputs))
    }
}

/// The Helios outputs are there: their head is the slot of the block to fetch.
pub open spec fn after_outputs(
    s: SessionView,
    keys: KeysView,
    helios: ProofView,
    outputs: HeliosView,
) -> (SessionView, ActionView) {
    if be_value(outputs.new_head) > u64::MAX {
        stopped(s, ServiceError::HeadOutOfRange)
    } else {
        let slot = be_value(outputs.new_head) as u64;
        (
            s.at(PhaseView::AwaitingBlock { keys, helios, new_head: slot }),
            ActionView::FetchBlock { slot },
        )
    }
}

/// The block is there: the recursion step can be proved.
pub open spec fn after_block(
    s: SessionView,
    keys: KeysView,
    helios: ProofView,
    new_head: u64,
    body_roots: Seq<u8>,
    header: HeaderView,
) -> (SessionView, ActionView) {
    let inputs = s.recursion_inputs(keys, helios, body_roots, header);
    if !s.state.has_predecessor() {
        stopped(s, ServiceError::MissingPreviousProof)
    } else if !inputs.encodable() {
        stopped(s, ServiceError::InputsTooLong)
    } else {
        (
            s.at(PhaseView::AwaitingRecursion { wrapper_vk: keys.wrapper_vk, new_head }),
            ActionView::ProveRecursion(inputs_bytes(inputs)),
        )
    }
}

/// The recursion proof is there: the wrapper step can be proved.
pub open spec fn after_recursion(
    s: SessionView,
    wrapper_vk: Seq<char>,
    new_head: u64,
    recursive: ProofView,
) -> (SessionView, ActionView) {
    let inputs = WrapperView {
        recursive_proof: recursive.bytes,
        recursive_public_values: recursive.public_values,
        recursive_vk: wrapper_vk,
    };
    if !inputs.encodable() {
        stopped(s, ServiceError::InputsTooLong)
    } else {
        (
            s.at(PhaseView::AwaitingWrapper { new_head, outputs: recursive.public_values }),
            ActionView::ProveWrapper(wrapper_bytes(inputs)),
        )
    }
}

/// Everything is proved: the state moves on to the new head and to what the recursion proof
/// committed to, and the wrapped proof is kept.
pub open spec fn after_wrapper(
    s: SessionView,
    new_head: u64,
    outputs: Seq<u8>,
    wrapped: ProofView,
) -> (SessionView, ActionView) {
    match outputs_of(outputs) {
        None => stopped(s, ServiceError::MalformedOutputs),
        Some(outputs) => if outputs.root.len() != 32 {
            stopped(s, ServiceError::RootNotAHash)
        } else if s.state.update_counter == u64::MAX {
            stopped(s, ServiceError::CounterExhausted)
        } else {
            (
                s.with(s.state.updated(wrapped, new_head, outputs)).at(PhaseView::AwaitingSave),
                ActionView::Save,
            )
        },
    }
}

/// Where an event takes a session, and what is to be done next.
pub open spec fn transition(s: SessionView, e: EventView) -> (SessionView, ActionView) {
    match (s.phase, e) {
        (PhaseView::AwaitingKeys, EventView::KeysReady(keys)) => (
            s.at(PhaseView::AwaitingInputs { keys }),
            ActionView::Preprocess { trusted_slot: s.state.trusted_slot },
        ),
        (PhaseView::AwaitingInputs { .. }, EventView::InputsFailed) => (
            s.at(PhaseView::Waiting),
            ActionView::Wait { seconds: RETRY_SECONDS },
        ),
        (PhaseView::Waiting, EventView::Waited) => restarted(s),
        (PhaseView::AwaitingInputs { keys }, EventView::InputsReady(inputs)) => (
            s.at(PhaseView::AwaitingCommittee { keys, inputs }),
            ActionView::HashCommittee(inputs),
        ),
        (
            PhaseView::AwaitingCommittee { keys, inputs },
            EventView::CommitteeHashed(root),
        ) => (
            s.with(s.state.with_committee(root)).at(PhaseView::AwaitingHelios { keys }),
            ActionView::ProveHelios(inputs),
        ),
        (
            PhaseView::AwaitingCommittee { keys, inputs },
            EventView::CommitteeUnreadable,
        ) => after_unreadable_committee(s, keys, inputs),
        (PhaseView::AwaitingHelios { keys }, EventView::HeliosProved(helios)) => (
            s.at(PhaseView::AwaitingOutputs { keys, helios }),
            ActionView::DecodeOutputs(helios.public_values),
        ),
        (PhaseView::AwaitingHelios { .. }, EventView::HeliosFailed) => restarted(s),
        (
            PhaseView::AwaitingOutputs { keys, helios },
            EventView::OutputsDecoded(outputs),
        ) => after_outputs(s, keys, helios, outputs),
        (PhaseView::AwaitingOutputs { .. }, EventView::OutputsUndecodable) => stopped(
            s,
            ServiceError::UndecodableHeliosOutputs,
        ),
        (
            PhaseView::AwaitingBlock { keys, helios, new_head },
            EventView::BlockFetched { body_roots, header },
        ) => after_block(s, keys, helios, new_head, body_roots, header),
        (
            PhaseView::AwaitingRecursion { wrapper_vk, new_head },
            EventView::RecursionProved(recursive),
        ) => after_recursion(s, wrapper_vk, new_head, recursive),
        (PhaseView::AwaitingRecursion { .. }, EventView::RecursionFailed) => stopped(
            s,
            ServiceError::RecursionProofFailed,
        ),
        (
            PhaseView::AwaitingWrapper { new_head, outputs },
            EventView::WrapperProved(wrapped),
        ) => after_wrapper(s, new_head, outputs, wrapped),
        (PhaseView::AwaitingWrapper { .. }, EventView::WrapperFailed) => stopped(
            s,
            ServiceError::WrapperProofFailed,
        ),
        (PhaseView::AwaitingSave, EventView::Saved) => restarted(s),
        (PhaseView::AwaitingSave, EventView::SaveFailed) => stopped(s, ServiceError::StateNotSaved),
        _ => stopped(s, ServiceError::UnexpectedEvent),
    }
}

impl Session {
    /// Starts the service from a stored or a fresh state.
    pub fn start(state: ServiceState) -> (started: (Session, Action))
        ensures
            started.0@ == (SessionView {
                state: state@,
                phase: PhaseView::AwaitingKeys,
            }),
            started.1@ == ActionView::SetUpKeys,
            state@.has_predecessor() ==> started.0@.well_formed(),
    {
        (Session { state, phase: Phase::AwaitingKeys }, Action::SetUpKeys)
    }

    /// Moves the session to another phase.
    fn go(self, phase: Phase, action: Action) -> (next: (Session, Action))
        ensures
            next.0@ == self@.at(phase@),
            next.1@ == action@,
    {
        (Session { state: self.state, phase }, action)
    }

    /// Stops the service.
    fn stop(self, e: ServiceError) -> (next: (Session, Action))
        ensures
            (next.0@, next.1@) == stopped(self@, e),
    {
        self.go(Phase::Stopped, Action::Stop(e))
    }

    /// Begins a new round.
    fn restart(self) -> (next: (Session, Action))
        ensures
            (next.0@, next.1@) == restarted(self@),
    {
        self.go(Phase::AwaitingKeys, Action::SetUpKeys)
    }

    fn accept_committee(self, keys: Keys, inputs: Vec<u8>, root: [u8; 32]) -> (next: (
        Session,
        Action,
    ))
        ensures
            next.0@ == self@.with(self@.state.with_committee(root@)).at(
                PhaseView::AwaitingHelios { keys: keys@ },
            ),
            next.1@ == ActionView::ProveHelios(inputs@),
    {
        let mut session = self;
        if session.state.update_counter == 0 {
            session.state.genesis_committee_hash = Some(hex_encode(&root));
        } else {
            session.state.active_committee_hash = root;
        }
        session.go(Phase::AwaitingHelios { keys }, Action::ProveHelios(inputs))
    }

    fn miss_committee(self, keys: Keys, inputs: Vec<u8>) -> (next: (Session, Action))
        ensures
            (next.0@, next.1@) == after_unreadable_committee(self@, keys@, inputs@),
    {
        if self.state.update_counter == 0 {
            self.stop(ServiceError::CommitteeUnreadable)
        } else {
            self.go(Phase::AwaitingHelios { keys }, Action::ProveHelios(inputs))
        }
    }

    fn accept_outputs(self, keys: Keys, helios: ProofData, outputs: HeliosOutputs) -> (next: (
        Session,
        Action,
    ))
        ensures
            (next.0@, next.1@) == after_outputs(self@, keys@, helios@, outputs@),
    {
        match slot_of(&outputs.new_head) {
            Some(slot) => self.go(
                Phase::AwaitingBlock { keys, helios, new_head: slot },
                Action::FetchBlock { slot },
            ),
            None => self.stop(ServiceError::HeadOutOfRange),
        }
    }

    fn accept_block(
        self,
        keys: Keys,
        helios: ProofData,
        new_head: u64,
        body_roots: Vec<u8>,
        header: ElectraBlockHeader,
    ) -> (next: (Session, Action))
        ensures
            (next.0@, next.1@) == after_block(
                self@,
                keys@,
                helios@,
                new_head,
                body_roots@,
                header@,
            ),
    {
        let mut previous_proof: Option<Vec<u8>> = None;
        let mut previous_public_values: Option<Vec<u8>> = None;
        let mut previous_vk: Option<String> = None;
        if self.state.update_counter != 0 {
            match &self.state.most_recent_proof {
                Some(p) => {
                    previous_proof = Some(copy_bytes(&p.bytes));
                    previous_public_values = Some(copy_bytes(&p.public_values));
                    previous_vk = Some(keys.wrapper_vk.clone());
                },
                None => {
                    return self.stop(ServiceError::MissingPreviousProof);
                },
            }
        }
        let inputs = RecursionCircuitInputs {
            active_committee_hash: self.state.active_committee_hash,
            electra_body_roots: body_roots,
            electra_header: header,
            helios_proof: helios.bytes,
            helios_public_values: helios.public_values,
            helios_vk: keys.helios_vk,
            previous_proof,
            previous_public_values,
            previous_vk,
            previous_head: self.state.trusted_slot,
        };
        match inputs.encode() {
            Ok(bytes) => self.go(
                Phase::AwaitingRecursion { wrapper_vk: keys.wrapper_vk, new_head },
                Action::ProveRecursion(bytes),
            ),
            Err(_) => self.stop(ServiceError::InputsTooLong),
        }
    }

    fn accept_recursion(self, wrapper_vk: String, new_head: u64, recursive: ProofData) -> (next: (
        Session,
        Action,
    ))
        ensures
            (next.0@, next.1@) == after_recursion(self@, wrapper_vk@, new_head, recursive@),
    {
        let inputs = WrapperCircuitInputs {
            recursive_proof: recursive.bytes,
            recursive_public_values: copy_bytes(&recursive.public_values),
            recursive_vk: wrapper_vk,
        };
        match inputs.encode() {
            Ok(bytes) => self.go(
                Phase::AwaitingWrapper { new_head, outputs: recursive.public_values },
                Action::ProveWrapper(bytes),
            ),
            Err(_) => self.stop(ServiceError::InputsTooLong),
        }
    }

    fn accept_wrapper(self, new_head: u64, outputs: Vec<u8>, wrapped: ProofData) -> (next: (
        Session,
        Action,
    ))
        ensures
            (next.0@, next.1@) == after_wrapper(self@, new_head, outputs@, wrapped@),
    {
        let outputs: RecursionCircuitOutputs = match RecursionCircuitOutputs::decode(&outputs) {
            Ok(outputs) => outputs,
            Err(_) => return self.stop(ServiceError::MalformedOutputs),
        };
        let root: [u8; 32] = match to_hash(&outputs.root) {
            Some(root) => root,
            None => return self.stop(ServiceError::RootNotAHash),
        };
        if self.state.update_counter == u64::MAX {
            return self.stop(ServiceError::CounterExhausted);
        }
        let state = ServiceState {
            most_recent_proof: Some(wrapped),
            trusted_slot: new_head,
            trusted_height: outputs.height,
            trusted_root: root,
            update_counter: self.state.update_counter + 1,
            genesis_committee_hash: self.state.genesis_committee_hash,
            active_committee_hash: self.state.active_committee_hash,
        };
        (Session { state, phase: Phase::AwaitingSave }, Action::Save)
    }

    /// Takes note of what came of the last action and says what is to be done next.
    pub fn step(self, event: Event) -> (next: (Session, Action))
        ensures
            (next.0@, next.1@) == transition(self@, event@),
    {
        let session = Session { state: self.state, phase: Phase::Stopped };
        match (self.phase, event) {
            (Phase::AwaitingKeys, Event::KeysReady(keys)) => {
                let trusted_slot: u64 = session.state.trusted_slot;
                session.go(Phase::AwaitingInputs { keys }, Action::Preprocess { trusted_slot })
            },
            (Phase::AwaitingInputs { .. }, Event::InputsFailed) => session.go(
                Phase::Waiting,
                Action::Wait { seconds: RETRY_SECONDS },
            ),
            (Phase::Waiting, Event::Waited) => session.restart(),
            (Phase::AwaitingInputs { keys }, Event::InputsReady(inputs)) => {
                let kept: Vec<u8> = copy_bytes(&inputs);
                session.go(
                    Phase::AwaitingCommittee { keys, inputs: kept },
                    Action::HashCommittee(inputs),
                )
            },
            (
                Phase::AwaitingCommittee { keys, inputs },
                Event::CommitteeHashed(root),
            ) => session.accept_committee(keys, inputs, root),
            (
                Phase::AwaitingCommittee { keys, inputs },
                Event::CommitteeUnreadable,
            ) => session.miss_committee(keys, inputs),
            (Phase::AwaitingHelios { keys }, Event::HeliosProved(helios)) => {
                let values: Vec<u8> = copy_bytes(&helios.public_values);
                session.go(Phase::AwaitingOutputs { keys, helios }, Action::DecodeOutputs(values))
            },
            (Phase::AwaitingHelios { .. }, Event::HeliosFailed) => session.restart(),
            (
                Phase::AwaitingOutputs { keys, helios },
                Event::OutputsDecoded(outputs),
            ) => session.accept_outputs(keys, helios, outputs),
            (Phase::AwaitingOutputs { .. }, Event::OutputsUndecodable) => session.stop(
                ServiceError::UndecodableHeliosOutputs,
            ),
            (
                Phase::AwaitingBlock { keys, helios, new_head },
                Event::BlockFetched { body_roots, header },
            ) => session.accept_block(keys, helios, new_head, body_roots, header),
            (
                Phase::AwaitingRecursion { wrapper_vk, new_head },
                Event::RecursionProved(recursive),
            ) => session.accept_recursion(wrapper_vk, new_head, recursive),
            (Phase::AwaitingRecursion { .. }, Event::RecursionFailed) => session.stop(
                ServiceError::RecursionProofFailed,
            ),
            (
                Phase::AwaitingWrapper { new_head, outputs },
                Event::WrapperProved(wrapped),
            ) => session.accept_wrapper(new_head, outputs, wrapped),
            (Phase::AwaitingWrapper { .. }, Event::WrapperFailed) => session.stop(
                ServiceError::WrapperProofFailed,
            ),
            (Phase::AwaitingSave, Event::Saved) => session.restart(),
            (Phase::AwaitingSave, Event::SaveFailed) => session.stop(ServiceError::StateNotSaved),
            _ => session.stop(ServiceError::UnexpectedEvent),
        }
    }
}

/// Where a sequence of events takes a session.
pub open spec fn run(s: SessionView, events: Seq<EventView>) -> SessionView
    decreases events.len(),
{
    if events.len() == 0 {
        s
    } else {
        run(transition(s, events[0]).0, events.skip(1))
    }
}

/// What every session keeps is kept by every event.
pub proof fn law_session_stays_well_formed(s: SessionView, e: EventView)
    requires
        s.well_formed(),
        e.well_formed(),
    ensures
        transition(s, e).0.well_formed(),
{
}

/// An update is all or nothing. The state moves on exactly when it is to be saved, with the wrapped
/// proof of the round, the head that it proves and the outputs that the recursion proof committed
/// to. Any other event leaves all of these as they were, though it may note a sync committee.
pub proof fn law_update_is_all_or_nothing(s: SessionView, e: EventView)
    ensures
        match transition(s, e) {
            (t, ActionView::Save) => s.phase matches PhaseView::AwaitingWrapper {
                new_head,
                outputs,
            } && e matches EventView::WrapperProved(wrapped) && outputs_of(outputs) is Some
                && t.state == s.state.updated(wrapped, new_head, outputs_of(outputs)->0)
                && t.state.update_counter == s.state.update_counter + 1,
            (t, _) => s.state == (StateView {
                genesis_committee_hash: s.state.genesis_committee_hash,
                active_committee_hash: s.state.active_committee_hash,
                ..t.state
            }),
        },
{
}

/// The active sync committee changes only when the committee that proof inputs start from is hashed,
/// and never before the first update is completed.
pub proof fn law_active_committee_is_noted_from_the_inputs(s: SessionView, e: EventView)
    ensures
        transition(s, e).0.state.active_committee_hash == match (s.phase, e) {
            (
                PhaseView::AwaitingCommittee { .. },
                EventView::CommitteeHashed(root),
            ) if s.state.update_counter > 0 => root,
            _ => s.state.active_committee_hash,
        },
{
}

/// In a round after the first, the circuit is told the sync committee that the proof inputs of that
/// round start from.
pub proof fn law_circuit_is_told_the_committee(
    s: SessionView,
    keys: KeysView,
    inputs: Seq<u8>,
    committee: Seq<u8>,
    helios: ProofView,
    outputs: HeliosView,
    body_roots: Seq<u8>,
    header: HeaderView,
)
    requires
        s.phase == PhaseView::AwaitingKeys,
        s.state.update_counter > 0,
        be_value(outputs.new_head) <= u64::MAX,
    ensures
        ({
            let t = run(
                s,
                seq![
                    EventView::KeysReady(keys),
                    EventView::InputsReady(inputs),
                    EventView::CommitteeHashed(committee),
                    EventView::HeliosProved(helios),
                    EventView::OutputsDecoded(outputs),
                ],
            );
            &&& t.phase == (PhaseView::AwaitingBlock {
                keys,
                helios,
                new_head: be_value(outputs.new_head) as u64,
            })
            &&& t.recursion_inputs(keys, helios, body_roots, header).active_committee_hash
                == committee
        }),
{
    reveal_with_fuel(run, 6);
}

/// Completed updates are never lost from the count.
pub proof fn law_counter_never_falls(s: SessionView, events: Seq<EventView>)
    ensures
        run(s, events).state.update_counter >= s.state.update_counter,
    decreases events.len(),
{
    if events.len() > 0 {
        law_update_is_all_or_nothing(s, events[0]);
        law_counter_never_falls(transition(s, events[0]).0, events.skip(1));
    }
}

/// Once an update is completed, the noted hash of the first sync committee never changes.
pub proof fn law_genesis_hash_is_final(s: SessionView, events: Seq<EventView>)
    requires
        s.state.update_counter > 0,
    ensures
        run(s, events).state.genesis_committee_hash == s.state.genesis_committee_hash,
    decreases events.len(),
{
    if events.len() > 0 {
        law_update_is_all_or_nothing(s, events[0]);
        law_genesis_hash_is_final(transition(s, events[0]).0, events.skip(1));
    }
}

/// A session that starts from a sound state never finds the proof of the last update missing.
pub proof fn law_predecessor_is_never_missing(s: SessionView, events: Seq<EventView>, e: EventView)
    requires
        s.well_formed(),
        forall|i: int| 0 <= i < events.len() ==> (#[trigger] events[i]).well_formed(),
    ensures
        run(s, events).well_formed(),
        transition(run(s, events), e).1 != ActionView::Stop(ServiceError::MissingPreviousProof),
    decreases events.len(),
{
    if events.len() > 0 {
        law_session_stays_well_formed(s, events[0]);
        law_predecessor_is_never_missing(transition(s, events[0]).0, events.skip(1), e);
    }
}

/// The update after a completed one starts from its head and carries its wrapped proof, the public
/// values of that proof and the key of the wrapper circuit.
pub proof fn law_next_update_continues(
    s: SessionView,
    new_head: u64,
    outputs: Seq<u8>,
    wrapped: ProofView,
    keys: KeysView,
    helios: ProofView,
    body_roots: Seq<u8>,
    header: HeaderView,
)
    requires
        s.phase == (PhaseView::AwaitingWrapper { new_head, outputs }),
        transition(s, EventView::WrapperProved(wrapped)).1 == ActionView::Save,
    ensures
        ({
            let inputs = transition(s, EventView::WrapperProved(wrapped)).0.recursion_inputs(
                keys,
                helios,
                body_roots,
                header,
            );
            &&& inputs.previous_head == new_head
            &&& inputs.previous_proof == Some(wrapped.bytes)
            &&& inputs.previous_public_values == Some(wrapped.public_values)
            &&& inputs.previous_vk == Some(keys.wrapper_vk)
        }),
{
}

/// What the recursion circuit decodes is what the session put together for it.
pub proof fn law_circuit_reads_what_the_session_writes(
    s: SessionView,
    keys: KeysView,
    helios: ProofView,
    new_head: u64,
    body_roots: Seq<u8>,
    header: HeaderView,
    bytes: Seq<u8>,
)
    requires
        s.well_formed(),
        header.well_formed(),
        s.phase == (PhaseView::AwaitingBlock { keys, helios, new_head }),
        transition(s, EventView::BlockFetched { body_roots, header }).1
            == ActionView::ProveRecursion(bytes),
    ensures
        inputs_of(bytes, body_roots.len()) == Some(
            s.recursion_inputs(keys, helios, body_roots, header),
        ),
{
    law_inputs_round_trip(s.recursion_inputs(keys, helios, body_roots, header));
}

/// The first update carries no previous proof. From the trusted slot, the circuit accepts it just if
/// the block fits the Helios outputs, the Helios proof verifies and the sync committee is the
/// trusted one.
pub proof fn law_first_update_from_trusted_slot(
    s: SessionView,
    keys: KeysView,
    proof_data: ProofView,
    body_roots: Seq<u8>,
    header: HeaderView,
    block: BlockView,
    helios: HeliosView,
)
    requires
        s.state.update_counter == 0,
        s.state.trusted_slot == TRUSTED_HEAD,
    ensures
        ({
            let inputs = s.recursion_inputs(keys, proof_data, body_roots, header);
            &&& inputs.previous_proof is None
            &&& inputs.previous_public_values is None
            &&& inputs.previous_vk is None
            &&& verdict_on(inputs, block, Some(helios)) is Ok <==> {
                &&& header.body_root == block.body_root
                &&& block.header_root == helios.new_header
                &&& verifies(proof_data.bytes, proof_data.public_values, keys.helios_vk)
                &&& helios.prev_sync_committee_hash == TRUSTED_SYNC_COMMITTEE_HASH@
            }
        }),
{
}

/// Behind the trusted slot, the circuit accepts an update just if the block fits the Helios outputs,
/// the Helios proof verifies, the wrapped proof of the update before verifies under the key of the
/// wrapper circuit and the sync committee is the active one.
pub proof fn law_later_update_extends_the_last(
    s: SessionView,
    keys: KeysView,
    proof_data: ProofView,
    body_roots: Seq<u8>,
    header: HeaderView,
    block: BlockView,
    helios: HeliosView,
)
    requires
        s.well_formed(),
        s.state.update_counter > 0,
        s.state.trusted_slot != TRUSTED_HEAD,
    ensures
        ({
            let inputs = s.recursion_inputs(keys, proof_data, body_roots, header);
            let last = s.state.most_recent_proof->0;
            verdict_on(inputs, block, Some(helios)) is Ok <==> {
                &&& header.body_root == block.body_root
                &&& block.header_root == helios.new_header
                &&& verifies(proof_data.bytes, proof_data.public_values, keys.helios_vk)
                &&& verifies(last.bytes, last.public_values, keys.wrapper_vk)
                &&& helios.prev_sync_committee_hash == s.state.active_committee_hash
            }
        }),
{
}

/// What the circuit commits for a block is what the service then trusts: the state root, the height
/// and the new head.
pub proof fn law_committed_outputs_are_trusted(
    s: SessionView,
    new_head: u64,
    wrapped: ProofView,
    block: BlockView,
)
    requires
        s.phase == (PhaseView::AwaitingWrapper {
            new_head,
            outputs: outputs_bytes(committed(block)),
        }),
        s.state.update_counter < u64::MAX,
        block.state_root.len() == 32,
    ensures
        transition(s, EventView::WrapperProved(wrapped)).1 == ActionView::Save,
        ({
            let state = transition(s, EventView::WrapperProved(wrapped)).0.state;
            &&& state.trusted_root == block.state_root
            &&& state.trusted_height == committed(block).height
            &&& state.trusted_slot == new_head
        }),
{
    law_outputs_round_trip(committed(block));
}

/// Without proof inputs the service waits and then begins the round again; if Helios cannot be
/// proved, it begins again at once. Neither changes the state.
pub proof fn law_failed_attempts_are_repeated(s: SessionView, keys: KeysView)
    ensures
        ({
            let asked = s.at(PhaseView::AwaitingInputs { keys });
            let (waiting, action) = transition(asked, EventView::InputsFailed);
            &&& action == (ActionView::Wait { seconds: RETRY_SECONDS })
            &&& transition(waiting, EventView::Waited) == restarted(s)
        }),
        transition(s.at(PhaseView::AwaitingHelios { keys }), EventView::HeliosFailed) == restarted(
            s,
        ),
        restarted(s).0.state == s.state,
{
}

/// A round in which every piece of work succeeds completes one update, before which the sync
/// committee that it starts from is noted.
pub proof fn law_successful_round(
    s: SessionView,
    keys: KeysView,
    inputs: Seq<u8>,
    committee: Seq<u8>,
    helios: ProofView,
    outputs: HeliosView,
    body_roots: Seq<u8>,
    header: HeaderView,
    recursive: ProofView,
    wrapped: ProofView,
)
    requires
        s.well_formed(),
        s.phase == PhaseView::AwaitingKeys,
        s.state.update_counter < u64::MAX,
        be_value(outputs.new_head) <= u64::MAX,
        s.recursion_inputs(keys, helios, body_roots, header).encodable(),
        (WrapperView {
            recursive_proof: recursive.bytes,
            recursive_public_values: recursive.public_values,
            recursive_vk: keys.wrapper_vk,
        }).encodable(),
        outputs_of(recursive.public_values) matches Some(o) && o.root.len() == 32,
    ensures
        run(
            s,
            seq![
                EventView::KeysReady(keys),
                EventView::InputsReady(inputs),
                EventView::CommitteeHashed(committee),
                EventView::HeliosProved(helios),
                EventView::OutputsDecoded(outputs),
                EventView::BlockFetched { body_roots, header },
                EventView::RecursionProved(recursive),
                EventView::WrapperProved(wrapped),
                EventView::Saved,
            ],
        ) == s.with(
            s.state.with_committee(committee).updated(
                wrapped,
                be_value(outputs.new_head) as u64,
                outputs_of(recursive.public_values)->0,
            ),
        ),
{
    reveal_with_fuel(run, 10);
}

/// A value of the model holds the parts as they stand.
pub proof fn law_session_views(session: Session, keys: Keys)
    ensures
        session@.state == session.state@,
        session@.phase == session.phase@,
        keys@.helios_vk == keys.helios_vk@,
        keys@.wrapper_vk == keys.wrapper_vk@,
        match session.phase {
            Phase::AwaitingKeys => session@.phase == PhaseView::AwaitingKeys,
            Phase::Waiting => session@.phase == PhaseView::Waiting,
            Phase::AwaitingInputs { keys } => session@.phase == (PhaseView::AwaitingInputs {
                keys: keys@,
            }),
            Phase::AwaitingCommittee { keys, inputs } => session@.phase == (
            PhaseView::AwaitingCommittee { keys: keys@, inputs: inputs@ }),
            Phase::AwaitingHelios { keys } => session@.phase == (PhaseView::AwaitingHelios {
                keys: keys@,
            }),
            Phase::AwaitingOutputs { keys, helios } => session@.phase == (
            PhaseView::AwaitingOutputs { keys: keys@, helios: helios@ }),
            Phase::AwaitingBlock { keys, helios, new_head } => session@.phase == (
            PhaseView::AwaitingBlock { keys: keys@, helios: helios@, new_head }),
            Phase::AwaitingRecursion { wrapper_vk, new_head } => session@.phase == (
            PhaseView::AwaitingRecursion { wrapper_vk: wrapper_vk@, new_head }),
            Phase::AwaitingWrapper { new_head, outputs } => session@.phase == (
            PhaseView::AwaitingWrapper { new_head, outputs: outputs@ }),
            Phase::AwaitingSave => session@.phase == PhaseView::AwaitingSave,
            Phase::Stopped => session@.phase == PhaseView::Stopped,
        },
{
}

/// An event of the model says what the event says.
pub proof fn law_event_views(event: Event)
    ensures
        match event {
            Event::KeysReady(keys) => event@ == EventView::KeysReady(keys@),
            Event::Waited => event@ == EventView::Waited,
            Event::InputsReady(inputs) => event@ == EventView::InputsReady(inputs@),
            Event::InputsFailed => event@ == EventView::InputsFailed,
            Event::CommitteeHashed(root) => event@ == EventView::CommitteeHashed(root@),
            Event::CommitteeUnreadable => event@ == EventView::CommitteeUnreadable,
            Event::HeliosProved(p) => event@ == EventView::HeliosProved(p@),
            Event::HeliosFailed => event@ == EventView::HeliosFailed,
            Event::OutputsDecoded(outputs) => event@ == EventView::OutputsDecoded(outputs@),
            Event::OutputsUndecodable => event@ == EventView::OutputsUndecodable,
            Event::BlockFetched { body_roots, header } => event@ == (EventView::BlockFetched {
                body_roots: body_roots@,
                header: header@,
            }),
            Event::RecursionProved(p) => event@ == EventView::RecursionProved(p@),
            Event::RecursionFailed => event@ == EventView::RecursionFailed,
            Event::WrapperProved(p) => event@ == EventView::WrapperProved(p@),
            Event::WrapperFailed => event@ == EventView::WrapperFailed,
            Event::Saved => event@ == EventView::Saved,
            Event::SaveFailed => event@ == EventView::SaveFailed,
        },
{
}

/// An action of the model asks for what the action asks for.
pub proof fn law_action_views(action: Action)
    ensures
        match action {
            Action::SetUpKeys => action@ == ActionView::SetUpKeys,
            Action::Wait { seconds } => action@ == (ActionView::Wait { seconds }),
            Action::Preprocess { trusted_slot } => action@ == (ActionView::Preprocess {
                trusted_slot,
            }),
            Action::HashCommittee(inputs) => action@ == ActionView::HashCommittee(inputs@),
            Action::ProveHelios(inputs) => action@ == ActionView::ProveHelios(inputs@),
            Action::DecodeOutputs(values) => action@ == ActionView::DecodeOutputs(values@),
            Action::FetchBlock { slot } => action@ == (ActionView::FetchBlock { slot }),
            Action::ProveRecursion(bytes) => action@ == ActionView::ProveRecursion(bytes@),
            Action::ProveWrapper(bytes) => action@ == ActionView::ProveWrapper(bytes@),
            Action::Save => action@ == ActionView::Save,
            Action::Stop(e) => action@ == ActionView::Stop(e),
        },
{
}

/// A round begins with the keys and asks for proof inputs from the trusted slot. With none it waits
/// a minute and begins again.
pub proof fn law_round_asks_for_inputs(s: SessionView, keys: KeysView)
    ensures
        s.phase == PhaseView::AwaitingKeys ==> transition(s, EventView::KeysReady(keys)) == (
            SessionView { state: s.state, phase: PhaseView::AwaitingInputs { keys } },
            ActionView::Preprocess { trusted_slot: s.state.trusted_slot },
        ),
        s.phase == (PhaseView::AwaitingInputs { keys }) ==> transition(s, EventView::InputsFailed)
            == (
            SessionView { state: s.state, phase: PhaseView::Waiting },
            ActionView::Wait { seconds: 60 },
        ),
        s.phase == PhaseView::Waiting ==> transition(s, EventView::Waited) == (
            SessionView { state: s.state, phase: PhaseView::AwaitingKeys },
            ActionView::SetUpKeys,
        ),
{
}

/// The proof inputs go to the committee hash and then to the Helios proof unchanged.
pub proof fn law_inputs_reach_the_prover(
    s: SessionView,
    keys: KeysView,
    inputs: Seq<u8>,
    root: Seq<u8>,
)
    ensures
        s.phase == (PhaseView::AwaitingInputs { keys }) ==> transition(
            s,
            EventView::InputsReady(inputs),
        ) == (
            SessionView { state: s.state, phase: PhaseView::AwaitingCommittee { keys, inputs } },
            ActionView::HashCommittee(inputs),
        ),
        s.phase == (PhaseView::AwaitingCommittee { keys, inputs }) ==> {
            let (t, action) = transition(s, EventView::CommitteeHashed(root));
            t.phase == (PhaseView::AwaitingHelios { keys }) && action == ActionView::ProveHelios(
                inputs,
            )
        },
        s.phase == (PhaseView::AwaitingCommittee { keys, inputs }) ==> transition(
            s,
            EventView::CommitteeUnreadable,
        ) == if s.state.update_counter == 0 {
            (
                SessionView { state: s.state, phase: PhaseView::Stopped },
                ActionView::Stop(ServiceError::CommitteeUnreadable),
            )
        } else {
            (
                SessionView { state: s.state, phase: PhaseView::AwaitingHelios { keys } },
                ActionView::ProveHelios(inputs),
            )
        },
{
}

/// Before the first update the committee is noted as the first one, byte by byte as two lowercase
/// hexadecimal digits; before any other it is noted as the active one, as it stands. Nothing else of
/// the state changes.
pub proof fn law_committee_is_noted(
    s: SessionView,
    keys: KeysView,
    inputs: Seq<u8>,
    root: Seq<u8>,
    i: int,
)
    requires
        s.phase == (PhaseView::AwaitingCommittee { keys, inputs }),
        0 <= i < root.len(),
    ensures
        ({
            let t = transition(s, EventView::CommitteeHashed(root)).0.state;
            if s.state.update_counter == 0 {
                &&& t.genesis_committee_hash is Some
                &&& t.genesis_committee_hash->0.len() == 2 * root.len()
                &&& t.genesis_committee_hash->0[2 * i] == "0123456789abcdef"@[(root[i]
                    / 16) as int]
                &&& t.genesis_committee_hash->0[2 * i + 1] == "0123456789abcdef"@[(root[i]
                    % 16) as int]
                &&& t == (StateView {
                    genesis_committee_hash: t.genesis_committee_hash,
                    ..s.state
                })
            } else {
                t == (StateView { active_committee_hash: root, ..s.state })
            }
        }),
{
    law_hexadecimal_digits(root, i);
}

/// The public values of the Helios proof go to the decoder as they stand. Without a proof the round
/// begins again. Outputs that do not decode, or whose head is no number of 64 bits, end the service;
/// the block of any other head is fetched.
pub proof fn law_helios_outputs_name_the_block(
    s: SessionView,
    keys: KeysView,
    helios: ProofView,
    outputs: HeliosView,
)
    ensures
        s.phase == (PhaseView::AwaitingHelios { keys }) ==> transition(
            s,
            EventView::HeliosProved(helios),
        ) == (
            SessionView { state: s.state, phase: PhaseView::AwaitingOutputs { keys, helios } },
            ActionView::DecodeOutputs(helios.public_values),
        ),
        s.phase == (PhaseView::AwaitingHelios { keys }) ==> transition(s, EventView::HeliosFailed)
            == (
            SessionView { state: s.state, phase: PhaseView::AwaitingKeys },
            ActionView::SetUpKeys,
        ),
        s.phase == (PhaseView::AwaitingOutputs { keys, helios }) ==> transition(
            s,
            EventView::OutputsUndecodable,
        ) == (
            SessionView { state: s.state, phase: PhaseView::Stopped },
            ActionView::Stop(ServiceError::UndecodableHeliosOutputs),
        ),
        s.phase == (PhaseView::AwaitingOutputs { keys, helios }) && be_value(outputs.new_head)
            >= 0x1_0000_0000_0000_0000 ==> transition(s, EventView::OutputsDecoded(outputs)) == (
            SessionView { state: s.state, phase: PhaseView::Stopped },
            ActionView::Stop(ServiceError::HeadOutOfRange),
        ),
        s.phase == (PhaseView::AwaitingOutputs { keys, helios }) && be_value(outputs.new_head)
            < 0x1_0000_0000_0000_0000 ==> {
            let slot = be_value(outputs.new_head) as u64;
            &&& slot == be_value(outputs.new_head)
            &&& transition(s, EventView::OutputsDecoded(outputs)) == (
                SessionView {
                    state: s.state,
                    phase: PhaseView::AwaitingBlock { keys, helios, new_head: slot },
                },
                ActionView::FetchBlock { slot },
            )
        },
{
}

/// The inputs of the recursion circuit carry the fetched block, the Helios proof with its public
/// values and the keys as they stand, the committee and the slot of the state, and from the second
/// update on the proof in the state with its public values and the wrapper key.
pub proof fn law_recursion_inputs_carry_the_round(
    s: SessionView,
    keys: KeysView,
    helios: ProofView,
    body_roots: Seq<u8>,
    header: HeaderView,
)
    requires
        s.state.update_counter > 0 ==> s.state.most_recent_proof is Some,
    ensures
        ({
            let inputs = s.recursion_inputs(keys, helios, body_roots, header);
            let last = s.state.most_recent_proof->0;
            &&& inputs.electra_header == header
            &&& inputs.electra_body_roots == body_roots
            &&& inputs.helios_proof == helios.bytes
            &&& inputs.helios_public_values == helios.public_values
            &&& inputs.helios_vk == keys.helios_vk
            &&& inputs.active_committee_hash == s.state.active_committee_hash
            &&& inputs.previous_head == s.state.trusted_slot
            &&& s.state.update_counter == 0 ==> inputs.previous_proof is None
                && inputs.previous_public_values is None && inputs.previous_vk is None
            &&& s.state.update_counter > 0 ==> inputs.previous_proof == Some(last.bytes)
                && inputs.previous_public_values == Some(last.public_values)
                && inputs.previous_vk == Some(keys.wrapper_vk)
        }),
{
}

/// A fetched block leads to the recursion step on exactly these inputs, unless the proof of the last
/// update is missing or a field is too long to be written.
pub proof fn law_block_leads_to_the_recursion_step(
    s: SessionView,
    keys: KeysView,
    helios: ProofView,
    new_head: u64,
    body_roots: Seq<u8>,
    header: HeaderView,
)
    requires
        s.phase == (PhaseView::AwaitingBlock { keys, helios, new_head }),
    ensures
        ({
            let next = transition(s, EventView::BlockFetched { body_roots, header });
            let inputs = s.recursion_inputs(keys, helios, body_roots, header);
            if s.state.update_counter > 0 && s.state.most_recent_proof is None {
                next == (
                    SessionView { state: s.state, phase: PhaseView::Stopped },
                    ActionView::Stop(ServiceError::MissingPreviousProof),
                )
            } else if inputs.encodable() {
                next == (
                    SessionView {
                        state: s.state,
                        phase: PhaseView::AwaitingRecursion {
                            wrapper_vk: keys.wrapper_vk,
                            new_head,
                        },
                    },
                    ActionView::ProveRecursion(inputs_bytes(inputs)),
                )
            } else {
                next == (
                    SessionView { state: s.state, phase: PhaseView::Stopped },
                    ActionView::Stop(ServiceError::InputsTooLong),
                )
            }
        }),
{
}

/// The block that the circuit reads from the bytes of the recursion step is the fetched one.
pub proof fn law_circuit_reads_the_fetched_block(
    s: SessionView,
    keys: KeysView,
    helios: ProofView,
    new_head: u64,
    body_roots: Seq<u8>,
    header: HeaderView,
    bytes: Seq<u8>,
)
    requires
        s.phase == (PhaseView::AwaitingBlock { keys, helios, new_head }),
        s.state.active_committee_hash.len() == 32,
        header.parent_root.len() == 32,
        header.state_root.len() == 32,
        header.body_root.len() == 32,
        transition(s, EventView::BlockFetched { body_roots, header }).1
            == ActionView::ProveRecursion(bytes),
    ensures
        inputs_of(bytes, body_roots.len()) matches Some(read) && read.electra_header == header
            && read.electra_body_roots == body_roots && read.helios_proof == helios.bytes
            && read.helios_public_values == helios.public_values && read.previous_head
            == s.state.trusted_slot,
{
    law_inputs_round_trip(s.recursion_inputs(keys, helios, body_roots, header));
}

/// The wrapper circuit gets the recursion proof, its public values and the wrapper key of the round
/// as they stand, unless one is too long to be written. The public values are kept to be decoded.
pub proof fn law_wrapper_gets_the_recursion_proof(
    s: SessionView,
    wrapper_vk: Seq<char>,
    new_head: u64,
    recursive: ProofView,
)
    requires
        s.phase == (PhaseView::AwaitingRecursion { wrapper_vk, new_head }),
    ensures
        ({
            let next = transition(s, EventView::RecursionProved(recursive));
            let inputs = WrapperView {
                recursive_proof: recursive.bytes,
                recursive_public_values: recursive.public_values,
                recursive_vk: wrapper_vk,
            };
            if inputs.encodable() {
                next == (
                    SessionView {
                        state: s.state,
                        phase: PhaseView::AwaitingWrapper {
                            new_head,
                            outputs: recursive.public_values,
                        },
                    },
                    ActionView::ProveWrapper(wrapper_bytes(inputs)),
                )
            } else {
                next == (
                    SessionView { state: s.state, phase: PhaseView::Stopped },
                    ActionView::Stop(ServiceError::InputsTooLong),
                )
            }
        }),
        transition(s, EventView::RecursionFailed) == (
            SessionView { state: s.state, phase: PhaseView::Stopped },
            ActionView::Stop(ServiceError::RecursionProofFailed),
        ),
{
}

/// When everything is proved, the state trusts the new head and the root and height that the
/// recursion proof committed to, byte for byte, keeps the wrapped proof and counts one more update.
/// The noted committees stay. Without such outputs nothing changes and the service ends.
pub proof fn law_update_trusts_the_outputs(
    s: SessionView,
    new_head: u64,
    outputs: Seq<u8>,
    wrapped: ProofView,
)
    requires
        s.phase == (PhaseView::AwaitingWrapper { new_head, outputs }),
    ensures
        ({
            let (t, action) = transition(s, EventView::WrapperProved(wrapped));
            let stopped_state = SessionView { state: s.state, phase: PhaseView::Stopped };
            match outputs_of(outputs) {
                None => t == stopped_state && action == ActionView::Stop(
                    ServiceError::MalformedOutputs,
                ),
                Some(o) => if o.root.len() != 32 {
                    t == stopped_state && action == ActionView::Stop(ServiceError::RootNotAHash)
                } else if s.state.update_counter == 0xffff_ffff_ffff_ffff {
                    t == stopped_state && action == ActionView::Stop(
                        ServiceError::CounterExhausted,
                    )
                } else {
                    &&& action == ActionView::Save
                    &&& t.phase == PhaseView::AwaitingSave
                    &&& t.state.trusted_root == o.root
                    &&& t.state.trusted_height == o.height
                    &&& t.state.trusted_slot == new_head
                    &&& t.state.most_recent_proof == Some(wrapped)
                    &&& t.state.update_counter == s.state.update_counter + 1
                    &&& t.state.genesis_committee_hash == s.state.genesis_committee_hash
                    &&& t.state.active_committee_hash == s.state.active_committee_hash
                },
            }
        }),
        transition(s, EventView::WrapperFailed) == (
            SessionView { state: s.state, phase: PhaseView::Stopped },
            ActionView::Stop(ServiceError::WrapperProofFailed),
        ),
{
}

/// A saved state begins the next round, and one that could not be saved ends the service.
pub proof fn law_saved_state_begins_a_round(s: SessionView)
    requires
        s.phase == PhaseView::AwaitingSave,
    ensures
        transition(s, EventView::Saved) == (
            SessionView { state: s.state, phase: PhaseView::AwaitingKeys },
            ActionView::SetUpKeys,
        ),
        transition(s, EventView::SaveFailed) == (
            SessionView { state: s.state, phase: PhaseView::Stopped },
            ActionView::Stop(ServiceError::StateNotSaved),
        ),
{
}

/// An event that is no answer to what the session waits for ends the service and leaves the state.
pub proof fn law_unexpected_events_stop(s: SessionView, e: EventView)
    requires
        match e {
            EventView::KeysReady(_) => s.phase !is AwaitingKeys,
            EventView::Waited => s.phase !is Waiting,
            EventView::InputsReady(_) => s.phase !is AwaitingInputs,
            EventView::InputsFailed => s.phase !is AwaitingInputs,
            EventView::CommitteeHashed(_) => s.phase !is AwaitingCommittee,
            EventView::CommitteeUnreadable => s.phase !is AwaitingCommittee,
            EventView::HeliosProved(_) => s.phase !is AwaitingHelios,
            EventView::HeliosFailed => s.phase !is AwaitingHelios,
            EventView::OutputsDecoded(_) => s.phase !is AwaitingOutputs,
            EventView::OutputsUndecodable => s.phase !is AwaitingOutputs,
            EventView::BlockFetched { .. } => s.phase !is AwaitingBlock,
            EventView::RecursionProved(_) => s.phase !is AwaitingRecursion,
            EventView::RecursionFailed => s.phase !is AwaitingRecursion,
            EventView::WrapperProved(_) => s.phase !is AwaitingWrapper,
            EventView::WrapperFailed => s.phase !is AwaitingWrapper,
            EventView::Saved => s.phase !is AwaitingSave,
            EventView::SaveFailed => s.phase !is AwaitingSave,
        },
    ensures
        transition(s, e) == (
            SessionView { state: s.state, phase: PhaseView::Stopped },
            ActionView::Stop(ServiceError::UnexpectedEvent),
        ),
{
}

} // verus!
