//! The recursion circuit: which light client updates it accepts, and what it outputs for them.
//!
//! An update is a Helios proof for a new beacon header. The circuit holds the header and the body
//! roots of the block against it and ties the update either to the trusted slot that the chain of
//! updates starts from or to the proof of the update before.

use crate::bytes::{
    copy_bytes, law_le_bytes_of_value, law_le_round_trip, law_le_value_of_eight, le_bytes, le_value,
    lemma_byte_range_grows, lemma_le_bytes_len, lemma_word_ranges, same_bytes,
};
use crate::groth16::{comes_to_an_answer, groth16_accepts, proof_verifies, verifies};
use crate::wire::{
    fits, outputs_bytes, InputsView, OutputsView, RecursionCircuitInputs, RecursionCircuitOutputs,
    WireError,
};
use vstd::prelude::*;

verus! {

/// The sync committee hash that was active at [`TRUSTED_HEAD`].
pub const TRUSTED_SYNC_COMMITTEE_HASH: [u8; 32] = [
    173, 168, 203, 59, 222, 173, 180, 217, 171, 169, 172, 210, 53, 101, 102, 83, 111, 253, 20, 83,
    236, 254, 182, 208, 7, 205, 227, 133, 58, 200, 38, 198,
];

/// The slot that the chain of updates starts from.
pub const TRUSTED_HEAD: u64 = 7606080;

/// What a Helios proof commits to, as far as the light client reads it.
#[derive(Clone, Copy)]
pub struct HeliosOutputs {
    /// The root of the new beacon header.
    pub new_header: [u8; 32],
    /// The slot of the new header: 256 bits, most significant byte first.
    pub new_head: [u8; 32],
    /// The sync committee that the update was verified with.
    pub prev_sync_committee_hash: [u8; 32],
}

/// The mathematical value of [`HeliosOutputs`].
pub struct HeliosView {
    pub new_header: Seq<u8>,
    pub new_head: Seq<u8>,
    pub prev_sync_committee_hash: Seq<u8>,
}

impl View for HeliosOutputs {
    type V = HeliosView;

    open spec fn view(&self) -> HeliosView {
        HeliosView {
            new_header: self.new_header@,
            new_head: self.new_head@,
            prev_sync_committee_hash: self.prev_sync_committee_hash@,
        }
    }
}

/// What the beacon types say of the block that the inputs carry.
#[derive(Clone, Copy)]
pub struct BlockRoots {
    /// The Merkle root of the header.
    pub header_root: [u8; 32],
    /// The Merkle root of the body roots.
    pub body_root: [u8; 32],
    /// Among the body roots, that of the execution state.
    pub state_root: [u8; 32],
    /// Among the body roots, that of the execution block number: the number itself, padded.
    pub block_number: [u8; 32],
}

/// The mathematical value of [`BlockRoots`].
pub struct BlockView {
    pub header_root: Seq<u8>,
    pub body_root: Seq<u8>,
    pub state_root: Seq<u8>,
    pub block_number: Seq<u8>,
}

impl View for BlockRoots {
    type V = BlockView;

    open spec fn view(&self) -> BlockView {
        BlockView {
            header_root: self.header_root@,
            body_root: self.body_root@,
            state_root: self.state_root@,
            block_number: self.block_number@,
        }
    }
}

/// Why the circuit refuses an update.
#[derive(Debug, Clone, Copy, PartialEq, Eq, Structural)]
pub enum CircuitError {
    /// The public values of the Helios proof are not Helios outputs.
    UndecodableHeliosOutputs,
    /// The header does not name the body that the body roots are of.
    BodyRootMismatch,
    /// The header is not the one that Helios verified.
    HeaderRootMismatch,
    /// The Helios proof does not verify.
    HeliosProofRejected,
    /// The first update was not verified with the trusted sync committee.
    TrustedCommitteeMismatch,
    /// A later update comes without the proof of the update before.
    MissingPreviousProof,
    /// A later update comes without the public values of the update before.
    MissingPreviousPublicValues,
    /// A later update comes without a verifying key for the proof of the update before.
    MissingPreviousVk,
    /// The proof of the update before does not verify.
    PreviousProofRejected,
    /// A later update was not verified with the active sync committee.
    ActiveCommitteeMismatch,
}

/// What is told of a refusal.
pub open spec fn circuit_message(e: CircuitError) -> Seq<char> {
    match e {
        CircuitError::UndecodableHeliosOutputs => "Failed to decode the Helios outputs"@,
        CircuitError::BodyRootMismatch => "The body root does not match the header"@,
        CircuitError::HeaderRootMismatch => "The header root does not match the Helios outputs"@,
        CircuitError::HeliosProofRejected => "Failed to verify helios zk light client update"@,
        CircuitError::TrustedCommitteeMismatch => "The sync committee is not the trusted one"@,
        CircuitError::MissingPreviousProof => "Previous proof is not provided"@,
        CircuitError::MissingPreviousPublicValues => "Previous public values is not provided"@,
        CircuitError::MissingPreviousVk => "Previous vk is not provided"@,
        CircuitError::PreviousProofRejected => "Failed to verify previous proof"@,
        CircuitError::ActiveCommitteeMismatch => "The sync committee is not the active one"@,
    }
}

impl CircuitError {
    /// What is told of the refusal.
    pub fn message(self) -> (text: &'static str)
        ensures
            text@ == circuit_message(self),
    {
        match self {
            CircuitError::UndecodableHeliosOutputs => "Failed to decode the Helios outputs",
            CircuitError::BodyRootMismatch => "The body root does not match the header",
            CircuitError::HeaderRootMismatch => "The header root does not match the Helios outputs",
            CircuitError::HeliosProofRejected => "Failed to verify helios zk light client update",
            CircuitError::TrustedCommitteeMismatch => "The sync committee is not the trusted one",
            CircuitError::MissingPreviousProof => "Previous proof is not provided",
            CircuitError::MissingPreviousPublicValues => "Previous public values is not provided",
            CircuitError::MissingPreviousVk => "Previous vk is not provided",
            CircuitError::PreviousProofRejected => "Failed to verify previous proof",
            CircuitError::ActiveCommitteeMismatch => "The sync committee is not the active one",
        }
    }
}

/// The number that SSZ pads to 32 bytes: little-endian in the first eight of them.
pub open spec fn unpadded(padded: Seq<u8>) -> nat {
    le_value(padded.take(8))
}

/// Converts a padded block number from SSZ format to a number.
pub fn unpad_block_number(padded: &[u8; 32]) -> (number: u64)
    ensures
        number == unpadded(padded@),
{
    let mut number: u64 = 0;
    let mut i: usize = 8;
    proof {
        assert(padded@.subrange(8, 8) =~= Seq::<u8>::empty());
    }
    while i > 0
        invariant
            i <= 8,
            number == le_value(padded@.subrange(i as int, 8)),
        decreases i,
    {
        i -= 1;
        proof {
            let rest = padded@.subrange(i + 1, 8);
            let all = padded@.subrange(i as int, 8);
            assert(all.drop_first() =~= rest);
            law_le_bytes_of_value(all);
            lemma_byte_range_grows(all.len(), 8);
            lemma_word_ranges();
        }
        number = 256 * number + padded[i] as u64;
    }
    assert(padded@.subrange(0, 8) =~= padded@.take(8));
    number
}

/// A block number comes back from its padded form, whatever the padding holds.
pub proof fn law_unpad_padded(number: u64, padding: Seq<u8>)
    ensures
        unpadded(le_bytes(number as nat, 8) + padding) == number,
{
    lemma_word_ranges();
    lemma_le_bytes_len(number as nat, 8);
    law_le_round_trip(number as nat, 8);
    assert((le_bytes(number as nat, 8) + padding).take(8) =~= le_bytes(number as nat, 8));
}

/// What the circuit outputs for an accepted update.
pub open spec fn committed(block: BlockView) -> OutputsView {
    OutputsView { root: block.state_root, height: unpadded(block.block_number) as u64 }
}

/// The circuit's verdict, given what the Helios public values decode to and which proofs verify.
pub open spec fn judged(
    inputs: InputsView,
    block: BlockView,
    helios: Option<HeliosView>,
    helios_verified: bool,
    previous_verified: bool,
) -> Result<OutputsView, CircuitError> {
    match helios {
        None => Err(CircuitError::UndecodableHeliosOutputs),
        Some(output) => if inputs.electra_header.body_root != block.body_root {
            Err(CircuitError::BodyRootMismatch)
        } else if block.header_root != output.new_header {
            Err(CircuitError::HeaderRootMismatch)
        } else if !helios_verified {
            Err(CircuitError::HeliosProofRejected)
        } else if inputs.previous_head == TRUSTED_HEAD {
            if output.prev_sync_committee_hash == TRUSTED_SYNC_COMMITTEE_HASH@ {
                Ok(committed(block))
            } else {
                Err(CircuitError::TrustedCommitteeMismatch)
            }
        } else if inputs.previous_proof is None {
            Err(CircuitError::MissingPreviousProof)
        } else if inputs.previous_public_values is None {
            Err(CircuitError::MissingPreviousPublicValues)
        } else if inputs.previous_vk is None {
            Err(CircuitError::MissingPreviousVk)
        } else if !previous_verified {
            Err(CircuitError::PreviousProofRejected)
        } else if inputs.active_committee_hash != output.prev_sync_committee_hash {
            Err(CircuitError::ActiveCommitteeMismatch)
        } else {
            Ok(committed(block))
        },
    }
}

/// The value of optional Helios outputs.
pub open spec fn helios_view(helios: Option<HeliosOutputs>) -> Option<HeliosView> {
    match helios {
        Some(output) => Some(output@),
        None => None,
    }
}

/// Judges an update, given what the Helios public values decode to and which proofs verify.
pub fn judge(
    inputs: &RecursionCircuitInputs,
    block: &BlockRoots,
    helios: Option<HeliosOutputs>,
    helios_verified: bool,
    previous_verified: bool,
) -> (verdict: Result<RecursionCircuitOutputs, CircuitError>)
    ensures
        match verdict {
            Ok(v) => judged(
                inputs@,
                block@,
                helios_view(helios),
                helios_verified,
                previous_verified,
            ) == Ok::<OutputsView, CircuitError>(v@),
            Err(e) => judged(
                inputs@,
                block@,
                helios_view(helios),
                helios_verified,
                previous_verified,
            ) == Err::<OutputsView, CircuitError>(e),
        },
        verdict matches Ok(v) ==> v.root@ == block.state_root@ && v.height == unpadded(
            block.block_number@,
        ),
{
    let output: HeliosOutputs = match helios {
        Some(output) => output,
        None => return Err(CircuitError::UndecodableHeliosOutputs),
    };
    if !same_bytes(&inputs.electra_header.body_root, &block.body_root) {
        return Err(CircuitError::BodyRootMismatch);
    }
    if !same_bytes(&block.header_root, &output.new_header) {
        return Err(CircuitError::HeaderRootMismatch);
    }
    if !helios_verified {
        return Err(CircuitError::HeliosProofRejected);
    }
    if inputs.previous_head == TRUSTED_HEAD {
        let trusted: [u8; 32] = TRUSTED_SYNC_COMMITTEE_HASH;
        if !same_bytes(&output.prev_sync_committee_hash, &trusted) {
            return Err(CircuitError::TrustedCommitteeMismatch);
        }
    } else {
        if inputs.previous_proof.is_none() {
            return Err(CircuitError::MissingPreviousProof);
        }
        if inputs.previous_public_values.is_none() {
            return Err(CircuitError::MissingPreviousPublicValues);
        }
        if inputs.previous_vk.is_none() {
            return Err(CircuitError::MissingPreviousVk);
        }
        if !previous_verified {
            return Err(CircuitError::PreviousProofRejected);
        }
        if !same_bytes(&inputs.active_committee_hash, &output.prev_sync_committee_hash) {
            return Err(CircuitError::ActiveCommitteeMismatch);
        }
    }
    Ok(
        RecursionCircuitOutputs {
            root: copy_bytes(&block.state_root),
            height: unpad_block_number(&block.block_number),
        },
    )
}

/// Whether the proof of the update before is there in full and verifies.
pub open spec fn previous_verifies(inputs: InputsView) -> bool {
    &&& inputs.previous_proof matches Some(proof)
    &&& inputs.previous_public_values matches Some(public_values)
    &&& inputs.previous_vk matches Some(vk)
    &&& verifies(proof, public_values, vk)
}

/// The circuit's verdict on an update.
pub open spec fn verdict_on(
    inputs: InputsView,
    block: BlockView,
    helios: Option<HeliosView>,
) -> Result<OutputsView, CircuitError> {
    judged(
        inputs,
        block,
        helios,
        verifies(inputs.helios_proof, inputs.helios_public_values, inputs.helios_vk),
        previous_verifies(inputs),
    )
}

/// Verifies an update and gives the bytes that the circuit commits for it. `helios` is what the
/// public values of the Helios proof decode to, `block` what the header and the body roots of the
/// inputs hash to.
pub fn verify_update(
    inputs: &RecursionCircuitInputs,
    block: &BlockRoots,
    helios: Option<HeliosOutputs>,
) -> (committed: Result<Vec<u8>, CircuitError>)
    ensures
        match committed {
            Ok(bytes) => match verdict_on(inputs@, block@, helios_view(helios)) {
                Ok(v) => bytes@ == outputs_bytes(v),
                Err(_) => false,
            },
            Err(e) => verdict_on(inputs@, block@, helios_view(helios)) == Err::<
                OutputsView,
                CircuitError,
            >(e),
        },
{
    let helios_verified: bool = proof_verifies(
        &inputs.helios_proof,
        &inputs.helios_public_values,
        &inputs.helios_vk,
    );
    let previous_verified: bool = match (
        &inputs.previous_proof,
        &inputs.previous_public_values,
        &inputs.previous_vk,
    ) {
        (Some(proof), Some(public_values), Some(vk)) => inputs.previous_head != TRUSTED_HEAD
            && proof_verifies(proof, public_values, vk),
        _ => false,
    };
    match judge(inputs, block, helios, helios_verified, previous_verified) {
        Ok(outputs) => {
            let encoded: Result<Vec<u8>, WireError> = outputs.encode();
            assert(fits(outputs@.root));
            Ok(encoded.unwrap())
        },
        Err(e) => Err(e),
    }
}

/// An accepted update carries the body that its header names, the header that Helios verified and a
/// Helios proof that verifies. It starts from the trusted slot with the trusted sync committee, or
/// continues an update whose proof verifies, with the active sync committee.
pub proof fn law_accepted_update_is_linked(
    inputs: InputsView,
    block: BlockView,
    helios: Option<HeliosView>,
)
    requires
        verdict_on(inputs, block, helios) is Ok,
    ensures
        helios is Some,
        inputs.electra_header.body_root == block.body_root,
        block.header_root == helios->0.new_header,
        verifies(inputs.helios_proof, inputs.helios_public_values, inputs.helios_vk),
        if inputs.previous_head == TRUSTED_HEAD {
            helios->0.prev_sync_committee_hash == TRUSTED_SYNC_COMMITTEE_HASH@
        } else {
            &&& previous_verifies(inputs)
            &&& helios->0.prev_sync_committee_hash == inputs.active_committee_hash
        },
{
}

/// Whichever way an update is linked, the circuit outputs the state root and the number of its
/// block.
pub proof fn law_output_names_the_block(
    inputs: InputsView,
    block: BlockView,
    helios: Option<HeliosView>,
)
    requires
        verdict_on(inputs, block, helios) is Ok,
    ensures
        verdict_on(inputs, block, helios) == Ok::<OutputsView, CircuitError>(committed(block)),
{
}

/// The number that the circuit outputs is the one that was padded into the body roots.
pub proof fn law_output_height(block: BlockView, number: u64, padding: Seq<u8>)
    requires
        block.block_number == le_bytes(number as nat, 8) + padding,
    ensures
        committed(block).height == number,
{
    law_unpad_padded(number, padding);
}

/// The first update after the trusted slot is judged without regard to a previous proof or to the
/// committee that the service holds to be active.
pub proof fn law_first_update_stands_alone(
    inputs: InputsView,
    other: InputsView,
    block: BlockView,
    helios: Option<HeliosView>,
)
    requires
        inputs.previous_head == TRUSTED_HEAD,
        other == (InputsView {
            active_committee_hash: other.active_committee_hash,
            previous_proof: other.previous_proof,
            previous_public_values: other.previous_public_values,
            previous_vk: other.previous_vk,
            ..inputs
        }),
    ensures
        verdict_on(inputs, block, helios) == verdict_on(other, block, helios),
{
}

/// From any other slot an update is refused without a complete and verifying previous proof.
pub proof fn law_later_update_needs_predecessor(
    inputs: InputsView,
    block: BlockView,
    helios: Option<HeliosView>,
)
    requires
        inputs.previous_head != TRUSTED_HEAD,
        !previous_verifies(inputs),
    ensures
        verdict_on(inputs, block, helios) is Err,
{
}

/// A value of the model holds the fields as they stand.
pub proof fn law_circuit_views(helios: HeliosOutputs, block: BlockRoots)
    ensures
        helios@ == (HeliosView {
            new_header: helios.new_header@,
            new_head: helios.new_head@,
            prev_sync_committee_hash: helios.prev_sync_committee_hash@,
        }),
        helios_view(Some(helios)) == Some(helios@),
        helios_view(None) is None,
        block@ == (BlockView {
            header_root: block.header_root@,
            body_root: block.body_root@,
            state_root: block.state_root@,
            block_number: block.block_number@,
        }),
{
}

/// A padded block number weighs its first eight bytes one, 256, and so on, and no other byte.
pub proof fn law_block_number_is_little_endian(padded: Seq<u8>)
    requires
        padded.len() >= 8,
    ensures
        unpadded(padded) == padded[0] + 0x100 * padded[1] + 0x1_0000 * padded[2] + 0x100_0000
            * padded[3] + 0x1_0000_0000 * padded[4] + 0x100_0000_0000 * padded[5]
            + 0x1_0000_0000_0000 * padded[6] + 0x100_0000_0000_0000 * padded[7],
{
    law_le_value_of_eight(padded.take(8));
}

/// Which updates are accepted. The body is the one that the header names, the header the one that
/// Helios verified, and the Helios proof verifies. From slot 7606080 the sync committee is the one
/// that was trusted then. From any other slot the previous proof is there in full and verifies, and
/// the sync committee is the active one.
pub proof fn law_accepted_updates(
    inputs: InputsView,
    block: BlockView,
    helios: Option<HeliosView>,
    helios_verified: bool,
    previous_verified: bool,
)
    ensures
        judged(inputs, block, helios, helios_verified, previous_verified) is Ok <==> {
            &&& helios is Some
            &&& block.body_root == inputs.electra_header.body_root
            &&& block.header_root == helios->0.new_header
            &&& helios_verified
            &&& inputs.previous_head == 7606080 ==> helios->0.prev_sync_committee_hash == seq![
                173u8, 168, 203, 59, 222, 173, 180, 217, 171, 169, 172, 210, 53, 101, 102, 83, 111, 253, 20,
                83, 236, 254, 182, 208, 7, 205, 227, 133, 58, 200, 38, 198,
            ]
            &&& inputs.previous_head != 7606080 ==> {
                &&& inputs.previous_proof is Some
                &&& inputs.previous_public_values is Some
                &&& inputs.previous_vk is Some
                &&& previous_verified
                &&& helios->0.prev_sync_committee_hash == inputs.active_committee_hash
            }
        },
{
    assert(TRUSTED_SYNC_COMMITTEE_HASH@ =~= seq![
        173u8, 168, 203, 59, 222, 173, 180, 217, 171, 169, 172, 210, 53, 101, 102, 83, 111, 253, 20,
        83, 236, 254, 182, 208, 7, 205, 227, 133, 58, 200, 38, 198,
    ]);
}

/// What is output for an accepted update: the state root of the block byte for byte, and the number
/// that the first eight bytes of its block number spell.
pub proof fn law_outputs_are_the_blocks(
    inputs: InputsView,
    block: BlockView,
    helios: Option<HeliosView>,
    helios_verified: bool,
    previous_verified: bool,
)
    requires
        judged(inputs, block, helios, helios_verified, previous_verified) is Ok,
        block.block_number.len() == 32,
    ensures
        ({
            let o = judged(inputs, block, helios, helios_verified, previous_verified)->Ok_0;
            let n = block.block_number;
            &&& o.root == block.state_root
            &&& o.height == n[0] + 0x100 * n[1] + 0x1_0000 * n[2] + 0x100_0000 * n[3]
                + 0x1_0000_0000 * n[4] + 0x100_0000_0000 * n[5] + 0x1_0000_0000_0000 * n[6]
                + 0x100_0000_0000_0000 * n[7]
        }),
{
    law_block_number_is_little_endian(block.block_number);
}

/// Why an update is refused: of the conditions that an accepted one meets, the first that fails.
pub proof fn law_refusals_name_the_first_failure(
    inputs: InputsView,
    block: BlockView,
    output: HeliosView,
    helios_verified: bool,
    previous_verified: bool,
)
    ensures
        judged(inputs, block, None, helios_verified, previous_verified) == Err::<
            OutputsView,
            CircuitError,
        >(CircuitError::UndecodableHeliosOutputs),
        ({
            let verdict = judged(inputs, block, Some(output), helios_verified, previous_verified);
            let body = block.body_root == inputs.electra_header.body_root;
            let header = body && block.header_root == output.new_header;
            let proved = header && helios_verified;
            let first = proved && inputs.previous_head == 7606080;
            let later = proved && inputs.previous_head != 7606080;
            let with_proof = later && inputs.previous_proof is Some;
            let with_values = with_proof && inputs.previous_public_values is Some;
            let with_vk = with_values && inputs.previous_vk is Some;
            let linked = with_vk && previous_verified;
            &&& !body ==> verdict == Err::<OutputsView, CircuitError>(
                CircuitError::BodyRootMismatch,
            )
            &&& body && !header ==> verdict == Err::<OutputsView, CircuitError>(
                CircuitError::HeaderRootMismatch,
            )
            &&& header && !proved ==> verdict == Err::<OutputsView, CircuitError>(
                CircuitError::HeliosProofRejected,
            )
            &&& first && verdict is Err ==> verdict == Err::<OutputsView, CircuitError>(
                CircuitError::TrustedCommitteeMismatch,
            )
            &&& later && !with_proof ==> verdict == Err::<OutputsView, CircuitError>(
                CircuitError::MissingPreviousProof,
            )
            &&& with_proof && !with_values ==> verdict == Err::<OutputsView, CircuitError>(
                CircuitError::MissingPreviousPublicValues,
            )
            &&& with_values && !with_vk ==> verdict == Err::<OutputsView, CircuitError>(
                CircuitError::MissingPreviousVk,
            )
            &&& with_vk && !linked ==> verdict == Err::<OutputsView, CircuitError>(
                CircuitError::PreviousProofRejected,
            )
            &&& linked && verdict is Err ==> verdict == Err::<OutputsView, CircuitError>(
                CircuitError::ActiveCommitteeMismatch,
            )
        }),
{
}

/// The circuit judges by the proofs that it is given: the Helios proof with its public values and
/// key, and the previous proof with its own, each as the Groth16 verifier answers for it.
pub proof fn law_verdict_rests_on_the_proofs(
    inputs: InputsView,
    block: BlockView,
    helios: Option<HeliosView>,
)
    ensures
        verdict_on(inputs, block, helios) == judged(
            inputs,
            block,
            helios,
            comes_to_an_answer(inputs.helios_proof, inputs.helios_public_values, inputs.helios_vk)
                && groth16_accepts(
                inputs.helios_proof,
                inputs.helios_public_values,
                inputs.helios_vk,
            ),
            inputs.previous_proof is Some && inputs.previous_public_values is Some
                && inputs.previous_vk is Some && comes_to_an_answer(
                inputs.previous_proof->0,
                inputs.previous_public_values->0,
                inputs.previous_vk->0,
            ) && groth16_accepts(
                inputs.previous_proof->0,
                inputs.previous_public_values->0,
                inputs.previous_vk->0,
            ),
        ),
{
}

} // verus!
