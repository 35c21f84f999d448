//! What the service keeps from one update to the next.

use crate::bytes::be_value;
use crate::wire::OutputsView;
use vstd::prelude::*;

verus! {

/// A proof together with the public values that it is about.
pub struct ProofData {
    pub bytes: Vec<u8>,
    pub public_values: Vec<u8>,
}

/// The mathematical value of [`ProofData`].
pub struct ProofView {
    pub bytes: Seq<u8>,
    pub public_values: Seq<u8>,
}

impl View for ProofData {
    type V = ProofView;

    open spec fn view(&self) -> ProofView {
        ProofView { bytes: self.bytes@, public_values: self.public_values@ }
    }
}

/// The state of the service.
pub struct ServiceState {
    /// The wrapped proof of the last update.
    pub most_recent_proof: Option<ProofData>,
    /// The slot that the next update starts from.
    pub trusted_slot: u64,
    /// The height of the last proven execution block.
    pub trusted_height: u64,
    /// The state root of the last proven execution block.
    pub trusted_root: [u8; 32],
    /// How many updates have been completed.
    pub update_counter: u64,
    /// The sync committee that the first update was verified with, in hexadecimal.
    pub genesis_committee_hash: Option<String>,
    /// The sync committee at the trusted slot, once updates have been completed. The recursion
    /// circuit holds an update after the first against it.
    pub active_committee_hash: [u8; 32],
}

/// The mathematical value of [`ServiceState`].
pub struct StateView {
    pub most_recent_proof: Option<ProofView>,
    pub trusted_slot: u64,
    pub trusted_height: u64,
    pub trusted_root: Seq<u8>,
    pub update_counter: u64,
    pub genesis_committee_hash: Option<Seq<char>>,
    pub active_committee_hash: Seq<u8>,
}

/// The value of an optional proof.
pub open spec fn proof_view(o: Option<ProofData>) -> Option<ProofView> {
    match o {
        Some(p) => Some(p@),
        None => None,
    }
}

impl View for ServiceState {
    type V = StateView;

    open spec fn view(&self) -> StateView {
        StateView {
            most_recent_proof: proof_view(self.most_recent_proof),
            trusted_slot: self.trusted_slot,
            trusted_height: self.trusted_height,
            trusted_root: self.trusted_root@,
            update_counter: self.update_counter,
            genesis_committee_hash: crate::wire::text_view(self.genesis_committee_hash),
            active_committee_hash: self.active_committee_hash@,
        }
    }
}

impl StateView {
    /// Once an update is completed its proof is there for the next one.
    pub open spec fn has_predecessor(self) -> bool {
        self.update_counter > 0 ==> self.most_recent_proof is Some
    }

    /// The state before the first update from `slot`.
    pub open spec fn fresh(slot: u64) -> StateView {
        StateView {
            most_recent_proof: None,
            trusted_slot: slot,
            trusted_height: 0,
            trusted_root: Seq::new(32, |i: int| 0u8),
            update_counter: 0,
            genesis_committee_hash: None,
            active_committee_hash: Seq::new(32, |i: int| 0u8),
        }
    }

    /// The state after an update to `new_head` with the given wrapped proof and recursion outputs.
    pub open spec fn updated(self, proof: ProofView, new_head: u64, outputs: OutputsView) -> StateView {
        StateView {
            most_recent_proof: Some(proof),
            trusted_slot: new_head,
            trusted_height: outputs.height,
            trusted_root: outputs.root,
            update_counter: (self.update_counter + 1) as u64,
            genesis_committee_hash: self.genesis_committee_hash,
            active_committee_hash: self.active_committee_hash,
        }
    }

    /// The state with the hash of the first sync committee noted.
    pub open spec fn with_genesis(self, committee_root: Seq<u8>) -> StateView {
        StateView { genesis_committee_hash: Some(hex_lower(committee_root)), ..self }
    }

    /// The state with the sync committee at the trusted slot noted: as the first one before the
    /// first update, as the active one before any other.
    pub open spec fn with_committee(self, committee_root: Seq<u8>) -> StateView {
        if self.update_counter == 0 {
            self.with_genesis(committee_root)
        } else {
            StateView { active_committee_hash: committee_root, ..self }
        }
    }
}

impl ServiceState {
    /// The state before the first update from `trusted_slot`.
    pub fn new(trusted_slot: u64) -> (state: ServiceState)
        ensures
            state@ == StateView::fresh(trusted_slot),
            state@.has_predecessor(),
    {
        let state = ServiceState {
            most_recent_proof: None,
            trusted_slot,
            trusted_height: 0,
            trusted_root: [0u8; 32],
            update_counter: 0,
            genesis_committee_hash: None,
            active_committee_hash: [0u8; 32],
        };
        assert(state.trusted_root@ =~= Seq::new(32, |i: int| 0u8));
        assert(state.active_committee_hash@ =~= Seq::new(32, |i: int| 0u8));
        state
    }
}

/// The lowercase hexadecimal digit for `d`.
pub open spec fn hex_char(d: int) -> char {
    if d == 0 {
        '0'
    } else if d == 1 {
        '1'
    } else if d == 2 {
        '2'
    } else if d == 3 {
        '3'
    } else if d == 4 {
        '4'
    } else if d == 5 {
        '5'
    } else if d == 6 {
        '6'
    } else if d == 7 {
        '7'
    } else if d == 8 {
        '8'
    } else if d == 9 {
        '9'
    } else if d == 10 {
        'a'
    } else if d == 11 {
        'b'
    } else if d == 12 {
        'c'
    } else if d == 13 {
        'd'
    } else if d == 14 {
        'e'
    } else {
        'f'
    }
}

/// `data` in hexadecimal: two digits for each byte, the high one first.
pub open spec fn hex_lower(data: Seq<u8>) -> Seq<char> {
    Seq::new(
        2 * data.len(),
        |i: int|
            hex_char(
                if i % 2 == 0 {
                    data[i / 2] / 16
                } else {
                    data[i / 2] % 16
                } as int,
            ),
    )
}

/// Calls `hex::encode`, which writes each byte as two lowercase hexadecimal digits.
#[verifier::external_body]
pub(crate) fn hex_encode(data: &[u8]) -> (text: String)
    ensures
        text@ == hex_lower(data@),
{
    hex::encode(data)
}

/// The slot that 256 bits name, most significant byte first, where it fits in 64 bits.
pub fn slot_of(head: &[u8; 32]) -> (slot: Option<u64>)
    ensures
        match slot {
            Some(n) => n == be_value(head@),
            None => be_value(head@) > u64::MAX,
        },
{
    let mut n: u64 = 0;
    let mut i: usize = 0;
    while i < 32
        invariant
            i <= 32,
            n == be_value(head@.take(i as int)),
        decreases 32 - i,
    {
        assert(head@.take(i + 1).drop_last() =~= head@.take(i as int));
        if n > 0x00ff_ffff_ffff_ffff {
            proof {
                lemma_be_value_grows(head@, i + 1);
            }
            return None;
        }
        n = 256 * n + head[i] as u64;
        i += 1;
    }
    assert(head@.take(32) =~= head@);
    Some(n)
}

/// Further digits do not make a number smaller.
proof fn lemma_be_value_grows(s: Seq<u8>, i: int)
    requires
        0 <= i <= s.len(),
    ensures
        be_value(s.take(i)) <= be_value(s),
    decreases s.len(),
{
    if i == s.len() {
        assert(s.take(i) =~= s);
    } else {
        lemma_be_value_grows(s.drop_last(), i);
        assert(s.drop_last().take(i) =~= s.take(i));
    }
}

/// A value of the model holds the fields as they stand.
pub proof fn law_state_views(p: ProofData, state: ServiceState)
    ensures
        p@ == (ProofView { bytes: p.bytes@, public_values: p.public_values@ }),
        state.most_recent_proof is None <==> state@.most_recent_proof is None,
        state.most_recent_proof matches Some(q) ==> state@.most_recent_proof == Some(q@),
        state@.trusted_slot == state.trusted_slot,
        state@.trusted_height == state.trusted_height,
        state@.trusted_root == state.trusted_root@,
        state@.update_counter == state.update_counter,
        state.genesis_committee_hash is None <==> state@.genesis_committee_hash is None,
        state.genesis_committee_hash matches Some(t) ==> state@.genesis_committee_hash == Some(t@),
        state@.active_committee_hash == state.active_committee_hash@,
{
}

/// A fresh state trusts the given slot and nothing else: no update, no proof, no committee, and
/// zeros for every hash and number.
pub proof fn law_fresh_state_trusts_a_slot(slot: u64, i: int)
    requires
        0 <= i < 32,
    ensures
        StateView::fresh(slot).trusted_slot == slot,
        StateView::fresh(slot).most_recent_proof is None,
        StateView::fresh(slot).genesis_committee_hash is None,
        StateView::fresh(slot).update_counter == 0,
        StateView::fresh(slot).trusted_height == 0,
        StateView::fresh(slot).trusted_root.len() == 32,
        StateView::fresh(slot).trusted_root[i] == 0,
        StateView::fresh(slot).active_committee_hash.len() == 32,
        StateView::fresh(slot).active_committee_hash[i] == 0,
{
}

/// In hexadecimal each byte is two lowercase digits, for its high and its low four bits.
pub proof fn law_hexadecimal_digits(data: Seq<u8>, i: int)
    requires
        0 <= i < data.len(),
    ensures
        hex_lower(data).len() == 2 * data.len(),
        hex_lower(data)[2 * i] == "0123456789abcdef"@[(data[i] / 16) as int],
        hex_lower(data)[2 * i + 1] == "0123456789abcdef"@[(data[i] % 16) as int],
{
    reveal_strlit("0123456789abcdef");
}

} // verus!
