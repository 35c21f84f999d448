//! The byte formats that the service and the circuits exchange.
//!
//! Every format is Borsh: the fields of a value one after the other, numbers least significant
//! byte first, and a byte string or a text behind its length in four bytes.

use crate::bytes::{
    copy_bytes, law_le_bytes_of_eight, law_le_bytes_of_four, law_le_bytes_of_value,
    law_le_round_trip, le_bytes, le_value, lemma_le_bytes_len, lemma_word_ranges, to_hash,
};
use vstd::prelude::*;
use vstd::utf8::{encode_utf8, encode_utf8_decode_utf8};

verus! {

/// What the recursion circuit commits to: the state root of the execution layer and the height of
/// the block that it belongs to.
pub struct RecursionCircuitOutputs {
    pub root: Vec<u8>,
    pub height: u64,
}

/// The mathematical value of [`RecursionCircuitOutputs`].
pub struct OutputsView {
    pub root: Seq<u8>,
    pub height: u64,
}

impl View for RecursionCircuitOutputs {
    type V = OutputsView;

    open spec fn view(&self) -> OutputsView {
        OutputsView { root: self.root@, height: self.height }
    }
}

/// Why a value has no encoding, or a byte string no value.
#[derive(Debug, Clone, Copy, PartialEq, Eq, Structural)]
pub enum WireError {
    /// A byte string or a text is longer than a four-byte length can say.
    TooLong,
    /// The bytes are not the encoding of a value of the type.
    Malformed,
}

/// A byte string behind its length.
pub open spec fn prefixed(s: Seq<u8>) -> Seq<u8> {
    le_bytes(s.len(), 4) + s
}

/// Whether the length of `s` fits in its prefix.
pub open spec fn fits(s: Seq<u8>) -> bool {
    s.len() <= u32::MAX
}

/// The encoding of `v`.
pub open spec fn outputs_bytes(v: OutputsView) -> Seq<u8> {
    prefixed(v.root) + le_bytes(v.height as nat, 8)
}

/// The value that `data` encodes, where it encodes one.
pub open spec fn outputs_of(data: Seq<u8>) -> Option<OutputsView> {
    let len = le_value(data.take(4));
    if data.len() >= 12 && data.len() == 12 + len {
        Some(
            OutputsView {
                root: data.subrange(4, 4 + len as int),
                height: le_value(data.skip(4 + len as int)) as u64,
            },
        )
    } else {
        None
    }
}

/// A value that has an encoding is read back from it.
pub proof fn law_outputs_round_trip(v: OutputsView)
    requires
        fits(v.root),
    ensures
        outputs_of(outputs_bytes(v)) == Some(v),
{
    let data = outputs_bytes(v);
    lemma_word_ranges();
    lemma_le_bytes_len(v.root.len(), 4);
    lemma_le_bytes_len(v.height as nat, 8);
    law_le_round_trip(v.root.len(), 4);
    law_le_round_trip(v.height as nat, 8);
    assert(data.take(4) =~= le_bytes(v.root.len(), 4));
    assert(data.subrange(4, 4 + v.root.len() as int) =~= v.root);
    assert(data.skip(4 + v.root.len() as int) =~= le_bytes(v.height as nat, 8));
}

/// Bytes that are read as a value are its encoding.
pub proof fn law_outputs_canonical(data: Seq<u8>)
    requires
        outputs_of(data) is Some,
    ensures
        fits(outputs_of(data)->0.root),
        outputs_bytes(outputs_of(data)->0) == data,
{
    let v = outputs_of(data)->0;
    lemma_word_ranges();
    law_le_bytes_of_value(data.take(4));
    law_le_bytes_of_value(data.skip(4 + v.root.len() as int));
    assert(outputs_bytes(v) =~= data);
}

/// The header of an Electra beacon block.
#[derive(Clone, Copy)]
pub struct ElectraBlockHeader {
    pub slot: u64,
    pub proposer_index: u64,
    pub parent_root: [u8; 32],
    pub state_root: [u8; 32],
    pub body_root: [u8; 32],
}

/// The mathematical value of [`ElectraBlockHeader`].
pub struct HeaderView {
    pub slot: u64,
    pub proposer_index: u64,
    pub parent_root: Seq<u8>,
    pub state_root: Seq<u8>,
    pub body_root: Seq<u8>,
}

impl View for ElectraBlockHeader {
    type V = HeaderView;

    open spec fn view(&self) -> HeaderView {
        HeaderView {
            slot: self.slot,
            proposer_index: self.proposer_index,
            parent_root: self.parent_root@,
            state_root: self.state_root@,
            body_root: self.body_root@,
        }
    }
}

/// What the recursion circuit is given.
pub struct RecursionCircuitInputs {
    /// The sync committee that the service holds to be active.
    pub active_committee_hash: [u8; 32],
    /// The roots of the fields of the block body: the Borsh encoding of the beacon types' struct.
    pub electra_body_roots: Vec<u8>,
    pub electra_header: ElectraBlockHeader,
    pub helios_proof: Vec<u8>,
    pub helios_public_values: Vec<u8>,
    /// The verifying key of the Helios circuit.
    pub helios_vk: String,
    pub previous_proof: Option<Vec<u8>>,
    pub previous_public_values: Option<Vec<u8>>,
    /// The verifying key for the previous proof.
    pub previous_vk: Option<String>,
    /// The slot that the update starts from.
    pub previous_head: u64,
}

/// The mathematical value of [`RecursionCircuitInputs`].
pub struct InputsView {
    pub active_committee_hash: Seq<u8>,
    pub electra_body_roots: Seq<u8>,
    pub electra_header: HeaderView,
    pub helios_proof: Seq<u8>,
    pub helios_public_values: Seq<u8>,
    pub helios_vk: Seq<char>,
    pub previous_proof: Option<Seq<u8>>,
    pub previous_public_values: Option<Seq<u8>>,
    pub previous_vk: Option<Seq<char>>,
    pub previous_head: u64,
}

/// The bytes of an optional byte string.
pub open spec fn bytes_view(o: Option<Vec<u8>>) -> Option<Seq<u8>> {
    match o {
        Some(b) => Some(b@),
        None => None,
    }
}

/// The characters of an optional text.
pub open spec fn text_view(o: Option<String>) -> Option<Seq<char>> {
    match o {
        Some(t) => Some(t@),
        None => None,
    }
}

impl View for RecursionCircuitInputs {
    type V = InputsView;

    open spec fn view(&self) -> InputsView {
        InputsView {
            active_committee_hash: self.active_committee_hash@,
            electra_body_roots: self.electra_body_roots@,
            electra_header: self.electra_header@,
            helios_proof: self.helios_proof@,
            helios_public_values: self.helios_public_values@,
            helios_vk: self.helios_vk@,
            previous_proof: bytes_view(self.previous_proof),
            previous_public_values: bytes_view(self.previous_public_values),
            previous_vk: text_view(self.previous_vk),
            previous_head: self.previous_head,
        }
    }
}

impl HeaderView {
    /// Whether every root has the length of a hash.
    pub open spec fn well_formed(self) -> bool {
        &&& self.parent_root.len() == 32
        &&& self.state_root.len() == 32
        &&& self.body_root.len() == 32
    }
}

impl InputsView {
    /// Whether every hash has the length of one.
    pub open spec fn well_formed(self) -> bool {
        &&& self.active_committee_hash.len() == 32
        &&& self.electra_header.well_formed()
    }

    /// Whether every length fits in its prefix.
    pub open spec fn encodable(self) -> bool {
        &&& fits(self.helios_proof)
        &&& fits(self.helios_public_values)
        &&& fits(encode_utf8(self.helios_vk))
        &&& self.previous_proof matches Some(b) ==> fits(b)
        &&& self.previous_public_values matches Some(b) ==> fits(b)
        &&& self.previous_vk matches Some(t) ==> fits(encode_utf8(t))
    }
}

/// A text as its UTF-8 bytes behind their length.
pub open spec fn text_bytes(t: Seq<char>) -> Seq<u8> {
    prefixed(encode_utf8(t))
}

/// An optional byte string: a zero byte, or a one and the byte string.
pub open spec fn optional_bytes(o: Option<Seq<u8>>) -> Seq<u8> {
    match o {
        Some(b) => seq![1u8] + prefixed(b),
        None => seq![0u8],
    }
}

/// An optional text: a zero byte, or a one and the text.
pub open spec fn optional_text(o: Option<Seq<char>>) -> Seq<u8> {
    optional_bytes(encoded_text(o))
}

/// The encoding of a block header.
pub open spec fn header_bytes(h: HeaderView) -> Seq<u8> {
    le_bytes(h.slot as nat, 8) + (le_bytes(h.proposer_index as nat, 8) + (h.parent_root + (
    h.state_root + h.body_root)))
}

/// The encoding of what follows the body roots in `v`.
pub open spec fn tail_bytes(v: InputsView) -> Seq<u8> {
    header_bytes(v.electra_header) + (prefixed(v.helios_proof) + (prefixed(v.helios_public_values)
        + (text_bytes(v.helios_vk) + (optional_bytes(v.previous_proof) + (optional_bytes(
        v.previous_public_values,
    ) + (optional_text(v.previous_vk) + le_bytes(v.previous_head as nat, 8)))))))
}

/// The encoding of `v`. The body roots are a struct, which Borsh writes in place.
pub open spec fn inputs_bytes(v: InputsView) -> Seq<u8> {
    v.active_committee_hash + (v.electra_body_roots + tail_bytes(v))
}

/// Two strings that begin with parts of the same length are equal only part by part.
proof fn lemma_split(a: Seq<u8>, x: Seq<u8>, b: Seq<u8>, y: Seq<u8>)
    requires
        a + x == b + y,
        a.len() == b.len(),
    ensures
        a == b,
        x == y,
{
    assert(a =~= (a + x).take(a.len() as int));
    assert(b =~= (b + y).take(b.len() as int));
    assert(x =~= (a + x).skip(a.len() as int));
    assert(y =~= (b + y).skip(b.len() as int));
}

/// Two strings that begin with a length-prefixed part are equal only part by part.
proof fn lemma_split_prefixed(a: Seq<u8>, x: Seq<u8>, b: Seq<u8>, y: Seq<u8>)
    requires
        prefixed(a) + x == prefixed(b) + y,
        fits(a),
        fits(b),
    ensures
        a == b,
        x == y,
{
    lemma_word_ranges();
    lemma_le_bytes_len(a.len(), 4);
    lemma_le_bytes_len(b.len(), 4);
    law_le_round_trip(a.len(), 4);
    law_le_round_trip(b.len(), 4);
    assert(prefixed(a) + x =~= le_bytes(a.len(), 4) + (a + x));
    assert(prefixed(b) + y =~= le_bytes(b.len(), 4) + (b + y));
    lemma_split(le_bytes(a.len(), 4), a + x, le_bytes(b.len(), 4), b + y);
    lemma_split(a, x, b, y);
}

/// Two strings that begin with a text are equal only part by part.
proof fn lemma_split_text(a: Seq<char>, x: Seq<u8>, b: Seq<char>, y: Seq<u8>)
    requires
        text_bytes(a) + x == text_bytes(b) + y,
        fits(encode_utf8(a)),
        fits(encode_utf8(b)),
    ensures
        a == b,
        x == y,
{
    lemma_split_prefixed(encode_utf8(a), x, encode_utf8(b), y);
    encode_utf8_decode_utf8(a);
    encode_utf8_decode_utf8(b);
}

/// Two strings that begin with an optional part are equal only part by part.
proof fn lemma_split_optional(a: Option<Seq<u8>>, x: Seq<u8>, b: Option<Seq<u8>>, y: Seq<u8>)
    requires
        optional_bytes(a) + x == optional_bytes(b) + y,
        a matches Some(s) ==> fits(s),
        b matches Some(s) ==> fits(s),
    ensures
        a == b,
        x == y,
{
    assert((optional_bytes(a) + x)[0] == if a is Some { 1u8 } else { 0u8 });
    assert((optional_bytes(b) + y)[0] == if b is Some { 1u8 } else { 0u8 });
    match (a, b) {
        (Some(s), Some(t)) => {
            assert(optional_bytes(a) + x =~= seq![1u8] + (prefixed(s) + x));
            assert(optional_bytes(b) + y =~= seq![1u8] + (prefixed(t) + y));
            lemma_split(seq![1u8], prefixed(s) + x, seq![1u8], prefixed(t) + y);
            lemma_split_prefixed(s, x, t, y);
        },
        _ => {
            lemma_split(optional_bytes(a), x, optional_bytes(b), y);
        },
    }
}

/// Two headers with the same encoding are equal.
proof fn lemma_header_injective(a: HeaderView, b: HeaderView)
    requires
        a.well_formed(),
        b.well_formed(),
        header_bytes(a) == header_bytes(b),
    ensures
        a == b,
{
    lemma_word_ranges();
    let a1 = a.parent_root + (a.state_root + a.body_root);
    let b1 = b.parent_root + (b.state_root + b.body_root);
    lemma_le_bytes_len(a.slot as nat, 8);
    lemma_le_bytes_len(b.slot as nat, 8);
    lemma_le_bytes_len(a.proposer_index as nat, 8);
    lemma_le_bytes_len(b.proposer_index as nat, 8);
    lemma_split(
        le_bytes(a.slot as nat, 8),
        le_bytes(a.proposer_index as nat, 8) + a1,
        le_bytes(b.slot as nat, 8),
        le_bytes(b.proposer_index as nat, 8) + b1,
    );
    lemma_split(
        le_bytes(a.proposer_index as nat, 8),
        a1,
        le_bytes(b.proposer_index as nat, 8),
        b1,
    );
    lemma_split(a.parent_root, a.state_root + a.body_root, b.parent_root, b.state_root + b.body_root);
    lemma_split(a.state_root, a.body_root, b.state_root, b.body_root);
    law_le_round_trip(a.slot as nat, 8);
    law_le_round_trip(b.slot as nat, 8);
    law_le_round_trip(a.proposer_index as nat, 8);
    law_le_round_trip(b.proposer_index as nat, 8);
}

/// Two inputs with the same encoding behind the body roots agree in everything behind them.
proof fn lemma_tail_injective(a: InputsView, b: InputsView)
    requires
        a.well_formed(),
        a.encodable(),
        b.well_formed(),
        b.encodable(),
        tail_bytes(a) == tail_bytes(b),
    ensures
        a == (InputsView {
            active_committee_hash: a.active_committee_hash,
            electra_body_roots: a.electra_body_roots,
            ..b
        }),
{
    let a9 = le_bytes(a.previous_head as nat, 8);
    let a8 = optional_text(a.previous_vk) + a9;
    let a7 = optional_bytes(a.previous_public_values) + a8;
    let a6 = optional_bytes(a.previous_proof) + a7;
    let a5 = text_bytes(a.helios_vk) + a6;
    let a4 = prefixed(a.helios_public_values) + a5;
    let a3 = prefixed(a.helios_proof) + a4;
    let b9 = le_bytes(b.previous_head as nat, 8);
    let b8 = optional_text(b.previous_vk) + b9;
    let b7 = optional_bytes(b.previous_public_values) + b8;
    let b6 = optional_bytes(b.previous_proof) + b7;
    let b5 = text_bytes(b.helios_vk) + b6;
    let b4 = prefixed(b.helios_public_values) + b5;
    let b3 = prefixed(b.helios_proof) + b4;
    lemma_header_len(a.electra_header);
    lemma_header_len(b.electra_header);
    lemma_split(header_bytes(a.electra_header), a3, header_bytes(b.electra_header), b3);
    lemma_header_injective(a.electra_header, b.electra_header);
    lemma_split_prefixed(a.helios_proof, a4, b.helios_proof, b4);
    lemma_split_prefixed(a.helios_public_values, a5, b.helios_public_values, b5);
    lemma_split_text(a.helios_vk, a6, b.helios_vk, b6);
    lemma_split_optional(a.previous_proof, a7, b.previous_proof, b7);
    lemma_split_optional(a.previous_public_values, a8, b.previous_public_values, b8);
    let avk = encoded_text(a.previous_vk);
    let bvk = encoded_text(b.previous_vk);
    lemma_split_optional(avk, a9, bvk, b9);
    if let Some(t) = a.previous_vk {
        encode_utf8_decode_utf8(t);
    }
    if let Some(t) = b.previous_vk {
        encode_utf8_decode_utf8(t);
    }
    lemma_word_ranges();
    law_le_round_trip(a.previous_head as nat, 8);
    law_le_round_trip(b.previous_head as nat, 8);
}

/// No two inputs of the recursion circuit whose body roots take the same number of bytes share an
/// encoding.
pub proof fn law_inputs_injective(a: InputsView, b: InputsView)
    requires
        a.well_formed(),
        a.encodable(),
        b.well_formed(),
        b.encodable(),
        a.electra_body_roots.len() == b.electra_body_roots.len(),
        inputs_bytes(a) == inputs_bytes(b),
    ensures
        a == b,
{
    lemma_split(
        a.active_committee_hash,
        a.electra_body_roots + tail_bytes(a),
        b.active_committee_hash,
        b.electra_body_roots + tail_bytes(b),
    );
    lemma_split(a.electra_body_roots, tail_bytes(a), b.electra_body_roots, tail_bytes(b));
    lemma_tail_injective(a, b);
}

/// Whether `data` is the encoding of `v`, with body roots of `body_len` bytes.
pub open spec fn encodes(v: InputsView, data: Seq<u8>, body_len: nat) -> bool {
    &&& v.well_formed()
    &&& v.encodable()
    &&& v.electra_body_roots.len() == body_len
    &&& inputs_bytes(v) == data
}

/// The inputs that `data` encodes with body roots of `body_len` bytes, where it encodes some.
pub open spec fn inputs_of(data: Seq<u8>, body_len: nat) -> Option<InputsView> {
    if exists|v: InputsView| encodes(v, data, body_len) {
        Some(choose|v: InputsView| encodes(v, data, body_len))
    } else {
        None
    }
}

/// Inputs that have an encoding are read back from it.
pub proof fn law_inputs_round_trip(v: InputsView)
    requires
        v.well_formed(),
        v.encodable(),
    ensures
        inputs_of(inputs_bytes(v), v.electra_body_roots.len()) == Some(v),
{
    let data = inputs_bytes(v);
    let body_len = v.electra_body_roots.len();
    assert(encodes(v, data, body_len));
    law_inputs_injective(v, inputs_of(data, body_len)->0);
}

/// Bytes that are read as inputs are their encoding.
pub proof fn law_inputs_canonical(data: Seq<u8>, body_len: nat)
    requires
        inputs_of(data, body_len) is Some,
    ensures
        encodes(inputs_of(data, body_len)->0, data, body_len),
{
}

/// The encoding of a header has a fixed length.
proof fn lemma_header_len(h: HeaderView)
    requires
        h.well_formed(),
    ensures
        header_bytes(h).len() == 112,
{
    lemma_le_bytes_len(h.slot as nat, 8);
    lemma_le_bytes_len(h.proposer_index as nat, 8);
}

/// The UTF-8 bytes of an optional text.
pub open spec fn encoded_text(o: Option<Seq<char>>) -> Option<Seq<u8>> {
    match o {
        Some(t) => Some(encode_utf8(t)),
        None => None,
    }
}

/// What the wrapper circuit is given.
pub struct WrapperCircuitInputs {
    pub recursive_proof: Vec<u8>,
    pub recursive_public_values: Vec<u8>,
    pub recursive_vk: String,
}

/// The mathematical value of [`WrapperCircuitInputs`].
pub struct WrapperView {
    pub recursive_proof: Seq<u8>,
    pub recursive_public_values: Seq<u8>,
    pub recursive_vk: Seq<char>,
}

impl View for WrapperCircuitInputs {
    type V = WrapperView;

    open spec fn view(&self) -> WrapperView {
        WrapperView {
            recursive_proof: self.recursive_proof@,
            recursive_public_values: self.recursive_public_values@,
            recursive_vk: self.recursive_vk@,
        }
    }
}

impl WrapperView {
    /// Whether every length fits in its prefix.
    pub open spec fn encodable(self) -> bool {
        &&& fits(self.recursive_proof)
        &&& fits(self.recursive_public_values)
        &&& fits(encode_utf8(self.recursive_vk))
    }
}

/// The encoding of `v`.
pub open spec fn wrapper_bytes(v: WrapperView) -> Seq<u8> {
    prefixed(v.recursive_proof) + (prefixed(v.recursive_public_values) + text_bytes(v.recursive_vk))
}

/// No two inputs of the wrapper circuit share an encoding.
pub proof fn law_wrapper_injective(a: WrapperView, b: WrapperView)
    requires
        a.encodable(),
        b.encodable(),
        wrapper_bytes(a) == wrapper_bytes(b),
    ensures
        a == b,
{
    let at = text_bytes(a.recursive_vk);
    let bt = text_bytes(b.recursive_vk);
    lemma_split_prefixed(
        a.recursive_proof,
        prefixed(a.recursive_public_values) + at,
        b.recursive_proof,
        prefixed(b.recursive_public_values) + bt,
    );
    lemma_split_prefixed(a.recursive_public_values, at, b.recursive_public_values, bt);
    assert(at =~= at + Seq::<u8>::empty());
    assert(bt =~= bt + Seq::<u8>::empty());
    lemma_split_text(a.recursive_vk, Seq::empty(), b.recursive_vk, Seq::empty());
}

/// The error type of the `borsh` crate.
#[verifier::external_type_specification]
#[verifier::external_body]
pub struct ExBorshError(borsh::io::Error);

/// Calls `borsh::to_vec` on the pair of `root` and `height`. Borsh writes a tuple as its fields in
/// order, a byte vector behind its length as a `u32`, and a `u64` as eight bytes, least
/// significant first. It fails if and only if the length of `root` exceeds `u32`.
#[verifier::external_body]
fn borsh_outputs(root: &Vec<u8>, height: u64) -> (encoded: Result<Vec<u8>, borsh::io::Error>)
    ensures
        encoded is Ok <==> fits(root@),
        encoded matches Ok(bytes) ==> bytes@ == outputs_bytes(
            OutputsView { root: root@, height },
        ),
{
    borsh::to_vec(&(root, height))
}

/// Calls `borsh::from_slice` for a pair of a byte vector and a `u64`. It reads the length of the
/// vector, the vector and the number, and fails if and only if the bytes run out or some are left
/// over.
#[verifier::external_body]
fn borsh_read_outputs(data: &[u8]) -> (decoded: Result<(Vec<u8>, u64), borsh::io::Error>)
    ensures
        decoded is Ok <==> outputs_of(data@) is Some,
        decoded matches Ok(v) ==> outputs_of(data@) == Some(OutputsView { root: v.0@, height: v.1 }),
{
    borsh::from_slice::<(Vec<u8>, u64)>(data)
}

impl RecursionCircuitOutputs {
    /// The bytes that the recursion circuit commits.
    pub fn encode(&self) -> (encoded: Result<Vec<u8>, WireError>)
        ensures
            match encoded {
                Ok(bytes) => fits(self@.root) && bytes@ == outputs_bytes(self@),
                Err(e) => e == WireError::TooLong && !fits(self@.root),
            },
    {
        match borsh_outputs(&self.root, self.height) {
            Ok(bytes) => Ok(bytes),
            Err(_) => Err(WireError::TooLong),
        }
    }

    /// The value that the recursion circuit committed.
    pub fn decode(data: &[u8]) -> (decoded: Result<RecursionCircuitOutputs, WireError>)
        ensures
            match decoded {
                Ok(v) => outputs_of(data@) == Some(v@),
                Err(e) => e == WireError::Malformed && outputs_of(data@) is None,
            },
    {
        match borsh_read_outputs(data) {
            Ok((root, height)) => Ok(RecursionCircuitOutputs { root, height }),
            Err(_) => Err(WireError::Malformed),
        }
    }
}

/// Calls `borsh::to_vec` on the fields of `v` behind the body roots in their order, the header as a
/// tuple of its own. Borsh writes a fixed-size byte array as it stands, a text as its UTF-8 bytes
/// behind their length and an option behind a byte that is zero or one. It fails if and only if a
/// length exceeds `u32`.
#[verifier::external_body]
fn borsh_tail(v: &RecursionCircuitInputs) -> (encoded: Result<Vec<u8>, borsh::io::Error>)
    ensures
        encoded is Ok <==> v@.encodable(),
        encoded matches Ok(bytes) ==> bytes@ == tail_bytes(v@),
{
    let h = &v.electra_header;
    borsh::to_vec(&(
        (h.slot, h.proposer_index, h.parent_root, h.state_root, h.body_root),
        &v.helios_proof,
        &v.helios_public_values,
        &v.helios_vk,
        &v.previous_proof,
        &v.previous_public_values,
        &v.previous_vk,
        v.previous_head,
    ))
}

/// Calls `borsh::from_slice` for the fields of the inputs behind the body roots in their order, and
/// puts the two fields before them in front. It reads back what `borsh::to_vec` writes for the
/// fields, and fails if and only if the bytes are not written so for any inputs: they run out, some
/// are left over, an option's byte is neither zero nor one, or a text is not UTF-8.
#[verifier::external_body]
fn borsh_read_tail(
    active_committee_hash: [u8; 32],
    electra_body_roots: Vec<u8>,
    data: &[u8],
) -> (decoded: Result<RecursionCircuitInputs, borsh::io::Error>)
    ensures
        decoded matches Ok(v) ==> v@.active_committee_hash == active_committee_hash@
            && v@.electra_body_roots == electra_body_roots@ && v@.encodable() && tail_bytes(v@)
            == data@,
        decoded is Err ==> forall|w: InputsView|
            w.well_formed() && w.encodable() ==> #[trigger] tail_bytes(w) != data@,
{
    let (h, a, b, c, d, e, f, previous_head) = borsh::from_slice(data)?;
    let (slot, proposer_index, parent_root, state_root, body_root) = h;
    Ok(RecursionCircuitInputs {
        active_committee_hash, electra_body_roots,
        electra_header: ElectraBlockHeader { slot, proposer_index, parent_root, state_root, body_root },
        helios_proof: a, helios_public_values: b, helios_vk: c,
        previous_proof: d, previous_public_values: e, previous_vk: f, previous_head,
    })
}

/// Calls `borsh::to_vec` on the fields of `v` in their order. It fails if and only if a length
/// exceeds `u32`.
#[verifier::external_body]
fn borsh_wrapper(v: &WrapperCircuitInputs) -> (encoded: Result<Vec<u8>, borsh::io::Error>)
    ensures
        encoded is Ok <==> v@.encodable(),
        encoded matches Ok(bytes) ==> bytes@ == wrapper_bytes(v@),
{
    borsh::to_vec(&(&v.recursive_proof, &v.recursive_public_values, &v.recursive_vk))
}

impl RecursionCircuitInputs {
    /// The bytes that the recursion circuit reads.
    pub fn encode(&self) -> (encoded: Result<Vec<u8>, WireError>)
        ensures
            match encoded {
                Ok(bytes) => self@.encodable() && bytes@ == inputs_bytes(self@),
                Err(e) => e == WireError::TooLong && !self@.encodable(),
            },
    {
        match borsh_tail(self) {
            Ok(tail) => {
                let mut bytes: Vec<u8> = copy_bytes(&self.active_committee_hash);
                bytes.extend_from_slice(&self.electra_body_roots);
                bytes.extend_from_slice(&tail);
                assert(bytes@ =~= inputs_bytes(self@));
                Ok(bytes)
            },
            Err(_) => Err(WireError::TooLong),
        }
    }

    /// The inputs that `data` encodes. `body_len` is how many bytes the beacon types read for the
    /// body roots, which follow the committee hash.
    pub fn decode(data: &[u8], body_len: usize) -> (decoded: Result<
        RecursionCircuitInputs,
        WireError,
    >)
        ensures
            match decoded {
                Ok(v) => inputs_of(data@, body_len as nat) == Some(v@),
                Err(e) => e == WireError::Malformed && inputs_of(data@, body_len as nat) is None,
            },
    {
        if data.len() < 32 || data.len() - 32 < body_len {
            assert forall|w: InputsView| !encodes(w, data@, body_len as nat) by {
                if encodes(w, data@, body_len as nat) {
                    assert(inputs_bytes(w).len() >= 32 + body_len);
                }
            }
            return Err(WireError::Malformed);
        }
        let body_end: usize = 32 + body_len;
        let (front, tail) = data.split_at(body_end);
        let (hash, body) = front.split_at(32);
        let active_committee_hash: [u8; 32] = match to_hash(hash) {
            Some(hash) => hash,
            None => return Err(WireError::Malformed),
        };
        match borsh_read_tail(active_committee_hash, copy_bytes(body), tail) {
            Ok(v) => {
                proof {
                    assert(data@ =~= hash@ + (body@ + tail@));
                    law_inputs_round_trip(v@);
                }
                Ok(v)
            },
            Err(_) => {
                assert forall|w: InputsView| !encodes(w, data@, body_len as nat) by {
                    if encodes(w, data@, body_len as nat) {
                        assert(data@ =~= hash@ + (body@ + tail@));
                        lemma_split(
                            w.active_committee_hash,
                            w.electra_body_roots + tail_bytes(w),
                            hash@,
                            body@ + tail@,
                        );
                        lemma_split(w.electra_body_roots, tail_bytes(w), body@, tail@);
                    }
                }
                Err(WireError::Malformed)
            },
        }
    }
}

impl WrapperCircuitInputs {
    /// The bytes that the wrapper circuit reads.
    pub fn encode(&self) -> (encoded: Result<Vec<u8>, WireError>)
        ensures
            match encoded {
                Ok(bytes) => self@.encodable() && bytes@ == wrapper_bytes(self@),
                Err(e) => e == WireError::TooLong && !self@.encodable(),
            },
    {
        match borsh_wrapper(self) {
            Ok(bytes) => Ok(bytes),
            Err(_) => Err(WireError::TooLong),
        }
    }
}

/// A value of the model holds the fields as they stand.
pub proof fn law_wire_views(
    outputs: RecursionCircuitOutputs,
    header: ElectraBlockHeader,
    inputs: RecursionCircuitInputs,
    wrapper: WrapperCircuitInputs,
)
    ensures
        outputs@ == (OutputsView { root: outputs.root@, height: outputs.height }),
        header@ == (HeaderView {
            slot: header.slot,
            proposer_index: header.proposer_index,
            parent_root: header.parent_root@,
            state_root: header.state_root@,
            body_root: header.body_root@,
        }),
        inputs@.active_committee_hash == inputs.active_committee_hash@,
        inputs@.electra_body_roots == inputs.electra_body_roots@,
        inputs@.electra_header == inputs.electra_header@,
        inputs@.helios_proof == inputs.helios_proof@,
        inputs@.helios_public_values == inputs.helios_public_values@,
        inputs@.helios_vk == inputs.helios_vk@,
        inputs.previous_proof is None <==> inputs@.previous_proof is None,
        inputs.previous_proof matches Some(p) ==> inputs@.previous_proof == Some(p@),
        inputs.previous_public_values is None <==> inputs@.previous_public_values is None,
        inputs.previous_public_values matches Some(p) ==> inputs@.previous_public_values == Some(
            p@,
        ),
        inputs.previous_vk is None <==> inputs@.previous_vk is None,
        inputs.previous_vk matches Some(t) ==> inputs@.previous_vk == Some(t@),
        inputs@.previous_head == inputs.previous_head,
        wrapper@ == (WrapperView {
            recursive_proof: wrapper.recursive_proof@,
            recursive_public_values: wrapper.recursive_public_values@,
            recursive_vk: wrapper.recursive_vk@,
        }),
{
}

/// A value has an encoding just if none of its byte strings and texts is longer than four bytes can
/// say. How long the body roots are does not matter.
pub proof fn law_only_long_fields_have_no_encoding(
    s: Seq<u8>,
    inputs: InputsView,
    wrapper: WrapperView,
)
    ensures
        fits(s) <==> s.len() < 0x1_0000_0000,
        inputs.encodable() <==> {
            &&& inputs.helios_proof.len() < 0x1_0000_0000
            &&& inputs.helios_public_values.len() < 0x1_0000_0000
            &&& encode_utf8(inputs.helios_vk).len() < 0x1_0000_0000
            &&& inputs.previous_proof matches Some(b) ==> b.len() < 0x1_0000_0000
            &&& inputs.previous_public_values matches Some(b) ==> b.len() < 0x1_0000_0000
            &&& inputs.previous_vk matches Some(t) ==> encode_utf8(t).len() < 0x1_0000_0000
        },
        wrapper.encodable() <==> {
            &&& wrapper.recursive_proof.len() < 0x1_0000_0000
            &&& wrapper.recursive_public_values.len() < 0x1_0000_0000
            &&& encode_utf8(wrapper.recursive_vk).len() < 0x1_0000_0000
        },
        inputs.well_formed() <==> {
            &&& inputs.active_committee_hash.len() == 32
            &&& inputs.electra_header.parent_root.len() == 32
            &&& inputs.electra_header.state_root.len() == 32
            &&& inputs.electra_header.body_root.len() == 32
        },
{
}

/// A byte string stands unchanged behind four bytes that spell its length, a text as its UTF-8 bytes.
/// An optional one is a zero byte, or a one with the string behind it.
pub proof fn law_strings_stand_behind_their_length(s: Seq<u8>, t: Seq<char>)
    requires
        s.len() < 0x1_0000_0000,
    ensures
        ({
            let p = prefixed(s);
            &&& p.len() == 4 + s.len()
            &&& s.len() == p[0] + 0x100 * p[1] + 0x1_0000 * p[2] + 0x100_0000 * p[3]
            &&& p.skip(4) == s
        }),
        text_bytes(t) == prefixed(encode_utf8(t)),
        optional_bytes(None) == seq![0u8],
        optional_bytes(Some(s)) == seq![1u8] + prefixed(s),
        optional_text(None) == seq![0u8],
        optional_text(Some(t)) == seq![1u8] + prefixed(encode_utf8(t)),
{
    law_le_bytes_of_four(s.len());
    assert(prefixed(s).skip(4) =~= s);
}

/// The outputs are written as the length of the root, the root unchanged, and the height.
pub proof fn law_outputs_layout(v: OutputsView)
    requires
        v.root.len() < 0x1_0000_0000,
    ensures
        ({
            let b = outputs_bytes(v);
            let h = b.skip(4 + v.root.len() as int);
            &&& b.len() == 12 + v.root.len()
            &&& v.root.len() == b[0] + 0x100 * b[1] + 0x1_0000 * b[2] + 0x100_0000 * b[3]
            &&& b.subrange(4, 4 + v.root.len() as int) == v.root
            &&& v.height == h[0] + 0x100 * h[1] + 0x1_0000 * h[2] + 0x100_0000 * h[3]
                + 0x1_0000_0000 * h[4] + 0x100_0000_0000 * h[5] + 0x1_0000_0000_0000 * h[6]
                + 0x100_0000_0000_0000 * h[7]
        }),
{
    law_le_bytes_of_four(v.root.len());
    law_le_bytes_of_eight(v.height as nat);
    let b = outputs_bytes(v);
    assert(b.subrange(4, 4 + v.root.len() as int) =~= v.root);
    assert(b.skip(4 + v.root.len() as int) =~= le_bytes(v.height as nat, 8));
}

/// A header is written as its slot, the index of its proposer, and its parent, state and body roots
/// in this order, each unchanged.
pub proof fn law_header_layout(h: HeaderView)
    requires
        h.parent_root.len() == 32,
        h.state_root.len() == 32,
        h.body_root.len() == 32,
    ensures
        ({
            let b = header_bytes(h);
            &&& b.len() == 112
            &&& h.slot == b[0] + 0x100 * b[1] + 0x1_0000 * b[2] + 0x100_0000 * b[3] + 0x1_0000_0000
                * b[4] + 0x100_0000_0000 * b[5] + 0x1_0000_0000_0000 * b[6]
                + 0x100_0000_0000_0000 * b[7]
            &&& h.proposer_index == b[8] + 0x100 * b[9] + 0x1_0000 * b[10] + 0x100_0000 * b[11]
                + 0x1_0000_0000 * b[12] + 0x100_0000_0000 * b[13] + 0x1_0000_0000_0000 * b[14]
                + 0x100_0000_0000_0000 * b[15]
            &&& b.subrange(16, 48) == h.parent_root
            &&& b.subrange(48, 80) == h.state_root
            &&& b.subrange(80, 112) == h.body_root
        }),
{
    law_le_bytes_of_eight(h.slot as nat);
    law_le_bytes_of_eight(h.proposer_index as nat);
    let b = header_bytes(h);
    assert(b.subrange(16, 48) =~= h.parent_root);
    assert(b.subrange(48, 80) =~= h.state_root);
    assert(b.subrange(80, 112) =~= h.body_root);
}

/// The inputs of the recursion circuit are written as the committee hash and the body roots
/// unchanged, and then every other field in its order.
pub proof fn law_inputs_layout(v: InputsView)
    requires
        v.active_committee_hash.len() == 32,
    ensures
        ({
            let b = inputs_bytes(v);
            let n = v.electra_body_roots.len() as int;
            &&& b.len() >= 32 + n
            &&& b.take(32) == v.active_committee_hash
            &&& b.subrange(32, 32 + n) == v.electra_body_roots
            &&& b.skip(32 + n) == header_bytes(v.electra_header) + prefixed(v.helios_proof)
                + prefixed(v.helios_public_values) + text_bytes(v.helios_vk) + optional_bytes(
                v.previous_proof,
            ) + optional_bytes(v.previous_public_values) + optional_text(v.previous_vk) + le_bytes(
                v.previous_head as nat,
                8,
            )
        }),
{
    let b = inputs_bytes(v);
    let n = v.electra_body_roots.len() as int;
    assert(b.take(32) =~= v.active_committee_hash);
    assert(b.subrange(32, 32 + n) =~= v.electra_body_roots);
    assert(b.skip(32 + n) =~= tail_bytes(v));
    assert(tail_bytes(v) =~= header_bytes(v.electra_header) + prefixed(v.helios_proof) + prefixed(
        v.helios_public_values,
    ) + text_bytes(v.helios_vk) + optional_bytes(v.previous_proof) + optional_bytes(
        v.previous_public_values,
    ) + optional_text(v.previous_vk) + le_bytes(v.previous_head as nat, 8));
}

/// The inputs of the wrapper circuit are written as the proof, its public values and the key.
pub proof fn law_wrapper_layout(v: WrapperView)
    ensures
        wrapper_bytes(v) == prefixed(v.recursive_proof) + prefixed(v.recursive_public_values)
            + prefixed(encode_utf8(v.recursive_vk)),
{
    assert(wrapper_bytes(v) =~= prefixed(v.recursive_proof) + prefixed(v.recursive_public_values)
        + prefixed(encode_utf8(v.recursive_vk)));
}

/// Bytes are read as inputs just if some inputs with body roots of that length have them as their
/// encoding.
pub proof fn law_only_encodings_are_read(data: Seq<u8>, body_len: nat, v: InputsView)
    ensures
        inputs_of(data, body_len) == Some(v) <==> {
            &&& v.well_formed()
            &&& v.encodable()
            &&& v.electra_body_roots.len() == body_len
            &&& inputs_bytes(v) == data
        },
{
    if v.well_formed() && v.encodable() && v.electra_body_roots.len() == body_len && inputs_bytes(v)
        == data {
        law_inputs_round_trip(v);
    }
    if inputs_of(data, body_len) == Some(v) {
        law_inputs_canonical(data, body_len);
    }
}

/// Bytes are read as outputs just if they are the encoding of outputs.
pub proof fn law_only_encodings_are_outputs(data: Seq<u8>, v: OutputsView)
    ensures
        outputs_of(data) == Some(v) <==> v.root.len() < 0x1_0000_0000 && outputs_bytes(v) == data,
{
    if v.root.len() < 0x1_0000_0000 && outputs_bytes(v) == data {
        law_outputs_round_trip(v);
    }
    if outputs_of(data) == Some(v) {
        law_outputs_canonical(data);
    }
}

} // verus!
