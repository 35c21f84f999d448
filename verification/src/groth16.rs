//! When a Groth16 proof counts as verified.
//!
//! The verifier tries a proof for the SHA-256 digest of the public values, and then for their Blake3
//! digest. An attempt breaks off where one of its scalars is zero, or where the key folded with them
//! gives the point at infinity; a proof that it breaks off for does not count as verified.

use crate::bytes::{be_value, byte_range, lemma_byte_range_grows};
use vstd::prelude::*;
use vstd::utf8::{encode_utf8, is_char_boundary};

verus! {

/// The order of the scalar field of the BN254 curve, in which hashes and digests are numbers.
pub open spec fn scalar_modulus() -> nat {
    21888242871839275222246405745257275088548364400416034343698204186575808495617nat
}

/// Whether `scalar`, most significant byte first, is zero in the scalar field.
pub open spec fn vanishes(scalar: Seq<u8>) -> bool {
    be_value(scalar) % scalar_modulus() == 0
}

/// Whether `b` is a hexadecimal digit.
pub open spec fn is_hex_digit(b: u8) -> bool {
    48 <= b <= 57 || 65 <= b <= 70 || 97 <= b <= 102
}

/// The value of the hexadecimal digit `b`.
pub open spec fn hex_digit_value(b: u8) -> int {
    if b <= 57 {
        b - 48
    } else if b <= 70 {
        b - 55
    } else {
        b - 87
    }
}

/// Whether `s` is made of hexadecimal digits.
pub open spec fn is_hex(s: Seq<u8>) -> bool {
    forall|i: int| 0 <= i < s.len() ==> is_hex_digit(#[trigger] s[i])
}

/// Whether `vkey_hash` is read as a hash: 64 hexadecimal digits behind a prefix of two bytes.
pub open spec fn is_vkey_hash(vkey_hash: Seq<char>) -> bool {
    let bytes = encode_utf8(vkey_hash);
    &&& is_char_boundary(bytes, 2)
    &&& bytes.len() == 66
    &&& is_hex(bytes.skip(2))
}

/// The 32 bytes that a verifying key hash spells.
pub open spec fn hash_bytes(vkey_hash: Seq<char>) -> Seq<u8> {
    let bytes = encode_utf8(vkey_hash);
    Seq::new(
        32,
        |i: int| (16 * hex_digit_value(bytes[2 + 2 * i]) + hex_digit_value(bytes[3 + 2 * i])) as u8,
    )
}

/// What `sp1_verifier::hash_public_inputs` returns for `public_values`: their SHA-256 digest with its
/// three highest bits cleared.
pub uninterp spec fn public_digest(public_values: Seq<u8>) -> Seq<u8>;

/// What `sp1_verifier::hash_public_inputs_with_fn` returns for `public_values` with
/// `sp1_verifier::blake3_hash`: their Blake3 digest with its three highest bits cleared.
pub uninterp spec fn public_digest_blake3(public_values: Seq<u8>) -> Seq<u8>;

/// Whether the Groth16 key that `sp1_verifier` ships, folded with the scalars `hash` and `digest` by
/// `ark_groth16::Groth16::prepare_inputs`, gives the point at infinity.
pub uninterp spec fn folds_to_infinity(hash: Seq<u8>, digest: Seq<u8>) -> bool;

/// Whether `sp1_verifier::Groth16Verifier::verify_gnark_proof` accepts the curve points `points` for
/// the public inputs `hash` and `digest`, under the Groth16 key that the crate ships.
pub uninterp spec fn gnark_accepts(points: Seq<u8>, hash: Seq<u8>, digest: Seq<u8>) -> bool;

/// Whether `sp1_verifier::Groth16Verifier::verify` accepts `proof` for the given public values and
/// verifying key hash, under the Groth16 key that the crate ships as `GROTH16_VK_BYTES`.
pub uninterp spec fn groth16_accepts(
    proof: Seq<u8>,
    public_values: Seq<u8>,
    vkey_hash: Seq<char>,
) -> bool;

/// Whether an attempt with the scalars `hash` and `digest` comes to an answer. The key is folded with
/// the one and then with the other; no scalar may be zero, and no fold the point at infinity.
pub open spec fn attempt_ends(hash: Seq<u8>, digest: Seq<u8>) -> bool {
    &&& !vanishes(hash)
    &&& !vanishes(digest)
    &&& !folds_to_infinity(hash, Seq::new(32, |i: int| 0u8))
    &&& !folds_to_infinity(hash, digest)
}

/// Whether the verifier comes to an answer. It cuts the prefix off the verifying key hash. If a hash
/// is left it makes its first attempt, and its second where the first is not accepted.
pub open spec fn comes_to_an_answer(
    proof: Seq<u8>,
    public_values: Seq<u8>,
    vkey_hash: Seq<char>,
) -> bool {
    let hash = hash_bytes(vkey_hash);
    let digest = public_digest(public_values);
    &&& is_char_boundary(encode_utf8(vkey_hash), 2)
    &&& is_vkey_hash(vkey_hash) ==> attempt_ends(hash, digest) && (attempt_ends(
        hash,
        public_digest_blake3(public_values),
    ) || (proof.len() >= 4 && gnark_accepts(proof.skip(4), hash, digest)))
}

/// A proof counts as verified if the verifier comes to an answer and accepts.
pub open spec fn verifies(proof: Seq<u8>, public_values: Seq<u8>, vkey_hash: Seq<char>) -> bool {
    comes_to_an_answer(proof, public_values, vkey_hash) && groth16_accepts(
        proof,
        public_values,
        vkey_hash,
    )
}

/// The error type of the Groth16 verifier.
#[verifier::external_type_specification]
#[verifier::external_body]
pub struct ExGroth16Error(sp1_verifier::Groth16Error);

/// Calls `sp1_verifier::hash_public_inputs`, whose 32 bytes depend on nothing but the argument.
#[verifier::external_body]
fn hash_values(public_values: &[u8]) -> (digest: [u8; 32])
    ensures
        digest@ == public_digest(public_values@),
{
    sp1_verifier::hash_public_inputs(public_values)
}

/// Calls `sp1_verifier::hash_public_inputs_with_fn` with the crate's `blake3_hash`. The 32 bytes
/// depend on nothing but the argument.
#[verifier::external_body]
fn hash_values_blake3(public_values: &[u8]) -> (digest: [u8; 32])
    ensures
        digest@ == public_digest_blake3(public_values@),
{
    sp1_verifier::hash_public_inputs_with_fn(public_values, sp1_verifier::blake3_hash)
}

/// Folds the Groth16 key that `sp1_verifier` ships with two scalars, by
/// `ark_groth16::Groth16::prepare_inputs` on what `sp1_verifier` loads for it, and says whether the
/// result is the point at infinity. That depends on nothing but the arguments. The shipped key always
/// loads, with a point for each of the two scalars and one more.
#[verifier::external_body]
fn fold_is_infinite(hash: &[u8; 32], digest: &[u8; 32]) -> (infinite: bool)
    ensures
        infinite == folds_to_infinity(hash@, digest@),
{
    let bytes = *sp1_verifier::GROTH16_VK_BYTES;
    let key = sp1_verifier::load_ark_groth16_verifying_key_from_bytes(bytes).unwrap();
    let scalars = sp1_verifier::load_ark_public_inputs_from_bytes(hash, digest);
    let key = ark_groth16::prepare_verifying_key(&key);
    <ark_groth16::Groth16<ark_bn254::Bn254>>::prepare_inputs(&key, &scalars).unwrap()
        == ark_bn254::G1Projective::default()
}

/// Calls `sp1_verifier::Groth16Verifier::verify_gnark_proof` with the two public inputs and the
/// Groth16 key that the crate ships. Its answer depends on nothing but the arguments. It panics where
/// an input is zero in the scalar field, or where the key folded with the first or with both gives
/// the point at infinity. In the zkVM points are added by a system call that does not test for
/// infinity; such inputs are left out there as well.
#[verifier::external_body]
fn verify_points(points: &[u8], hash: &[u8; 32], digest: &[u8; 32]) -> (verified: Result<
    (),
    sp1_verifier::Groth16Error,
>)
    requires
        attempt_ends(hash@, digest@),
    ensures
        verified is Ok <==> gnark_accepts(points@, hash@, digest@),
{
    sp1_verifier::Groth16Verifier::verify_gnark_proof(
        points,
        &[*hash, *digest],
        *sp1_verifier::GROTH16_VK_BYTES,
    )
}

/// Calls `sp1_verifier::Groth16Verifier::verify` with the Groth16 key that the crate ships. Its
/// answer depends on nothing but the arguments. It accepts no proof without four bytes of key hash
/// and 256 bytes of curve points, and no verifying key hash but 64 hexadecimal digits behind a
/// prefix of two bytes.
///
/// The verifier panics where the prefix cannot be cut off, and where an attempt that it makes breaks
/// off. Behind the four bytes of key hash, its first attempt is `verify_gnark_proof` on the curve
/// points, the verifying key hash and the digest, and it makes a second only where that fails.
#[verifier::external_body]
fn verify(proof: &[u8], public_values: &[u8], vkey_hash: &str) -> (verified: Result<
    (),
    sp1_verifier::Groth16Error,
>)
    requires
        comes_to_an_answer(proof@, public_values@, vkey_hash@),
    ensures
        verified is Ok <==> groth16_accepts(proof@, public_values@, vkey_hash@),
        verified is Ok ==> proof@.len() >= 260 && is_vkey_hash(vkey_hash@),
{
    sp1_verifier::Groth16Verifier::verify(
        proof,
        public_values,
        vkey_hash,
        *sp1_verifier::GROTH16_VK_BYTES,
    )
}

/// What two byte strings spell together.
proof fn lemma_be_value_concat(a: Seq<u8>, b: Seq<u8>)
    ensures
        be_value(a + b) == be_value(a) * byte_range(b.len()) + be_value(b),
    decreases b.len(),
{
    if b.len() == 0 {
        assert(a + b =~= a);
        assert(be_value(a) * byte_range(0) == be_value(a)) by (nonlinear_arith)
            requires
                byte_range(0) == 1,
        ;
    } else {
        let c = b.drop_last();
        lemma_be_value_concat(a, c);
        assert((a + b).drop_last() =~= a + c);
        assert((a + b).last() == b.last());
        assert(be_value(a) * (256 * byte_range(c.len())) == 256 * (be_value(a) * byte_range(
            c.len(),
        ))) by (nonlinear_arith);
    }
}

/// The number that 16 bytes from `from` on spell.
fn half(scalar: &[u8; 32], from: usize) -> (n: u128)
    requires
        from <= 16,
    ensures
        n == be_value(scalar@.subrange(from as int, from + 16)),
{
    let ghost all = scalar@.subrange(from as int, from + 16);
    let mut n: u128 = 0;
    let mut i: usize = 0;
    while i < 16
        invariant
            i <= 16,
            from <= 16,
            all == scalar@.subrange(from as int, from + 16),
            n == be_value(all.take(i as int)),
            n < byte_range(i as nat),
        decreases 16 - i,
    {
        proof {
            lemma_byte_range_grows((i + 1) as nat, 16);
            lemma_half_range();
            assert(all.take(i + 1).drop_last() =~= all.take(i as int));
        }
        n = 256 * n + scalar[from + i] as u128;
        i += 1;
    }
    assert(all.take(16) =~= all);
    n
}

/// `2` to the power `128`.
spec fn half_range() -> nat {
    340282366920938463463374607431768211456nat
}

proof fn lemma_half_range()
    ensures
        byte_range(16) == half_range(),
        half_range() == u128::MAX + 1,
{
    reveal_with_fuel(byte_range, 17);
}

/// Two halves of 128 bits are the high and low halves of one number only.
proof fn lemma_halves(hi: u128, lo: u128, v: nat, vhi: u128, vlo: u128)
    requires
        v == vhi * half_range() + vlo,
    ensures
        hi * half_range() + lo == v <==> hi == vhi && lo == vlo,
{
}

/// The pair of halves `(hi, lo)` is a multiple of the order of the scalar field.
spec fn is_zero_scalar(hi: u128, lo: u128) -> bool {
    ||| hi == 0 && lo == 0
    ||| hi == 0x30644e72e131a029b85045b68181585d && lo == 0x2833e84879b9709143e1f593f0000001
    ||| hi == 0x60c89ce5c263405370a08b6d0302b0ba && lo == 0x5067d090f372e12287c3eb27e0000002
    ||| hi == 0x912ceb58a394e07d28f0d12384840917 && lo == 0x789bb8d96d2c51b3cba5e0bbd0000003
    ||| hi == 0xc19139cb84c680a6e14116da06056174 && lo == 0xa0cfa121e6e5c2450f87d64fc0000004
    ||| hi == 0xf1f5883e65f820d099915c908786b9d1 && lo == 0xc903896a609f32d65369cbe3b0000005
}

/// The numbers of 256 bits that are zero in the scalar field are the six multiples of its order.
proof fn lemma_zero_scalars(hi: u128, lo: u128)
    ensures
        (hi * half_range() + lo) % scalar_modulus() as int == 0 <==> is_zero_scalar(hi, lo),
{
    let m = scalar_modulus();
    let v = (hi * half_range() + lo) as nat;
    lemma_halves(hi, lo, 0, 0, 0);
    lemma_halves(
        hi,
        lo,
        m,
        0x30644e72e131a029b85045b68181585d,
        0x2833e84879b9709143e1f593f0000001,
    );
    lemma_halves(
        hi,
        lo,
        2 * m,
        0x60c89ce5c263405370a08b6d0302b0ba,
        0x5067d090f372e12287c3eb27e0000002,
    );
    lemma_halves(
        hi,
        lo,
        3 * m,
        0x912ceb58a394e07d28f0d12384840917,
        0x789bb8d96d2c51b3cba5e0bbd0000003,
    );
    lemma_halves(
        hi,
        lo,
        4 * m,
        0xc19139cb84c680a6e14116da06056174,
        0xa0cfa121e6e5c2450f87d64fc0000004,
    );
    lemma_halves(
        hi,
        lo,
        5 * m,
        0xf1f5883e65f820d099915c908786b9d1,
        0xc903896a609f32d65369cbe3b0000005,
    );
    assert(v < 6 * m);
    lemma_small_multiples(v, m);
}

/// Below six times `m`, the multiples of `m` are the first six.
proof fn lemma_small_multiples(v: nat, m: nat)
    requires
        0 < m,
        v < 6 * m,
    ensures
        v % m == 0 <==> (v == 0 || v == m || v == 2 * m || v == 3 * m || v == 4 * m || v == 5 * m),
{
    let q = v as int / m as int;
    vstd::arithmetic::div_mod::lemma_fundamental_div_mod(v as int, m as int);
    assert(0 <= q <= 5) by (nonlinear_arith)
        requires
            v as int == m as int * q + v as int % m as int,
            0 <= (v as int % m as int),
            (v as int % m as int) < m,
            0 <= v < 6 * m,
            0 < m,
    ;
    if v % m == 0 {
        assert(v == 0 || v == m || v == 2 * m || v == 3 * m || v == 4 * m || v == 5 * m)
            by (nonlinear_arith)
            requires
                v as int == m as int * q,
                0 <= q <= 5,
        ;
    }
    if v == 0 || v == m || v == 2 * m || v == 3 * m || v == 4 * m || v == 5 * m {
        let k: int = if v == 0 {
            0
        } else if v == m {
            1
        } else if v == 2 * m {
            2
        } else if v == 3 * m {
            3
        } else if v == 4 * m {
            4
        } else {
            5
        };
        assert(v == k * m);
        vstd::arithmetic::div_mod::lemma_mod_multiples_basic(k, m as int);
    }
}

/// Whether `scalar` is zero in the scalar field.
pub fn is_zero(scalar: &[u8; 32]) -> (zero: bool)
    ensures
        zero == vanishes(scalar@),
{
    let hi: u128 = half(scalar, 0);
    let lo: u128 = half(scalar, 16);
    proof {
        let a = scalar@.subrange(0, 16);
        let b = scalar@.subrange(16, 32);
        assert(scalar@ =~= a + b);
        lemma_be_value_concat(a, b);
        lemma_half_range();
        lemma_zero_scalars(hi, lo);
    }
    (hi == 0 && lo == 0) || (hi == 0x30644e72e131a029b85045b68181585d && lo
        == 0x2833e84879b9709143e1f593f0000001) || (hi == 0x60c89ce5c263405370a08b6d0302b0ba && lo
        == 0x5067d090f372e12287c3eb27e0000002) || (hi == 0x912ceb58a394e07d28f0d12384840917 && lo
        == 0x789bb8d96d2c51b3cba5e0bbd0000003) || (hi == 0xc19139cb84c680a6e14116da06056174 && lo
        == 0xa0cfa121e6e5c2450f87d64fc0000004) || (hi == 0xf1f5883e65f820d099915c908786b9d1 && lo
        == 0xc903896a609f32d65369cbe3b0000005)
}

/// The value of a hexadecimal digit.
fn hex_digit(b: u8) -> (digit: Option<u8>)
    ensures
        digit is Some <==> is_hex_digit(b),
        digit matches Some(d) ==> d == hex_digit_value(b) && d < 16,
{
    if 48 <= b && b <= 57 {
        Some(b - 48)
    } else if 65 <= b && b <= 70 {
        Some(b - 55)
    } else if 97 <= b && b <= 102 {
        Some(b - 87)
    } else {
        None
    }
}

/// Reads a verifying key hash: 64 hexadecimal digits behind a prefix of two bytes.
pub fn read_vkey_hash(vkey_hash: &str) -> (read: Option<[u8; 32]>)
    ensures
        read is Some <==> is_vkey_hash(vkey_hash@),
        read matches Some(hash) ==> hash@ == hash_bytes(vkey_hash@),
{
    if !vkey_hash.is_char_boundary(2) {
        return None;
    }
    let bytes: &[u8] = vkey_hash.as_bytes();
    if bytes.len() != 66 {
        return None;
    }
    let ghost digits = bytes@.skip(2);
    let mut hash: [u8; 32] = [0u8; 32];
    let mut i: usize = 0;
    while i < 32
        invariant
            i <= 32,
            bytes@.len() == 66,
            bytes@ == encode_utf8(vkey_hash@),
            digits == bytes@.skip(2),
            forall|j: int| 0 <= j < 2 * i ==> is_hex_digit(#[trigger] digits[j]),
            forall|j: int| 0 <= j < i ==> hash@[j] == hash_bytes(vkey_hash@)[j],
        decreases 32 - i,
    {
        assert(digits[2 * i as int] == bytes@[2 + 2 * i]);
        assert(digits[2 * i + 1] == bytes@[3 + 2 * i]);
        match (hex_digit(bytes[2 + 2 * i]), hex_digit(bytes[3 + 2 * i])) {
            (Some(high), Some(low)) => {
                hash[i] = 16 * high + low;
            },
            _ => {
                return None;
            },
        }
        i += 1;
    }
    assert(hash@ =~= hash_bytes(vkey_hash@));
    Some(hash)
}

/// Whether an attempt with the scalars `hash` and `digest` comes to an answer.
fn ends(hash: &[u8; 32], digest: &[u8; 32]) -> (ends: bool)
    ensures
        ends == attempt_ends(hash@, digest@),
{
    let zero: [u8; 32] = [0u8; 32];
    assert(zero@ =~= Seq::new(32, |i: int| 0u8));
    !is_zero(hash) && !is_zero(digest) && !fold_is_infinite(hash, &zero) && !fold_is_infinite(
        hash,
        digest,
    )
}

/// Whether an attempt with the scalars `hash` and `digest` comes to an answer and accepts `points`.
pub fn attempt_verifies(points: &[u8], hash: &[u8; 32], digest: &[u8; 32]) -> (verified: bool)
    ensures
        verified == (attempt_ends(hash@, digest@) && gnark_accepts(points@, hash@, digest@)),
{
    ends(hash, digest) && verify_points(points, hash, digest).is_ok()
}

/// Whether the verifier comes to an answer.
pub fn is_decided(proof: &[u8], public_values: &[u8], vkey_hash: &str) -> (decided: bool)
    ensures
        decided == comes_to_an_answer(proof@, public_values@, vkey_hash@),
{
    if !vkey_hash.is_char_boundary(2) {
        return false;
    }
    let hash: [u8; 32] = match read_vkey_hash(vkey_hash) {
        Some(hash) => hash,
        None => return true,
    };
    let digest: [u8; 32] = hash_values(public_values);
    if !ends(&hash, &digest) {
        return false;
    }
    if ends(&hash, &hash_values_blake3(public_values)) {
        return true;
    }
    if proof.len() < 4 {
        return false;
    }
    let (_, points) = proof.split_at(4);
    assert(points@ =~= proof@.skip(4));
    attempt_verifies(points, &hash, &digest)
}

/// Whether `proof` is a Groth16 proof, under the verifying key with hash `vkey_hash`, of a run that
/// committed `public_values`.
pub fn proof_verifies(proof: &[u8], public_values: &[u8], vkey_hash: &str) -> (verified: bool)
    ensures
        verified == verifies(proof@, public_values@, vkey_hash@),
        verified == (comes_to_an_answer(proof@, public_values@, vkey_hash@) && groth16_accepts(
            proof@,
            public_values@,
            vkey_hash@,
        )),
        verified ==> proof@.len() >= 260 && is_vkey_hash(vkey_hash@),
{
    is_decided(proof, public_values, vkey_hash) && verify(proof, public_values, vkey_hash).is_ok()
}

/// Every proof for which the verifier comes to an answer and accepts counts as verified, and no
/// other.
pub proof fn law_verified_is_accepted(
    proof: Seq<u8>,
    public_values: Seq<u8>,
    vkey_hash: Seq<char>,
)
    ensures
        verifies(proof, public_values, vkey_hash) <==> comes_to_an_answer(
            proof,
            public_values,
            vkey_hash,
        ) && groth16_accepts(proof, public_values, vkey_hash),
{
}

/// Zero in the scalar field are the multiples of the order of the BN254 curve.
pub proof fn law_zero_scalars(scalar: Seq<u8>, k: nat)
    ensures
        vanishes(scalar) <==> be_value(scalar)
            % 0x30644e72e131a029b85045b68181585d2833e84879b9709143e1f593f0000001nat == 0,
        be_value(scalar) == k
            * 0x30644e72e131a029b85045b68181585d2833e84879b9709143e1f593f0000001nat ==> vanishes(
            scalar,
        ),
{
    if be_value(scalar) == k * scalar_modulus() {
        vstd::arithmetic::div_mod::lemma_mod_multiples_basic(k as int, scalar_modulus() as int);
    }
}

/// A text is read as a verifying key hash just if a prefix of two bytes can be cut off and the 64
/// bytes behind it are hexadecimal digits of either case. Each two of them spell one byte, the high
/// digit first.
pub proof fn law_vkey_hash_is_hexadecimal(vkey_hash: Seq<char>, i: int, high: int, low: int)
    ensures
        is_vkey_hash(vkey_hash) <==> {
            let bytes = encode_utf8(vkey_hash);
            &&& is_char_boundary(bytes, 2)
            &&& bytes.len() == 66
            &&& forall|k: int|
                2 <= k < 66 ==> {
                    let c = #[trigger] bytes[k];
                    '0' as u8 <= c <= '9' as u8 || 'A' as u8 <= c <= 'F' as u8 || 'a' as u8 <= c
                        <= 'f' as u8
                }
        },
        hash_bytes(vkey_hash).len() == 32,
        ({
            let a = encode_utf8(vkey_hash)[2 + 2 * i];
            let b = encode_utf8(vkey_hash)[3 + 2 * i];
            &&& 0 <= i < 32
            &&& 0 <= high < 16
            &&& 0 <= low < 16
            &&& a == '0' as int + high && high < 10 || a == 'a' as int + high - 10 && high >= 10
                || a == 'A' as int + high - 10 && high >= 10
            &&& b == '0' as int + low && low < 10 || b == 'a' as int + low - 10 && low >= 10 || b
                == 'A' as int + low - 10 && low >= 10
        }) ==> hash_bytes(vkey_hash)[i] == 16 * high + low,
{
    let bytes = encode_utf8(vkey_hash);
    if bytes.len() == 66 {
        let digits = bytes.skip(2);
        assert(forall|k: int| 2 <= k < 66 ==> #[trigger] bytes[k] == digits[k - 2]);
        assert(forall|k: int| 0 <= k < 64 ==> #[trigger] digits[k] == bytes[k + 2]);
    }
}

/// An attempt comes to an answer just if neither scalar is zero and the key folds to a point other
/// than infinity with the first alone and with both.
pub proof fn law_attempts_that_end(hash: Seq<u8>, digest: Seq<u8>)
    ensures
        attempt_ends(hash, digest) <==> !vanishes(hash) && !vanishes(digest) && !folds_to_infinity(
            hash,
            Seq::new(32, |i: int| 0u8),
        ) && !folds_to_infinity(hash, digest),
{
}

/// The verifier comes to no answer if the prefix cannot be cut off, and always to one if no hash is
/// left behind it. With a hash, the SHA-256 attempt has to end. So has the Blake3 attempt, unless the
/// first one accepts. The proof itself matters for nothing else.
pub proof fn law_when_the_verifier_answers(
    proof: Seq<u8>,
    public_values: Seq<u8>,
    vkey_hash: Seq<char>,
)
    ensures
        !is_char_boundary(encode_utf8(vkey_hash), 2) ==> !comes_to_an_answer(
            proof,
            public_values,
            vkey_hash,
        ),
        is_char_boundary(encode_utf8(vkey_hash), 2) && !is_vkey_hash(vkey_hash)
            ==> comes_to_an_answer(proof, public_values, vkey_hash),
        is_vkey_hash(vkey_hash) ==> {
            let hash = hash_bytes(vkey_hash);
            let first = attempt_ends(hash, public_digest(public_values));
            let second = attempt_ends(hash, public_digest_blake3(public_values));
            &&& !first ==> !comes_to_an_answer(proof, public_values, vkey_hash)
            &&& first && second ==> comes_to_an_answer(proof, public_values, vkey_hash)
            &&& first && !second ==> (comes_to_an_answer(proof, public_values, vkey_hash) <==> {
                &&& proof.len() >= 4
                &&& gnark_accepts(proof.skip(4), hash, public_digest(public_values))
            })
        },
{
}

} // verus!
