//! Numbers as sequences of bytes, and small operations on byte strings.

use vstd::prelude::*;

verus! {

/// The number that `s` spells with its least significant byte first.
pub open spec fn le_value(s: Seq<u8>) -> nat
    decreases s.len(),
{
    if s.len() == 0 {
        0
    } else {
        s[0] as nat + 256 * le_value(s.drop_first())
    }
}

/// The number that `s` spells with its most significant byte first.
pub open spec fn be_value(s: Seq<u8>) -> nat
    decreases s.len(),
{
    if s.len() == 0 {
        0
    } else {
        256 * be_value(s.drop_last()) + s.last() as nat
    }
}

/// The `width` low bytes of `n`, least significant byte first.
pub open spec fn le_bytes(n: nat, width: nat) -> Seq<u8>
    decreases width,
{
    if width == 0 {
        Seq::empty()
    } else {
        seq![(n % 256) as u8] + le_bytes(n / 256, (width - 1) as nat)
    }
}

/// `256` to the power `k`: how many numbers fit in `k` bytes.
pub open spec fn byte_range(k: nat) -> nat
    decreases k,
{
    if k == 0 {
        1
    } else {
        256 * byte_range((k - 1) as nat)
    }
}

/// The little-endian form of `n` in `width` bytes has `width` bytes.
pub proof fn lemma_le_bytes_len(n: nat, width: nat)
    ensures
        le_bytes(n, width).len() == width,
    decreases width,
{
    if width > 0 {
        lemma_le_bytes_len(n / 256, (width - 1) as nat);
    }
}

/// A number that fits in `width` bytes is read back from its little-endian form.
pub proof fn law_le_round_trip(n: nat, width: nat)
    requires
        n < byte_range(width),
    ensures
        le_value(le_bytes(n, width)) == n,
    decreases width,
{
    if width > 0 {
        let rest = le_bytes(n / 256, (width - 1) as nat);
        let all = le_bytes(n, width);
        lemma_le_bytes_len(n / 256, (width - 1) as nat);
        law_le_round_trip(n / 256, (width - 1) as nat);
        assert(all.drop_first() =~= rest);
        assert(all[0] == n % 256);
    }
}

/// Every byte string is the little-endian form of the number that it spells.
pub proof fn law_le_bytes_of_value(s: Seq<u8>)
    ensures
        le_bytes(le_value(s), s.len()) == s,
        le_value(s) < byte_range(s.len()),
    decreases s.len(),
{
    if s.len() > 0 {
        let rest = s.drop_first();
        law_le_bytes_of_value(rest);
        assert(le_value(s) % 256 == s[0] as nat);
        assert(le_value(s) / 256 == le_value(rest));
        assert(seq![s[0]] + rest =~= s);
    }
}

/// The numbers that fit in four and in eight bytes are those of `u32` and `u64`.
pub proof fn lemma_word_ranges()
    ensures
        byte_range(4) == u32::MAX + 1,
        byte_range(8) == u64::MAX + 1,
{
    reveal_with_fuel(byte_range, 9);
}

/// More bytes hold more numbers.
pub proof fn lemma_byte_range_grows(k: nat, n: nat)
    requires
        k <= n,
    ensures
        1 <= byte_range(k) <= byte_range(n),
    decreases n,
{
    if k < n {
        lemma_byte_range_grows(k, (n - 1) as nat);
    } else if n > 0 {
        lemma_byte_range_grows((k - 1) as nat, (n - 1) as nat);
    }
}

/// Whether `a` and `b` hold the same bytes.
pub fn same_bytes(a: &[u8], b: &[u8]) -> (same: bool)
    ensures
        same == (a@ == b@),
{
    if a.len() != b.len() {
        return false;
    }
    let mut i: usize = 0;
    while i < a.len()
        invariant
            i <= a.len(),
            a@.len() == b@.len(),
            forall|j: int| 0 <= j < i ==> a@[j] == b@[j],
        decreases a.len() - i,
    {
        if a[i] != b[i] {
            return false;
        }
        i += 1;
    }
    assert(a@ =~= b@);
    true
}

/// A byte string of its own that holds the bytes of `s`.
pub fn copy_bytes(s: &[u8]) -> (v: Vec<u8>)
    ensures
        v@ == s@,
{
    let mut v: Vec<u8> = Vec::new();
    let mut i: usize = 0;
    while i < s.len()
        invariant
            i <= s.len(),
            v@ == s@.take(i as int),
        decreases s.len() - i,
    {
        v.push(s[i]);
        i += 1;
        assert(s@.take(i as int).drop_last() =~= s@.take(i - 1));
    }
    assert(s@.take(s@.len() as int) =~= s@);
    v
}

/// The bytes of `s` as a 32-byte hash, where there are exactly 32 of them.
pub fn to_hash(s: &[u8]) -> (hash: Option<[u8; 32]>)
    ensures
        hash is Some <==> s@.len() == 32,
        hash matches Some(h) ==> h@ == s@,
{
    if s.len() != 32 {
        return None;
    }
    let mut h: [u8; 32] = [0u8; 32];
    let mut i: usize = 0;
    while i < 32
        invariant
            i <= 32,
            s@.len() == 32,
            forall|j: int| 0 <= j < i ==> h@[j] == s@[j],
        decreases 32 - i,
    {
        h[i] = s[i];
        i += 1;
    }
    assert(h@ =~= s@);
    Some(h)
}

/// Most significant byte first: nothing spells zero, and each further byte is one more digit to the
/// base 256.
pub proof fn law_be_value_digits(s: Seq<u8>, b: u8)
    ensures
        be_value(Seq::<u8>::empty()) == 0,
        be_value(s.push(b)) == 256 * be_value(s) + b,
{
    assert(s.push(b).drop_last() =~= s);
}

/// Least significant byte first: nothing spells zero, and a byte put in front is one more low digit
/// to the base 256.
pub proof fn law_le_value_digits(s: Seq<u8>, b: u8)
    ensures
        le_value(Seq::<u8>::empty()) == 0,
        le_value(seq![b] + s) == b + 256 * le_value(s),
{
    assert((seq![b] + s).drop_first() =~= s);
}

/// The four bytes of a number below `2` to the power `32` weigh one, 256, and so on.
pub proof fn law_le_bytes_of_four(n: nat)
    requires
        n < 0x1_0000_0000,
    ensures
        ({
            let b = le_bytes(n, 4);
            &&& b.len() == 4
            &&& n == b[0] + 0x100 * b[1] + 0x1_0000 * b[2] + 0x100_0000 * b[3]
        }),
{
    lemma_le_bytes_len(n, 4);
    lemma_word_ranges();
    law_le_round_trip(n, 4);
    let b = le_bytes(n, 4);
    reveal_with_fuel(le_value, 5);
    assert(b.drop_first().drop_first().drop_first().drop_first() =~= Seq::<u8>::empty());
}

/// The number that eight bytes spell, least significant byte first, weighs them one, 256, and so on.
pub proof fn law_le_value_of_eight(b: Seq<u8>)
    requires
        b.len() == 8,
    ensures
        le_value(b) == b[0] + 0x100 * b[1] + 0x1_0000 * b[2] + 0x100_0000 * b[3] + 0x1_0000_0000
            * b[4] + 0x100_0000_0000 * b[5] + 0x1_0000_0000_0000 * b[6] + 0x100_0000_0000_0000
            * b[7],
{
    reveal_with_fuel(le_value, 9);
}

/// The eight bytes of a number below `2` to the power `64` weigh one, 256, and so on.
pub proof fn law_le_bytes_of_eight(n: nat)
    requires
        n < 0x1_0000_0000_0000_0000,
    ensures
        ({
            let b = le_bytes(n, 8);
            &&& b.len() == 8
            &&& n == b[0] + 0x100 * b[1] + 0x1_0000 * b[2] + 0x100_0000 * b[3] + 0x1_0000_0000
                * b[4] + 0x100_0000_0000 * b[5] + 0x1_0000_0000_0000 * b[6]
                + 0x100_0000_0000_0000 * b[7]
        }),
{
    lemma_le_bytes_len(n, 8);
    lemma_word_ranges();
    law_le_round_trip(n, 8);
    law_le_value_of_eight(le_bytes(n, 8));
}

} // verus!
