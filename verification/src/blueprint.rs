//! How the sources of the circuits are generated from their blueprints.
//!
//! A blueprint is a source text with placeholders for what a deployment trusts.

use vstd::prelude::*;
use vstd::string::*;

verus! {

/// Whether `p` occurs in `s` at `i`.
pub open spec fn occurs_at(s: Seq<char>, p: Seq<char>, i: int) -> bool {
    0 <= i && i + p.len() <= s.len() && s.subrange(i, i + p.len()) == p
}

/// `s` with every occurrence of `p` replaced by `w`, from left to right and without overlap.
pub open spec fn replaced(s: Seq<char>, p: Seq<char>, w: Seq<char>) -> Seq<char>
    decreases s.len(),
{
    if s.len() == 0 || p.len() == 0 {
        s
    } else if occurs_at(s, p, 0) {
        w + replaced(s.skip(p.len() as int), p, w)
    } else {
        seq![s[0]] + replaced(s.skip(1), p, w)
    }
}

/// A text in which the pattern does not occur stays as it is.
pub proof fn law_replaced_absent(s: Seq<char>, p: Seq<char>, w: Seq<char>)
    requires
        forall|i: int| !occurs_at(s, p, i),
    ensures
        replaced(s, p, w) == s,
    decreases s.len(),
{
    if s.len() > 0 && p.len() > 0 {
        let rest = s.skip(1);
        assert forall|i: int| !occurs_at(rest, p, i) by {
            if occurs_at(rest, p, i) {
                assert(s.subrange(i + 1, i + 1 + p.len()) =~= rest.subrange(i, i + p.len()));
                assert(occurs_at(s, p, i + 1));
            }
        }
        law_replaced_absent(rest, p, w);
        assert(seq![s[0]] + rest =~= s);
    }
}

/// The first occurrence gives way to the replacement; what stands before it stays, and the rest is
/// replaced on its own.
pub proof fn law_replaced_first(s: Seq<char>, p: Seq<char>, w: Seq<char>, at: int)
    requires
        p.len() > 0,
        occurs_at(s, p, at),
        forall|i: int| 0 <= i < at ==> !occurs_at(s, p, i),
    ensures
        replaced(s, p, w) == s.take(at) + w + replaced(s.skip(at + p.len()), p, w),
    decreases s.len(),
{
    if at == 0 {
        assert(s.take(0) + w =~= w);
    } else {
        let rest = s.skip(1);
        assert(!occurs_at(s, p, 0));
        assert(rest.subrange(at - 1, at - 1 + p.len()) =~= s.subrange(at, at + p.len()));
        assert forall|i: int| 0 <= i < at - 1 implies !occurs_at(rest, p, i) by {
            assert(!occurs_at(s, p, i + 1));
            if occurs_at(rest, p, i) {
                assert(s.subrange(i + 1, i + 1 + p.len()) =~= rest.subrange(i, i + p.len()));
            }
        }
        law_replaced_first(rest, p, w, at - 1);
        assert(rest.skip(at - 1 + p.len()) =~= s.skip(at + p.len()));
        assert(seq![s[0]] + (rest.take(at - 1) + w + replaced(s.skip(at + p.len()), p, w))
            =~= s.take(at) + w + replaced(s.skip(at + p.len()), p, w));
    }
}

/// The characters of `s`.
fn chars_of(s: &str) -> (v: Vec<char>)
    ensures
        v@ == s@,
{
    let mut v: Vec<char> = Vec::new();
    for c in it: s.chars()
        invariant
            v@ == s@.take(it.index() as int),
            it.seq() == s@,
    {
        v.push(c);
        assert(s@.take(it.index() + 1) =~= s@.take(it.index() as int).push(c));
    }
    assert(s@.take(s@.len() as int) =~= s@);
    v
}

/// Whether `p` occurs in `s` at `i`.
fn has_at(s: &Vec<char>, p: &Vec<char>, i: usize) -> (has: bool)
    requires
        i <= s@.len(),
    ensures
        has == occurs_at(s@, p@, i as int),
{
    if s.len() - i < p.len() {
        return false;
    }
    let mut j: usize = 0;
    while j < p.len()
        invariant
            i + p@.len() <= s@.len(),
            s@.len() <= usize::MAX,
            j <= p@.len(),
            forall|k: int| 0 <= k < j ==> s@[i + k] == p@[k],
        decreases p@.len() - j,
    {
        if s[i + j] != p[j] {
            assert(s@.subrange(i as int, i + p@.len())[j as int] != p@[j as int]);
            return false;
        }
        j += 1;
    }
    assert(s@.subrange(i as int, i + p@.len()) =~= p@);
    true
}

/// Replaces every occurrence of `pattern` in `text` by `with`.
pub fn replace_all(text: &str, pattern: &str, with: &str) -> (result: String)
    requires
        pattern@.len() > 0,
    ensures
        result@ == replaced(text@, pattern@, with@),
{
    let s: Vec<char> = chars_of(text);
    let p: Vec<char> = chars_of(pattern);
    let mut result: String = String::new();
    let mut start: usize = 0;
    let mut i: usize = 0;
    proof {
        assert(s@.skip(0) =~= s@);
        assert(result@ + s@.subrange(0, 0) =~= Seq::<char>::empty());
        assert(Seq::<char>::empty() + replaced(s@, p@, with@) =~= replaced(s@, p@, with@));
    }
    while i < s.len()
        invariant
            s@ == text@,
            p@ == pattern@,
            p@.len() > 0,
            start <= i <= s@.len(),
            replaced(text@, p@, with@) == result@ + s@.subrange(start as int, i as int) + replaced(
                s@.skip(i as int),
                p@,
                with@,
            ),
        decreases s@.len() - i,
    {
        let ghost rest = s@.skip(i as int);
        let ghost before = result@ + s@.subrange(start as int, i as int);
        assert(occurs_at(rest, p@, 0) == occurs_at(s@, p@, i as int)) by {
            if i + p@.len() <= s@.len() {
                assert(rest.subrange(0, p@.len() as int) =~= s@.subrange(i as int, i + p@.len()));
            }
        }
        if has_at(&s, &p, i) {
            result.append(text.substring_char(start, i));
            result.append(with);
            i += p.len();
            start = i;
            proof {
                assert(rest.skip(p@.len() as int) =~= s@.skip(i as int));
                let tail = replaced(s@.skip(i as int), p@, with@);
                assert(before + (with@ + tail) =~= result@ + s@.subrange(start as int, i as int)
                    + tail);
            }
        } else {
            i += 1;
            proof {
                assert(rest.skip(1) =~= s@.skip(i as int));
                let tail = replaced(s@.skip(i as int), p@, with@);
                assert(before + (seq![rest[0]] + tail) =~= result@ + s@.subrange(
                    start as int,
                    i as int,
                ) + tail);
            }
        }
    }
    result.append(text.substring_char(start, s.len()));
    assert(s@.skip(i as int) =~= Seq::<char>::empty());
    assert(result@ + replaced(s@.skip(i as int), p@, with@) =~= result@);
    result
}

/// The character of a decimal digit.
pub open spec fn digit_char(d: int) -> char {
    if d == 0 {
        '0'
    } else if d == 1 {
        '1'
    } else if d == 2 {
        '2'
    } else if d == 3 {
        '3'
    } else if d == 4 {
        '4'
    } else if d == 5 {
        '5'
    } else if d == 6 {
        '6'
    } else if d == 7 {
        '7'
    } else if d == 8 {
        '8'
    } else {
        '9'
    }
}

/// `n` in decimal.
pub open spec fn decimal_chars(n: nat) -> Seq<char>
    decreases n,
{
    if n < 10 {
        seq![digit_char(n as int)]
    } else {
        decimal_chars(n / 10).push(digit_char((n % 10) as int))
    }
}

/// A list of bytes as a Rust array expression writes it: `[1, 20, 255]`.
pub open spec fn byte_list_chars(bytes: Seq<u8>) -> Seq<char> {
    seq!['['] + joined(bytes) + seq![']']
}

/// The bytes in decimal, with a comma and a space between them.
pub open spec fn joined(bytes: Seq<u8>) -> Seq<char>
    decreases bytes.len(),
{
    if bytes.len() == 0 {
        Seq::empty()
    } else if bytes.len() == 1 {
        decimal_chars(bytes[0] as nat)
    } else {
        joined(bytes.drop_last()) + seq![',', ' '] + decimal_chars(bytes.last() as nat)
    }
}

fn digit(d: u64) -> (text: &'static str)
    requires
        d < 10,
    ensures
        text@ == seq![digit_char(d as int)],
{
    proof {
        reveal_strlit("0");
        reveal_strlit("1");
        reveal_strlit("2");
        reveal_strlit("3");
        reveal_strlit("4");
        reveal_strlit("5");
        reveal_strlit("6");
        reveal_strlit("7");
        reveal_strlit("8");
        reveal_strlit("9");
    }
    let text: &'static str = match d {
        0 => "0",
        1 => "1",
        2 => "2",
        3 => "3",
        4 => "4",
        5 => "5",
        6 => "6",
        7 => "7",
        8 => "8",
        _ => "9",
    };
    assert(text@ =~= seq![digit_char(d as int)]);
    text
}

/// Writes `n` in decimal.
pub fn decimal(n: u64) -> (text: String)
    ensures
        text@ == decimal_chars(n as nat),
    decreases n,
{
    if n < 10 {
        digit(n).to_owned()
    } else {
        let mut text: String = decimal(n / 10);
        text.append(digit(n % 10));
        assert(text@ =~= decimal_chars((n / 10) as nat).push(digit_char((n % 10) as int)));
        text
    }
}

/// Writes `bytes` as a Rust array expression.
pub fn byte_list(bytes: &[u8]) -> (text: String)
    ensures
        text@ == byte_list_chars(bytes@),
{
    proof {
        reveal_strlit("[");
        reveal_strlit(", ");
        reveal_strlit("]");
    }
    let mut text: String = "[".to_owned();
    assert(text@ =~= seq!['['] + joined(bytes@.take(0)));
    let mut i: usize = 0;
    while i < bytes.len()
        invariant
            i <= bytes@.len(),
            text@ == seq!['['] + joined(bytes@.take(i as int)),
            ", "@ =~= seq![',', ' '],
        decreases bytes@.len() - i,
    {
        let ghost done = bytes@.take(i as int);
        if i > 0 {
            text.append(", ");
        }
        let number: String = decimal(bytes[i] as u64);
        text.append(number.as_str());
        i += 1;
        proof {
            let now = bytes@.take(i as int);
            assert(now.drop_last() =~= done);
            assert(now.last() == bytes@[i - 1]);
            assert(text@ =~= seq!['['] + joined(now));
        }
    }
    text.append("]");
    assert(bytes@.take(bytes@.len() as int) =~= bytes@);
    assert(text@ =~= byte_list_chars(bytes@));
    text
}

/// The source of the recursion circuit: the blueprint with the trusted sync committee hash and the
/// trusted slot filled in.
pub open spec fn recursion_source(
    blueprint: Seq<char>,
    committee_hash: Seq<u8>,
    trusted_head: u64,
) -> Seq<char> {
    replaced(
        replaced(blueprint, "{ committee_hash }"@, byte_list_chars(committee_hash)),
        "{ trusted_head }"@,
        decimal_chars(trusted_head as nat),
    )
}

/// The source of the wrapper circuit: the blueprint with the verifying key of the recursion circuit
/// filled in as a string literal.
pub open spec fn wrapper_source(blueprint: Seq<char>, recursive_vk: Seq<char>) -> Seq<char> {
    replaced(blueprint, "{ recursive_vk }"@, seq!['"'] + recursive_vk + seq!['"'])
}

/// Generates the source of the recursion circuit.
pub fn generate_recursion_circuit(
    blueprint: &str,
    committee_hash: &[u8],
    trusted_head: u64,
) -> (source: String)
    ensures
        source@ == recursion_source(blueprint@, committee_hash@, trusted_head),
{
    proof {
        reveal_strlit("{ committee_hash }");
        reveal_strlit("{ trusted_head }");
    }
    let hash: String = byte_list(committee_hash);
    let head: String = decimal(trusted_head);
    let with_hash: String = replace_all(blueprint, "{ committee_hash }", hash.as_str());
    replace_all(with_hash.as_str(), "{ trusted_head }", head.as_str())
}

/// Generates the source of the wrapper circuit.
pub fn generate_wrapper_circuit(blueprint: &str, recursive_vk: &str) -> (source: String)
    ensures
        source@ == wrapper_source(blueprint@, recursive_vk@),
{
    proof {
        reveal_strlit("{ recursive_vk }");
        reveal_strlit("\"");
    }
    let mut literal: String = "\"".to_owned();
    literal.append(recursive_vk);
    literal.append("\"");
    assert(literal@ =~= seq!['"'] + recursive_vk@ + seq!['"']);
    replace_all(blueprint, "{ recursive_vk }", literal.as_str())
}

/// Whether `p` does not occur in `s`.
pub open spec fn absent(s: Seq<char>, p: Seq<char>) -> bool {
    forall|i: int| !occurs_at(s, p, i)
}

/// A placeholder: it opens with a brace and holds no other opening brace or bracket.
spec fn is_placeholder(p: Seq<char>) -> bool {
    &&& p.len() > 2
    &&& p[0] == '{'
    &&& forall|i: int| 0 < i < p.len() ==> p[i] != '{' && p[i] != '['
}

proof fn lemma_placeholders()
    ensures
        is_placeholder("{ committee_hash }"@),
        is_placeholder("{ trusted_head }"@),
        is_placeholder("{ recursive_vk }"@),
        "{ committee_hash }"@[2] == 'c',
        "{ trusted_head }"@[2] == 't',
{
    reveal_strlit("{ committee_hash }");
    reveal_strlit("{ trusted_head }");
    reveal_strlit("{ recursive_vk }");
}

/// Where a placeholder is absent from `x`, it does not begin in `x` either if `y` follows, as long
/// as `y` opens with a brace or a bracket.
proof fn lemma_not_before(x: Seq<char>, y: Seq<char>, p: Seq<char>, i: int)
    requires
        is_placeholder(p),
        absent(x, p),
        y.len() > 0,
        y[0] == '{' || y[0] == '[',
        0 <= i < x.len(),
    ensures
        !occurs_at(x + y, p, i),
{
    if occurs_at(x + y, p, i) {
        let found = (x + y).subrange(i, i + p.len());
        if i + p.len() <= x.len() {
            assert(x.subrange(i, i + p.len()) =~= found);
            assert(occurs_at(x, p, i));
        } else {
            assert(found[x.len() - i] == y[0]);
        }
    }
}

/// An occurrence behind `x` in `x + y` is an occurrence in `y`.
proof fn lemma_shift(x: Seq<char>, y: Seq<char>, p: Seq<char>, i: int)
    requires
        x.len() <= i,
    ensures
        occurs_at(x + y, p, i) == occurs_at(y, p, i - x.len()),
{
    if i + p.len() <= x.len() + y.len() {
        assert((x + y).subrange(i, i + p.len()) =~= y.subrange(
            i - x.len(),
            i - x.len() + p.len(),
        ));
    }
}

/// A text that does not hold the opening brace at `i` has no placeholder there.
proof fn lemma_no_brace(s: Seq<char>, p: Seq<char>, i: int)
    requires
        is_placeholder(p),
        0 <= i < s.len(),
        s[i] != '{',
    ensures
        !occurs_at(s, p, i),
{
    if occurs_at(s, p, i) {
        assert(s.subrange(i, i + p.len())[0] == s[i]);
    }
}

proof fn lemma_decimal_digits(n: nat, i: int)
    requires
        0 <= i < decimal_chars(n).len(),
    ensures
        decimal_chars(n)[i] != '{',
    decreases n,
{
    if n >= 10 && i < decimal_chars(n / 10).len() {
        lemma_decimal_digits(n / 10, i);
    }
}

proof fn lemma_joined_no_brace(bytes: Seq<u8>, i: int)
    requires
        0 <= i < joined(bytes).len(),
    ensures
        joined(bytes)[i] != '{',
    decreases bytes.len(),
{
    if bytes.len() == 1 {
        lemma_decimal_digits(bytes[0] as nat, i);
    } else {
        let front = joined(bytes.drop_last());
        if i < front.len() {
            lemma_joined_no_brace(bytes.drop_last(), i);
        } else if i >= front.len() + 2 {
            lemma_decimal_digits(bytes.last() as nat, i - front.len() - 2);
        }
    }
}

/// A text that holds one placeholder, with text before and after it that is free of it, has it
/// filled in.
proof fn lemma_fill(a: Seq<char>, p: Seq<char>, w: Seq<char>, c: Seq<char>)
    requires
        is_placeholder(p),
        forall|i: int| 0 <= i < a.len() ==> !occurs_at(a + (p + c), p, i),
        absent(c, p),
    ensures
        replaced(a + (p + c), p, w) == a + w + c,
{
    let s = a + (p + c);
    assert(s.subrange(a.len() as int, a.len() as int + p.len()) =~= p);
    law_replaced_first(s, p, w, a.len() as int);
    assert(s.take(a.len() as int) =~= a);
    assert(s.skip(a.len() as int + p.len()) =~= c);
    law_replaced_absent(c, p, w);
}

/// A recursion blueprint that holds each of its placeholders once comes out with both filled in and
/// everything else untouched.
pub proof fn law_recursion_blueprint_filled(
    a: Seq<char>,
    b: Seq<char>,
    c: Seq<char>,
    committee_hash: Seq<u8>,
    trusted_head: u64,
)
    requires
        absent(a, "{ committee_hash }"@),
        absent(b, "{ committee_hash }"@),
        absent(c, "{ committee_hash }"@),
        absent(a, "{ trusted_head }"@),
        absent(b, "{ trusted_head }"@),
        absent(c, "{ trusted_head }"@),
    ensures
        recursion_source(
            a + "{ committee_hash }"@ + b + "{ trusted_head }"@ + c,
            committee_hash,
            trusted_head,
        ) == a + byte_list_chars(committee_hash) + b + decimal_chars(trusted_head as nat) + c,
{
    let p = "{ committee_hash }"@;
    let q = "{ trusted_head }"@;
    let list = byte_list_chars(committee_hash);
    let head = decimal_chars(trusted_head as nat);
    lemma_placeholders();
    let tail = b + (q + c);
    // The hash.
    assert(a + p + b + q + c =~= a + (p + tail));
    assert forall|i: int| 0 <= i < a.len() implies !occurs_at(a + (p + tail), p, i) by {
        lemma_not_before(a, p + tail, p, i);
    }
    assert forall|i: int| !occurs_at(tail, p, i) by {
        if 0 <= i < b.len() {
            lemma_not_before(b, q + c, p, i);
        } else if b.len() <= i < b.len() + q.len() {
            if i == b.len() && occurs_at(tail, p, i) {
                assert(tail.subrange(i, i + p.len())[2] == q[2]);
            } else if i > b.len() {
                assert(tail[i] == q[i - b.len()]);
                lemma_no_brace(tail, p, i);
            }
        } else if i >= b.len() + q.len() {
            lemma_shift(b, q + c, p, i);
            lemma_shift(q, c, p, i - b.len());
        }
    }
    lemma_fill(a, p, list, tail);
    // The slot.
    let front = a + list + b;
    assert(a + list + tail =~= front + (q + c));
    assert forall|i: int| 0 <= i < front.len() implies !occurs_at(front + (q + c), q, i) by {
        let rest = list + tail;
        assert(front + (q + c) =~= a + rest);
        if i < a.len() {
            lemma_not_before(a, rest, q, i);
        } else if i < a.len() + list.len() {
            let k = i - a.len();
            assert(list[k] != '{') by {
                if 0 < k < list.len() - 1 {
                    lemma_joined_no_brace(committee_hash, k - 1);
                }
            }
            lemma_no_brace(a + rest, q, i);
        } else {
            lemma_shift(a, rest, q, i);
            lemma_shift(list, tail, q, i - a.len());
            lemma_not_before(b, q + c, q, i - a.len() - list.len());
        }
    }
    lemma_fill(front, q, head, c);
}

/// A wrapper blueprint that holds its placeholder once comes out with the key in its place and
/// everything else untouched.
pub proof fn law_wrapper_blueprint_filled(a: Seq<char>, b: Seq<char>, recursive_vk: Seq<char>)
    requires
        absent(a, "{ recursive_vk }"@),
        absent(b, "{ recursive_vk }"@),
    ensures
        wrapper_source(a + "{ recursive_vk }"@ + b, recursive_vk) == a + (seq!['"'] + recursive_vk
            + seq!['"']) + b,
{
    let p = "{ recursive_vk }"@;
    lemma_placeholders();
    assert(a + p + b =~= a + (p + b));
    assert forall|i: int| 0 <= i < a.len() implies !occurs_at(a + (p + b), p, i) by {
        lemma_not_before(a, p + b, p, i);
    }
    lemma_fill(a, p, seq!['"'] + recursive_vk + seq!['"'], b);
}

/// A pattern occurs where the text has its characters one after the other, and is absent where it
/// occurs nowhere.
pub proof fn law_occurrences(s: Seq<char>, p: Seq<char>, i: int)
    ensures
        occurs_at(s, p, i) <==> {
            &&& 0 <= i
            &&& i + p.len() <= s.len()
            &&& forall|k: int| 0 <= k < p.len() ==> s[i + k] == #[trigger] p[k]
        },
        absent(s, p) <==> forall|j: int|
            0 <= j <= s.len() - p.len() ==> #[trigger] s.subrange(j, j + p.len()) != p,
{
    let found = s.subrange(i, i + p.len());
    if 0 <= i && i + p.len() <= s.len() {
        assert(forall|k: int| 0 <= k < p.len() ==> #[trigger] found[k] == s[i + k]);
        if forall|k: int| 0 <= k < p.len() ==> s[i + k] == #[trigger] p[k] {
            assert(found =~= p);
        }
    }
    if absent(s, p) {
        assert forall|j: int| 0 <= j <= s.len() - p.len() implies #[trigger] s.subrange(
            j,
            j + p.len(),
        ) != p by {
            assert(!occurs_at(s, p, j));
        }
    }
}

/// The decimal text of a number reads back as the number: it is made of digits, without a leading
/// zero unless it is a single digit, and taking ten times the value and the next digit from left to
/// right gives the number.
pub proof fn law_decimal_reads_back(n: nat)
    ensures
        decimal_chars(n).len() >= 1,
        forall|i: int|
            0 <= i < decimal_chars(n).len() ==> '0' <= #[trigger] decimal_chars(n)[i] <= '9',
        decimal_chars(n).len() > 1 ==> decimal_chars(n)[0] != '0',
        decimal_chars(n).len() > 1 <==> n >= 10,
        decimal_chars(n).fold_left(0int, |v: int, c: char| 10 * v + (c as int - '0' as int)) == n,
    decreases n,
{
    let s = decimal_chars(n);
    if n >= 10 {
        law_decimal_reads_back(n / 10);
        assert(s.drop_last() =~= decimal_chars(n / 10));
        if n < 100 {
            assert(decimal_chars(n / 10) == seq![digit_char((n / 10) as int)]);
        }
    } else {
        reveal_with_fuel(Seq::fold_left, 2);
        assert(s.drop_last() =~= Seq::<char>::empty());
    }
}

/// No bytes are written as an empty list, one as its number in brackets, and each further one behind
/// a comma and a space in front of the closing bracket.
pub proof fn law_byte_list_grows_at_its_end(bytes: Seq<u8>, b: u8)
    ensures
        byte_list_chars(Seq::<u8>::empty()) == "[]"@,
        byte_list_chars(seq![b]) == "["@ + decimal_chars(b as nat) + "]"@,
        bytes.len() > 0 ==> byte_list_chars(bytes.push(b)) == byte_list_chars(bytes).drop_last()
            + ", "@ + decimal_chars(b as nat) + "]"@,
{
    reveal_strlit("[]");
    reveal_strlit("[");
    reveal_strlit("]");
    reveal_strlit(", ");
    assert(byte_list_chars(Seq::<u8>::empty()) =~= "[]"@);
    assert(byte_list_chars(seq![b]) =~= "["@ + decimal_chars(b as nat) + "]"@);
    if bytes.len() > 0 {
        assert(bytes.push(b).drop_last() =~= bytes);
        assert(byte_list_chars(bytes.push(b)) =~= byte_list_chars(bytes).drop_last() + ", "@
            + decimal_chars(b as nat) + "]"@);
    }
}

/// What a reader of lists has seen: the numbers that are complete, and the one under way.
spec fn list_step(seen: (Seq<int>, int), c: char) -> (Seq<int>, int) {
    if '0' <= c <= '9' {
        (seen.0, 10 * seen.1 + (c as int - '0' as int))
    } else if c == ',' || c == ']' {
        (seen.0.push(seen.1), 0)
    } else {
        seen
    }
}

/// The number under way after the digits of a decimal text.
proof fn lemma_list_step_over_decimal(done: Seq<int>, n: nat)
    ensures
        decimal_chars(n).fold_left(
            (done, 0int),
            |seen: (Seq<int>, int), c: char| list_step(seen, c),
        ) == (done, n as int),
    decreases n,
{
    let s = decimal_chars(n);
    if n >= 10 {
        lemma_list_step_over_decimal(done, n / 10);
        assert(s.drop_last() =~= decimal_chars(n / 10));
    } else {
        reveal_with_fuel(Seq::fold_left, 2);
        assert(s.drop_last() =~= Seq::<char>::empty());
    }
}

/// What a text gives when it is read in two parts.
proof fn lemma_fold_parts<B>(a: Seq<char>, b: Seq<char>, start: B, f: spec_fn(B, char) -> B)
    ensures
        (a + b).fold_left(start, f) == b.fold_left(a.fold_left(start, f), f),
    decreases b.len(),
{
    if b.len() == 0 {
        assert(a + b =~= a);
    } else {
        assert((a + b).drop_last() =~= a + b.drop_last());
        lemma_fold_parts(a, b.drop_last(), start, f);
    }
}

proof fn lemma_joined_reads_back(bytes: Seq<u8>)
    requires
        bytes.len() > 0,
    ensures
        (seq!['['] + joined(bytes)).fold_left(
            (Seq::<int>::empty(), 0int),
            |seen: (Seq<int>, int), c: char| list_step(seen, c),
        ) == (bytes.drop_last().map_values(|b: u8| b as int), bytes.last() as int),
    decreases bytes.len(),
{
    let f = |seen: (Seq<int>, int), c: char| list_step(seen, c);
    let start = (Seq::<int>::empty(), 0int);
    let front = bytes.drop_last();
    if bytes.len() == 1 {
        lemma_fold_parts(seq!['['], joined(bytes), start, f);
        reveal_with_fuel(Seq::fold_left, 2);
        assert(seq!['['].drop_last() =~= Seq::<char>::empty());
        assert(seq!['['].fold_left(start, f) == start);
        lemma_list_step_over_decimal(Seq::<int>::empty(), bytes[0] as nat);
        assert(front.map_values(|b: u8| b as int) =~= Seq::<int>::empty());
    } else {
        lemma_joined_reads_back(front);
        let done = front.map_values(|b: u8| b as int);
        let a = seq!['['] + joined(front);
        let mid = seq![',', ' '];
        let number = decimal_chars(bytes.last() as nat);
        assert(seq!['['] + joined(bytes) =~= (a + mid) + number);
        lemma_fold_parts(a + mid, number, start, f);
        lemma_fold_parts(a, mid, start, f);
        let seen = a.fold_left(start, f);
        assert(mid.drop_last() =~= seq![',']);
        assert(seq![','].drop_last() =~= Seq::<char>::empty());
        reveal_with_fuel(Seq::fold_left, 3);
        assert(mid.fold_left(seen, f) == (seen.0.push(seen.1), 0int));
        assert(seen.0.push(seen.1) =~= done);
        lemma_list_step_over_decimal(done, bytes.last() as nat);
    }
}

/// The list that is written for bytes reads back as the bytes: it opens with a bracket, and a reader
/// that takes digits together and a comma or the closing bracket as the end of a number gets them
/// in their order.
pub proof fn law_byte_list_reads_back(bytes: Seq<u8>)
    requires
        bytes.len() > 0,
    ensures
        byte_list_chars(bytes)[0] == '[',
        byte_list_chars(bytes).last() == ']',
        byte_list_chars(bytes).fold_left(
            (Seq::<int>::empty(), 0int),
            |seen: (Seq<int>, int), c: char|
                if '0' <= c <= '9' {
                    (seen.0, 10 * seen.1 + (c as int - '0' as int))
                } else if c == ',' || c == ']' {
                    (seen.0.push(seen.1), 0)
                } else {
                    seen
                },
        ).0 == bytes.map_values(|b: u8| b as int),
{
    let f = |seen: (Seq<int>, int), c: char| list_step(seen, c);
    let g = |seen: (Seq<int>, int), c: char|
        if '0' <= c <= '9' {
            (seen.0, 10 * seen.1 + (c as int - '0' as int))
        } else if c == ',' || c == ']' {
            (seen.0.push(seen.1), 0)
        } else {
            seen
        };
    assert(f =~= g);
    let s = byte_list_chars(bytes);
    lemma_joined_reads_back(bytes);
    assert(s.drop_last() =~= seq!['['] + joined(bytes));
    assert(bytes.map_values(|b: u8| b as int) =~= bytes.drop_last().map_values(
        |b: u8| b as int,
    ).push(bytes.last() as int));
}

/// The recursion circuit has the committee hash filled in first, and the slot into what that leaves;
/// the wrapper circuit has the key filled in between quotes.
pub proof fn law_sources_are_filled_in_order(
    blueprint: Seq<char>,
    committee_hash: Seq<u8>,
    trusted_head: u64,
    recursive_vk: Seq<char>,
)
    ensures
        recursion_source(blueprint, committee_hash, trusted_head) == replaced(
            replaced(blueprint, "{ committee_hash }"@, byte_list_chars(committee_hash)),
            "{ trusted_head }"@,
            decimal_chars(trusted_head as nat),
        ),
        wrapper_source(blueprint, recursive_vk) == replaced(
            blueprint,
            "{ recursive_vk }"@,
            "\""@ + recursive_vk + "\""@,
        ),
{
    reveal_strlit("\"");
    assert("\""@ =~= seq!['"']);
}

} // verus!
