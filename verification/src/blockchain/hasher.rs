//! Text encoding of numbers, the SHA-256 digest and the proof-of-work test.

use vstd::prelude::*;

verus! {

/// The lower-case hexadecimal SHA-256 digest of `data`.
pub uninterp spec fn sha256_hex(data: Seq<u8>) -> Seq<char>;

/// Calls `crypto_hash::hex_digest` with `Algorithm::SHA256` on `data`.
///
/// Trusted: the returned string is the hexadecimal SHA-256 digest of exactly the
/// bytes passed in, and so depends on nothing but those bytes.
#[verifier::external_body]
pub(crate) fn sha256_hex_digest(data: &[u8]) -> (digest: String)
    ensures
        digest@ == sha256_hex(data@),
{
    crypto_hash::hex_digest(crypto_hash::Algorithm::SHA256, data)
}

/// The character that writes the digit `d`.
pub open spec fn digit_char(d: nat) -> char {
    if d == 0 {
        '0'
    } else if d == 1 {
        '1'
    } else if d == 2 {
        '2'
    } else if d == 3 {
        '3'
    } else if d == 4 {
        '4'
    } else if d == 5 {
        '5'
    } else if d == 6 {
        '6'
    } else if d == 7 {
        '7'
    } else if d == 8 {
        '8'
    } else {
        '9'
    }
}

/// The decimal numeral of `n`, most significant digit first, without leading zeros.
pub open spec fn decimal_text(n: nat) -> Seq<char>
    decreases n,
{
    if n < 10 {
        seq![digit_char(n)]
    } else {
        decimal_text(n / 10).push(digit_char(n % 10))
    }
}

/// A numeral has at least one digit, and at least two from ten on.
pub proof fn lemma_decimal_text_length(n: nat)
    ensures
        decimal_text(n).len() >= 1,
        n >= 10 ==> decimal_text(n).len() >= 2,
    decreases n,
{
    if n >= 10 {
        lemma_decimal_text_length(n / 10);
    }
}

/// Different numbers have different numerals.
pub proof fn lemma_decimal_text_injective(a: nat, b: nat)
    requires
        decimal_text(a) == decimal_text(b),
    ensures
        a == b,
    decreases a,
{
    lemma_decimal_text_length(a);
    lemma_decimal_text_length(b);
    if a < 10 && b < 10 {
        assert(decimal_text(a)[0] == digit_char(a));
        assert(decimal_text(b)[0] == digit_char(b));
    } else if a >= 10 && b >= 10 {
        let head_a = decimal_text(a / 10);
        let head_b = decimal_text(b / 10);
        assert(head_a.push(digit_char(a % 10)).drop_last() =~= head_a);
        assert(head_b.push(digit_char(b % 10)).drop_last() =~= head_b);
        assert(head_a.push(digit_char(a % 10)).last() == digit_char(a % 10));
        assert(head_b.push(digit_char(b % 10)).last() == digit_char(b % 10));
        lemma_decimal_text_injective(a / 10, b / 10);
    }
}

/// Texts that differ still differ behind a common beginning.
pub proof fn lemma_common_prefix(prefix: Seq<char>, s: Seq<char>, t: Seq<char>)
    requires
        prefix + s == prefix + t,
    ensures
        s == t,
{
    assert((prefix + s).subrange(prefix.len() as int, (prefix + s).len() as int) =~= s);
    assert((prefix + t).subrange(prefix.len() as int, (prefix + t).len() as int) =~= t);
}

/// Texts that differ still differ before a common end.
pub proof fn lemma_common_suffix(s: Seq<char>, t: Seq<char>, suffix: Seq<char>)
    requires
        s + suffix == t + suffix,
    ensures
        s == t,
{
    assert((s + suffix).len() == s.len() + suffix.len());
    assert((t + suffix).len() == t.len() + suffix.len());
    assert((s + suffix).subrange(0, s.len() as int) =~= s);
    assert((t + suffix).subrange(0, t.len() as int) =~= t);
}

/// The one-character string that writes the digit `d`.
fn digit_str(d: u64) -> (s: &'static str)
    requires
        d < 10,
    ensures
        s@ == seq![digit_char(d as nat)],
{
    proof {
        reveal_strlit("0");
        reveal_strlit("1");
        reveal_strlit("2");
        reveal_strlit("3");
        reveal_strlit("4");
        reveal_strlit("5");
        reveal_strlit("6");
        reveal_strlit("7");
        reveal_strlit("8");
        reveal_strlit("9");
    }
    let s: &'static str = if d == 0 {
        "0"
    } else if d == 1 {
        "1"
    } else if d == 2 {
        "2"
    } else if d == 3 {
        "3"
    } else if d == 4 {
        "4"
    } else if d == 5 {
        "5"
    } else if d == 6 {
        "6"
    } else if d == 7 {
        "7"
    } else if d == 8 {
        "8"
    } else {
        "9"
    };
    assert(s@ =~= seq![digit_char(d as nat)]);
    s
}

/// Appends the decimal numeral of `n` to `text`.
pub fn push_decimal(text: &mut String, n: u64)
    ensures
        final(text)@ == old(text)@ + decimal_text(n as nat),
    decreases n,
{
    if n >= 10 {
        push_decimal(text, n / 10);
    }
    text.append(digit_str(n % 10));
    assert(final(text)@ =~= old(text)@ + decimal_text(n as nat));
}

/// Whether `hash` starts with `difficulty` characters `'0'`.
///
/// A text shorter than `difficulty` does not.
pub open spec fn leading_zeros(hash: Seq<char>, difficulty: nat) -> bool {
    &&& difficulty <= hash.len()
    &&& forall|i: int| 0 <= i < difficulty ==> hash[i] == '0'
}

/// Tests whether `hash` meets the proof-of-work target `difficulty`.
pub fn has_leading_zeros(hash: &str, difficulty: usize) -> (met: bool)
    ensures
        met == leading_zeros(hash@, difficulty as nat),
{
    let len: usize = hash.unicode_len();
    if len < difficulty {
        return false;
    }
    let mut i: usize = 0;
    while i < difficulty
        invariant
            i <= difficulty <= len,
            len == hash@.len(),
            forall|j: int| 0 <= j < i ==> hash@[j] == '0',
        decreases difficulty - i,
    {
        if hash.get_char(i) != '0' {
            return false;
        }
        i += 1;
    }
    true
}

} // verus!
