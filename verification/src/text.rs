//! Text helpers: building strings, decimal numerals and char comparisons.

use vstd::prelude::*;
use vstd::string::*;

verus! {

/// The ASCII digit for a value below ten.
pub open spec fn digit_char(d: nat) -> char {
    if d == 0 { '0' }
    else if d == 1 { '1' }
    else if d == 2 { '2' }
    else if d == 3 { '3' }
    else if d == 4 { '4' }
    else if d == 5 { '5' }
    else if d == 6 { '6' }
    else if d == 7 { '7' }
    else if d == 8 { '8' }
    else { '9' }
}

/// The decimal numeral of a natural number, without leading zeros.
pub open spec fn decimal(n: nat) -> Seq<char>
    decreases n,
{
    if n < 10 {
        seq![digit_char(n)]
    } else {
        decimal(n / 10).push(digit_char(n % 10))
    }
}

/// The chars of a decimal numeral are digits.
pub proof fn lemma_decimal_digits(n: nat)
    ensures
        decimal(n).len() >= 1,
        forall|j: int| 0 <= j < decimal(n).len() ==> '0' <= #[trigger] decimal(n)[j] && decimal(n)[j] <= '9',
    decreases n,
{
    if n >= 10 {
        lemma_decimal_digits(n / 10);
    }
}

/// The decimal numeral of an integer, with a leading `-` when negative.
pub open spec fn decimal_int(n: int) -> Seq<char> {
    if n < 0 {
        seq!['-'] + decimal((-n) as nat)
    } else {
        decimal(n as nat)
    }
}

/// The number of decimal digits of a natural number.
pub open spec fn num_digits(n: nat) -> nat
    decreases n,
{
    if n < 10 { 1 } else { 1 + num_digits(n / 10) }
}

/// A sequence of `n` copies of `c`.
pub open spec fn repeat_char(c: char, n: nat) -> Seq<char> {
    Seq::new(n, |_i: int| c)
}

/// Appends a char to a string.
///
/// Trusted: calls `String::push`, which appends the char to the end of the
/// string, as std documents.
#[verifier::external_body]
pub(crate) fn push_char(s: &mut String, c: char)
    ensures
        final(s)@ == old(s)@.push(c),
{
    s.push(c)
}

/// Appends a string slice to a string.
pub fn push_str(s: &mut String, t: &str)
    ensures
        final(s)@ == old(s)@ + t@,
{
    s.append(t);
}

/// Appends a sequence of chars to a string.
pub fn push_chars(s: &mut String, cs: &[char])
    ensures
        final(s)@ == old(s)@ + cs@,
{
    let ghost s0 = s@;
    let mut i: usize = 0;
    while i < cs.len()
        invariant
            i <= cs@.len(),
            s@ == s0 + cs@.subrange(0, i as int),
        decreases cs@.len() - i,
    {
        push_char(s, cs[i]);
        proof {
            assert(cs@.subrange(0, i + 1) == cs@.subrange(0, i as int).push(cs@[i as int]));
        }
        i = i + 1;
    }
    proof {
        assert(cs@.subrange(0, cs@.len() as int) == cs@);
    }
}

/// Builds a string from a sequence of chars.
pub fn string_from_chars(cs: &[char]) -> (s: String)
    ensures
        s@ == cs@,
{
    let mut s = String::new();
    push_chars(&mut s, cs);
    s
}

/// Appends `n` copies of a char.
pub fn push_repeat(s: &mut String, c: char, n: usize)
    ensures
        final(s)@ == old(s)@ + repeat_char(c, n as nat),
{
    let ghost s0 = s@;
    let mut i: usize = 0;
    while i < n
        invariant
            i <= n,
            s@ == s0 + repeat_char(c, i as nat),
        decreases n - i,
    {
        push_char(s, c);
        proof {
            assert(repeat_char(c, (i + 1) as nat) == repeat_char(c, i as nat).push(c));
        }
        i = i + 1;
    }
}

/// The ASCII digit for a value below ten.
pub fn digit(d: u64) -> (c: char)
    requires
        d < 10,
    ensures
        c == digit_char(d as nat),
{
    if d == 0 { '0' }
    else if d == 1 { '1' }
    else if d == 2 { '2' }
    else if d == 3 { '3' }
    else if d == 4 { '4' }
    else if d == 5 { '5' }
    else if d == 6 { '6' }
    else if d == 7 { '7' }
    else if d == 8 { '8' }
    else { '9' }
}

/// Appends the decimal numeral of `n`.
pub fn push_decimal(s: &mut String, n: u64)
    ensures
        final(s)@ == old(s)@ + decimal(n as nat),
    decreases n,
{
    if n < 10 {
        push_char(s, digit(n));
    } else {
        push_decimal(s, n / 10);
        push_char(s, digit(n % 10));
        proof {
            let a = old(s)@;
            assert(a + decimal((n / 10) as nat).push(digit_char((n % 10) as nat))
                == (a + decimal((n / 10) as nat)).push(digit_char((n % 10) as nat)));
        }
    }
}

/// Appends the decimal numeral of a signed integer.
pub fn push_decimal_i64(s: &mut String, n: i64)
    ensures
        final(s)@ == old(s)@ + decimal_int(n as int),
{
    if n < 0 {
        push_char(s, '-');
        let m: u64 = if n == i64::MIN { 9223372036854775808u64 } else { (-n) as u64 };
        push_decimal(s, m);
        proof {
            assert(old(s)@.push('-') + decimal(m as nat) == old(s)@ + (seq!['-'] + decimal(m as nat)));
        }
    } else {
        push_decimal(s, n as u64);
    }
}

/// The decimal numeral of `n` as a string.
pub fn decimal_string(n: u64) -> (s: String)
    ensures
        s@ == decimal(n as nat),
{
    let mut s = String::new();
    push_decimal(&mut s, n);
    s
}

/// The number of decimal digits of `n`.
pub fn count_digits(n: u64) -> (d: u32)
    ensures
        d as nat == num_digits(n as nat),
        1 <= d <= 20,
    decreases n,
{
    proof {
        assert(pow10(20) == 100000000000000000000) by { reveal_with_fuel(pow10, 21); }
        lemma_num_digits_small(n as nat, 20);
    }
    if n < 10 {
        1
    } else {
        1 + count_digits(n / 10)
    }
}

proof fn lemma_num_digits_small(n: nat, k: nat)
    requires
        n < pow10(k),
        k >= 1,
    ensures
        num_digits(n) <= k,
    decreases n,
{
    if n >= 10 {
        assert(k >= 2) by {
            if k == 1 { assert(pow10(1) == 10) by { reveal_with_fuel(pow10, 2); } }
        }
        assert(pow10(k) == 10 * pow10((k - 1) as nat));
        assert(n / 10 < pow10((k - 1) as nat)) by (nonlinear_arith)
            requires n < pow10(k), pow10(k) == 10 * pow10((k - 1) as nat);
        lemma_num_digits_small(n / 10, (k - 1) as nat);
    }
}

/// Ten to the power `k`.
pub open spec fn pow10(k: nat) -> nat
    decreases k,
{
    if k == 0 { 1 } else { 10 * pow10((k - 1) as nat) }
}

/// Returns whether a sequence of chars spells out a string slice.
pub fn chars_eq_str(cs: &[char], lit: &str) -> (r: bool)
    ensures
        r == (cs@ == lit@),
{
    let n = lit.unicode_len();
    if cs.len() != n {
        return false;
    }
    let mut i: usize = 0;
    while i < n
        invariant
            i <= n,
            n == lit@.len(),
            cs@.len() == n,
            forall|j: int| 0 <= j < i ==> cs@[j] == lit@[j],
        decreases n - i,
    {
        if cs[i] != lit.get_char(i) {
            return false;
        }
        i = i + 1;
    }
    proof {
        assert(cs@ =~= lit@);
    }
    true
}

/// Collects the chars of a string slice.
pub fn str_chars(s: &str) -> (cs: Vec<char>)
    ensures
        cs@ == s@,
{
    let n = s.unicode_len();
    let mut cs: Vec<char> = Vec::new();
    let mut i: usize = 0;
    while i < n
        invariant
            i <= n,
            n == s@.len(),
            cs@ == s@.subrange(0, i as int),
        decreases n - i,
    {
        cs.push(s.get_char(i));
        proof {
            assert(s@.subrange(0, i + 1) == s@.subrange(0, i as int).push(s@[i as int]));
        }
        i = i + 1;
    }
    proof {
        assert(s@.subrange(0, n as int) == s@);
    }
    cs
}

/// The number of UTF-8 bytes of a char.
pub open spec fn char_utf8_len(c: char) -> nat {
    if (c as u32) < 0x80u32 {
        1
    } else if (c as u32) < 0x800u32 {
        2
    } else if (c as u32) < 0x10000u32 {
        3
    } else {
        4
    }
}

/// The number of UTF-8 bytes of a text.
pub open spec fn utf8_len(s: Seq<char>) -> nat
    decreases s.len(),
{
    if s.len() == 0 {
        0
    } else {
        utf8_len(s.drop_last()) + char_utf8_len(s.last())
    }
}

/// The UTF-8 length of two texts together is the sum of their lengths.
pub proof fn lemma_utf8_len_add(a: Seq<char>, b: Seq<char>)
    ensures
        utf8_len(a + b) == utf8_len(a) + utf8_len(b),
    decreases b.len(),
{
    if b.len() > 0 {
        lemma_utf8_len_add(a, b.drop_last());
        assert((a + b).drop_last() =~= a + b.drop_last());
        assert((a + b).last() == b.last());
    } else {
        assert(a + b =~= a);
    }
}

/// The UTF-8 encoding of a text is as long as `utf8_len` says.
pub proof fn lemma_encode_utf8_len(cs: Seq<char>)
    ensures
        vstd::utf8::encode_utf8(cs).len() == utf8_len(cs),
    decreases cs.len(),
{
    if cs.len() > 0 {
        let c = cs[0];
        lemma_encode_utf8_len(cs.drop_first());
        assert(cs =~= seq![c] + cs.drop_first());
        lemma_utf8_len_add(seq![c], cs.drop_first());
        reveal_with_fuel(utf8_len, 2);
        assert(seq![c].drop_last() =~= Seq::<char>::empty());
        assert(seq![c].last() == c);
        assert(utf8_len(Seq::<char>::empty()) == 0);
        assert(utf8_len(seq![c]) == char_utf8_len(c));
        let v = c as u32;
        vstd::utf8::char_is_scalar(c);
        assert(vstd::utf8::encode_scalar(v).len() == char_utf8_len(c));
    }
}

/// The number of UTF-8 bytes of a char.
pub fn char_len_utf8(c: char) -> (n: usize)
    ensures
        n == char_utf8_len(c),
        1 <= n <= 4,
{
    if (c as u32) < 0x80u32 {
        1
    } else if (c as u32) < 0x800u32 {
        2
    } else if (c as u32) < 0x10000u32 {
        3
    } else {
        4
    }
}

/// The number of UTF-8 bytes of a string.
pub fn str_byte_len(s: &str) -> (n: usize)
    ensures
        n == utf8_len(s@),
{
    let b = s.as_bytes();
    proof {
        lemma_encode_utf8_len(s@);
    }
    b.len()
}

} // verus!
