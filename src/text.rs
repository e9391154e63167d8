//! Character-level helpers shared by the trace log reader and writer:
//! conversions between strings and character vectors, and decimal numbers.
use vstd::prelude::*;

verus! {

/// Relies on `str::chars` collected into a `Vec`: the characters of `s`, in order.
#[verifier::external_body]
pub(crate) fn chars_of(s: &str) -> (r: Vec<char>)
    ensures
        r@ == s@,
{
    s.chars().collect()
}

/// Relies on `String::push`: appends one character.
#[verifier::external_body]
pub(crate) fn push_char(s: &mut String, c: char)
    ensures
        final(s)@ == old(s)@.push(c),
{
    s.push(c)
}

/// Appends `src` to `dst`.
pub(crate) fn push_str(dst: &mut String, src: &str)
    ensures
        final(dst)@ == old(dst)@ + src@,
{
    dst.append(src);
}

/// Appends the characters `v[from..to]` to `dst`.
pub(crate) fn push_chars(dst: &mut String, v: &Vec<char>, from: usize, to: usize)
    requires
        from <= to <= v@.len(),
    ensures
        final(dst)@ == old(dst)@ + v@.subrange(from as int, to as int),
{
    let mut i = from;
    while i < to
        invariant
            from <= i <= to <= v@.len(),
            dst@ == old(dst)@ + v@.subrange(from as int, i as int),
        decreases to - i,
    {
        push_char(dst, v[i]);
        i = i + 1;
        assert(v@.subrange(from as int, i as int) == v@.subrange(from as int, i - 1).push(v@[i - 1]));
    }
}

pub open spec fn is_digit(c: char) -> bool {
    '0' <= c && c <= '9'
}

pub open spec fn digit_value(c: char) -> nat {
    (c as nat - '0' as nat) as nat
}

pub open spec fn digit_char(d: nat) -> char {
    (d + '0' as nat) as char
}

/// Whether every character of `s` is an ASCII decimal digit.
pub open spec fn all_digits(s: Seq<char>) -> bool {
    forall|i: int| 0 <= i < s.len() ==> is_digit(#[trigger] s[i])
}

/// The number that the decimal digits `s` spell, most significant first.
pub open spec fn digits_value(s: Seq<char>) -> nat
    decreases s.len(),
{
    if s.len() == 0 {
        0
    } else {
        digits_value(s.drop_last()) * 10 + digit_value(s.last())
    }
}

/// The shortest decimal spelling of `n`.
pub open spec fn decimal(n: nat) -> Seq<char>
    decreases n,
{
    if n < 10 {
        seq![digit_char(n)]
    } else {
        decimal(n / 10).push(digit_char(n % 10))
    }
}

/// A plain decimal number that fits in a `u32`: one or more ASCII digits, nothing else.
pub open spec fn parse_u32_spec(s: Seq<char>) -> Option<u32> {
    if s.len() > 0 && all_digits(s) && digits_value(s) <= u32::MAX {
        Some(digits_value(s) as u32)
    } else {
        None
    }
}

/// The decimal spelling of a number is one or more digits, and reads back as the number.
pub proof fn lemma_decimal_reads_back(n: nat)
    ensures
        decimal(n).len() >= 1,
        all_digits(decimal(n)),
        digits_value(decimal(n)) == n,
    decreases n,
{
    if n < 10 {
        assert(digit_value(digit_char(n)) == n);
        assert(decimal(n).drop_last() =~= Seq::<char>::empty());
        assert(decimal(n).last() == digit_char(n));
        assert(digits_value(decimal(n)) == digits_value(Seq::<char>::empty()) * 10 + n);
    } else {
        lemma_decimal_reads_back(n / 10);
        let d = decimal(n);
        assert(d.drop_last() == decimal(n / 10));
        assert(digit_value(digit_char(n % 10)) == n % 10);
        assert(d.last() == digit_char(n % 10));
        vstd::arithmetic::div_mod::lemma_fundamental_div_mod(n as int, 10);
        assert(digits_value(d) == digits_value(decimal(n / 10)) * 10 + n % 10);
        assert forall|i: int| 0 <= i < d.len() implies is_digit(#[trigger] d[i]) by {
            if i < d.len() - 1 {
                assert(d[i] == decimal(n / 10)[i]);
            }
        }
    }
}

/// Adding digits at the end never makes the value smaller.
pub proof fn lemma_digits_value_grows(s: Seq<char>, j: int, k: int)
    requires
        0 <= j <= k <= s.len(),
        all_digits(s),
    ensures
        digits_value(s.subrange(0, j)) <= digits_value(s.subrange(0, k)),
    decreases k - j,
{
    if j < k {
        lemma_digits_value_grows(s, j, k - 1);
        assert(s.subrange(0, k).drop_last() == s.subrange(0, k - 1));
    }
}

/// Reads `v[from..to]` as a plain decimal number.
pub(crate) fn parse_digits(v: &Vec<char>, from: usize, to: usize) -> (r: Option<u32>)
    requires
        from <= to <= v@.len(),
    ensures
        r == parse_u32_spec(v@.subrange(from as int, to as int)),
{
    let ghost s = v@.subrange(from as int, to as int);
    if from == to {
        return None;
    }
    let mut i = from;
    let mut acc: u64 = 0;
    while i < to
        invariant
            from <= i <= to <= v@.len(),
            s == v@.subrange(from as int, to as int),
            all_digits(s.subrange(0, i - from)),
            acc == digits_value(s.subrange(0, i - from)),
            acc <= u32::MAX,
        decreases to - i,
    {
        let c = v[i];
        if !('0' <= c && c <= '9') {
            assert(s[i - from] == c);
            return None;
        }
        let d = (c as u32 - '0' as u32) as u64;
        let next = acc * 10 + d;
        proof {
            let t = s.subrange(0, i + 1 - from);
            assert(t.drop_last() == s.subrange(0, i - from));
            assert(t.last() == c);
            assert(all_digits(t)) by {
                assert forall|k: int| 0 <= k < t.len() implies is_digit(#[trigger] t[k]) by {
                    if k < t.len() - 1 {
                        assert(t[k] == s.subrange(0, i - from)[k]);
                    }
                }
            }
        }
        if next > u32::MAX as u64 {
            proof {
                let t = s.subrange(0, i + 1 - from);
                if all_digits(s) {
                    lemma_digits_value_grows(s, i + 1 - from, s.len() as int);
                    assert(s.subrange(0, s.len() as int) == s);
                }
            }
            return None;
        }
        acc = next;
        i = i + 1;
    }
    assert(s.subrange(0, to - from) == s);
    Some(acc as u32)
}

/// Appends the decimal spelling of `n` to `dst`.
pub(crate) fn push_decimal(dst: &mut String, n: u64)
    ensures
        final(dst)@ == old(dst)@ + decimal(n as nat),
{
    // digits are produced least significant first; `tail` is their reverse
    let mut digits: Vec<char> = Vec::new();
    let mut m = n / 10;
    let c = ((n % 10) as u8 + 48u8) as char;
    digits.push(c);
    let ghost mut tail: Seq<char> = seq![c];
    assert(c == digit_char((n % 10) as nat));
    while m > 0
        invariant
            m > 0 ==> decimal(n as nat) == decimal(m as nat) + tail,
            m == 0 ==> decimal(n as nat) == tail,
            tail.len() == digits@.len(),
            forall|i: int| 0 <= i < tail.len() ==> tail[i] == digits@[digits@.len() - 1 - i],
        decreases m,
    {
        let c = ((m % 10) as u8 + 48u8) as char;
        assert(c == digit_char((m % 10) as nat));
        proof {
            if m >= 10 {
                assert(decimal(m as nat) == decimal((m / 10) as nat).push(c));
                assert(decimal((m / 10) as nat) + (seq![c] + tail) == decimal((m / 10) as nat).push(c) + tail);
            } else {
                assert(decimal(m as nat) == seq![c]);
            }
        }
        digits.push(c);
        proof {
            tail = seq![c] + tail;
        }
        m = m / 10;
    }
    let mut k = digits.len();
    let ghost start = dst@;
    while k > 0
        invariant
            k <= digits@.len(),
            tail.len() == digits@.len(),
            forall|i: int| 0 <= i < tail.len() ==> tail[i] == digits@[digits@.len() - 1 - i],
            dst@ == start + tail.subrange(0, digits@.len() - k),
        decreases k,
    {
        k = k - 1;
        push_char(dst, digits[k]);
        assert(tail.subrange(0, digits@.len() - k) == tail.subrange(0, digits@.len() - k - 1).push(digits@[k as int]));
    }
    assert(tail.subrange(0, digits@.len() as int) == tail);
}

} // verus!
