//! Decimal numbers as text: reading one, and writing one.

use vstd::prelude::*;
use crate::text::chars::{
    char_digit_value, char_is_digit, char_of_digit, digit_char, digit_value, is_digit,
};

verus! {

/// Every character of `s` is a decimal digit.
pub open spec fn all_digits(s: Seq<char>) -> bool {
    forall|i: int| 0 <= i < s.len() ==> is_digit(#[trigger] s[i])
}

/// The number that the digits of `s` write in base ten.
pub open spec fn decimal_value(s: Seq<char>) -> nat
    decreases s.len(),
{
    if s.len() == 0 {
        0
    } else {
        decimal_value(s.drop_last()) * 10 + digit_value(s.last())
    }
}

/// The digits of an unsigned number: `s` itself, or what follows one leading
/// plus sign that has something after it.
pub open spec fn unsigned_digits(s: Seq<char>) -> Seq<char> {
    if s.len() > 1 && s[0] == '+' {
        s.skip(1)
    } else {
        s
    }
}

/// The `u32` that `s` writes: at least one decimal digit, after at most one
/// plus sign, with a value that a `u32` holds. Anything else writes none.
pub open spec fn parse_u32(s: Seq<char>) -> Option<u32> {
    let digits = unsigned_digits(s);
    if digits.len() > 0 && all_digits(digits) && decimal_value(digits) <= u32::MAX {
        Some(decimal_value(digits) as u32)
    } else {
        None
    }
}

/// `n` in base ten, without leading zeros.
pub open spec fn decimal(n: nat) -> Seq<char>
    decreases n,
{
    if n < 10 {
        seq![digit_char(n)]
    } else {
        decimal(n / 10).push(digit_char(n % 10))
    }
}

/// `n` in base ten, with a leading zero where it has a single digit.
pub open spec fn two_digits(n: nat) -> Seq<char> {
    if n < 10 {
        seq!['0', digit_char(n)]
    } else {
        decimal(n)
    }
}

/// `n` in base ten, with a minus sign where it is below zero.
pub open spec fn signed_decimal(n: int) -> Seq<char> {
    if n < 0 {
        seq!['-'] + decimal((-n) as nat)
    } else {
        decimal(n as nat)
    }
}

/// What writes a `u32` holds nothing but digits and a plus sign.
pub proof fn lemma_parsed_holds_digits(s: Seq<char>, c: char)
    requires
        parse_u32(s) is Some,
        !is_digit(c),
        c != '+',
    ensures
        forall|i: int| 0 <= i < s.len() ==> s[i] != c,
{
    let digits = unsigned_digits(s);
    assert forall|i: int| 0 <= i < s.len() implies s[i] != c by {
        if digits.len() == s.len() {
            assert(is_digit(digits[i]));
        } else if i > 0 {
            assert(is_digit(digits[i - 1]));
        }
    }
}

/// A number never gets smaller when digits are written behind it.
pub proof fn lemma_decimal_value_grows(s: Seq<char>, k: int)
    requires
        0 <= k <= s.len(),
    ensures
        decimal_value(s.take(k)) <= decimal_value(s),
    decreases s.len() - k,
{
    if k < s.len() {
        lemma_decimal_value_grows(s, k + 1);
        assert(s.take(k + 1).drop_last() == s.take(k));
    } else {
        assert(s.take(k) == s);
    }
}

/// What `decimal` writes is read back as the same number.
pub proof fn lemma_decimal_round_trip(n: nat)
    ensures
        decimal(n).len() > 0,
        all_digits(decimal(n)),
        decimal_value(decimal(n)) == n,
        decimal(n)[0] != '+',
    decreases n,
{
    if n < 10 {
        let s = seq![digit_char(n)];
        assert(s.drop_last() == Seq::<char>::empty());
        assert(decimal_value(s.drop_last()) == 0);
    } else {
        lemma_decimal_round_trip(n / 10);
        let s = decimal(n);
        assert(s.drop_last() == decimal(n / 10));
        assert(s[0] == decimal(n / 10)[0]);
    }
}

/// The value of two digits.
pub proof fn lemma_decimal_value_of_two(a: char, b: char)
    ensures
        decimal_value(seq![a, b]) == digit_value(a) * 10 + digit_value(b),
{
    let s = seq![a, b];
    assert(s.drop_last() == seq![a]);
    assert(seq![a].drop_last() == Seq::<char>::empty());
    reveal_with_fuel(decimal_value, 3);
}

/// Two digits that `two_digits` would write are what it writes for their value.
pub proof fn lemma_two_digits_round_trip(a: char, b: char)
    requires
        is_digit(a),
        is_digit(b),
    ensures
        two_digits(decimal_value(seq![a, b])) == seq![a, b],
{
    lemma_decimal_value_of_two(a, b);
    let n = decimal_value(seq![a, b]);
    if n < 10 {
        assert(digit_value(a) == 0);
        assert(two_digits(n) =~= seq![a, b]);
    } else {
        assert(n / 10 == digit_value(a) && n % 10 == digit_value(b));
        assert(decimal(n / 10) == seq![digit_char(n / 10)]);
        assert(two_digits(n) =~= seq![a, b]);
    }
}

/// Reads a `u32` from `chars[from..to]`.
pub fn read_u32(chars: &[char], from: usize, to: usize) -> (r: Option<u32>)
    requires
        from <= to <= chars@.len(),
    ensures
        r == parse_u32(chars@.subrange(from as int, to as int)),
{
    let ghost s = chars@.subrange(from as int, to as int);
    let start: usize = if to - from > 1 && chars[from] == '+' {
        from + 1
    } else {
        from
    };
    let ghost digits = unsigned_digits(s);
    assert(digits == chars@.subrange(start as int, to as int));
    if start == to {
        return None;
    }
    let mut value: u64 = 0;
    let mut i: usize = start;
    while i < to
        invariant
            from <= start <= i <= to <= chars@.len(),
            s == chars@.subrange(from as int, to as int),
            digits == unsigned_digits(s),
            digits == chars@.subrange(start as int, to as int),
            all_digits(digits.take(i - start)),
            value == decimal_value(digits.take(i - start)),
            value <= u32::MAX,
        decreases to - i,
    {
        let c = chars[i];
        assert(c == digits[i - start]);
        if !char_is_digit(c) {
            return None;
        }
        let ghost read = digits.take(i - start + 1);
        assert(read.drop_last() == digits.take(i - start));
        assert(read.last() == c);
        value = value * 10 + char_digit_value(c) as u64;
        assert(all_digits(read)) by {
            assert forall|j: int| 0 <= j < read.len() implies is_digit(#[trigger] read[j]) by {
                if j < read.len() - 1 {
                    assert(read[j] == digits.take(i - start)[j]);
                }
            }
        }
        if value > u32::MAX as u64 {
            proof {
                lemma_decimal_value_grows(digits, i - start + 1);
            }
            return None;
        }
        i += 1;
    }
    assert(digits.take(to - start) == digits);
    Some(value as u32)
}

/// Writes `n` in base ten behind what `out` holds.
pub fn push_decimal(out: &mut Vec<char>, n: u64)
    ensures
        final(out)@ == old(out)@ + decimal(n as nat),
    decreases n,
{
    if n >= 10 {
        push_decimal(out, n / 10);
    }
    out.push(char_of_digit((n % 10) as u8));
}

/// Writes `n` in base ten behind what `out` holds, with a leading zero where
/// it has a single digit.
pub fn push_two_digits(out: &mut Vec<char>, n: u64)
    ensures
        final(out)@ == old(out)@ + two_digits(n as nat),
{
    if n < 10 {
        out.push('0');
        out.push(char_of_digit(n as u8));
    } else {
        push_decimal(out, n);
    }
}

/// Writes `n` in base ten behind what `out` holds, with its sign where it is
/// below zero.
pub fn push_signed_decimal(out: &mut Vec<char>, n: i32)
    ensures
        final(out)@ == old(out)@ + signed_decimal(n as int),
{
    let wide: i64 = n as i64;
    if wide < 0 {
        out.push('-');
        push_decimal(out, (-wide) as u64);
    } else {
        push_decimal(out, wide as u64);
    }
}

} // verus!
