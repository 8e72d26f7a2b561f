//! Hexadecimal numbers as they stand in a dump: digits of either case, with
//! hyphens between groups of digits that carry no meaning.

use vstd::prelude::*;
use vstd::arithmetic::power::pow;
use vstd::pervasive::unreached;
use crate::text::chars_of;

verus! {

/// Whether `c` is one of `0`-`9`, `a`-`f`, `A`-`F`.
pub open spec fn is_hex_digit(c: char) -> bool {
    ('0' <= c && c <= '9') || ('a' <= c && c <= 'f') || ('A' <= c && c <= 'F')
}

/// The number a hexadecimal digit stands for.
pub open spec fn hex_digit_value(c: char) -> nat {
    if '0' <= c && c <= '9' {
        (c as int - '0' as int) as nat
    } else if 'a' <= c && c <= 'f' {
        (c as int - 'a' as int + 10) as nat
    } else {
        (c as int - 'A' as int + 10) as nat
    }
}

/// Whether `c` may stand in a number field: a hexadecimal digit or a hyphen.
pub open spec fn is_hex_or_hyphen(c: char) -> bool {
    is_hex_digit(c) || c == '-'
}

/// Whether every character of `s` is a hexadecimal digit.
pub open spec fn all_hex_digits(s: Seq<char>) -> bool {
    forall|i: int| 0 <= i < s.len() ==> is_hex_digit(#[trigger] s[i])
}

/// Whether every character of `s` is a hexadecimal digit or a hyphen.
pub open spec fn all_hex_or_hyphen(s: Seq<char>) -> bool {
    forall|i: int| 0 <= i < s.len() ==> is_hex_or_hyphen(#[trigger] s[i])
}

/// `s` with its hyphens taken out.
pub open spec fn without_hyphens(s: Seq<char>) -> Seq<char> {
    s.filter(|c: char| c != '-')
}

/// The number that a string of hexadecimal digits denotes in base 16, most
/// significant digit first. The empty string denotes 0.
pub open spec fn hex_value(digits: Seq<char>) -> nat
    decreases digits.len(),
{
    if digits.len() == 0 {
        0
    } else {
        16 * hex_value(digits.drop_last()) + hex_digit_value(digits.last())
    }
}

/// What a number field denotes: the base-16 value of its digits once the
/// hyphens are gone, provided the field holds nothing but digits and hyphens,
/// at least one digit, and the value does not exceed `max`.
pub open spec fn hex_number(field: Seq<char>, max: nat) -> Option<nat> {
    if all_hex_or_hyphen(field) && without_hyphens(field).len() > 0 && hex_value(
        without_hyphens(field),
    ) <= max {
        Some(hex_value(without_hyphens(field)))
    } else {
        None
    }
}

/// Taking one more character into a field appends it to the digits unless it
/// is a hyphen.
pub proof fn lemma_without_hyphens_step(s: Seq<char>, i: int)
    requires
        0 <= i < s.len(),
    ensures
        without_hyphens(s.take(i + 1)) == if s[i] != '-' {
            without_hyphens(s.take(i)).push(s[i])
        } else {
            without_hyphens(s.take(i))
        },
{
    reveal(Seq::filter);
    assert(s.take(i + 1).drop_last() =~= s.take(i));
}

/// A field's value never shrinks as more of the field is read.
pub proof fn lemma_hex_value_grows(s: Seq<char>, i: int, j: int)
    requires
        0 <= i <= j <= s.len(),
    ensures
        hex_value(without_hyphens(s.take(i))) <= hex_value(without_hyphens(s.take(j))),
        without_hyphens(s.take(i)).len() <= without_hyphens(s.take(j)).len(),
    decreases j - i,
{
    if i < j {
        lemma_hex_value_grows(s, i, j - 1);
        lemma_without_hyphens_step(s, j - 1);
        let before = without_hyphens(s.take(j - 1));
        if s[j - 1] != '-' {
            assert(before.push(s[j - 1]).drop_last() =~= before);
        }
    }
}

/// A hyphen carries no value: a field with a hyphen anywhere in it denotes
/// what it denotes without that hyphen.
pub proof fn lemma_hyphen_carries_no_value(before: Seq<char>, after: Seq<char>, max: nat)
    ensures
        without_hyphens(before + seq!['-'] + after) == without_hyphens(before + after),
        hex_number(before + seq!['-'] + after, max) == hex_number(before + after, max),
{
    let pred = |c: char| c != '-';
    let with = before + seq!['-'] + after;
    let without = before + after;
    reveal_with_fuel(Seq::filter, 2);
    Seq::filter_distributes_over_add(before, seq!['-'], pred);
    Seq::filter_distributes_over_add(before + seq!['-'], after, pred);
    Seq::filter_distributes_over_add(before, after, pred);
    if all_hex_or_hyphen(with) {
        assert forall|i: int| 0 <= i < without.len() implies is_hex_or_hyphen(
            #[trigger] without[i],
        ) by {
            if i < before.len() {
                assert(without[i] == with[i]);
            } else {
                assert(without[i] == with[i + 1]);
            }
        }
    }
    if all_hex_or_hyphen(without) {
        assert forall|i: int| 0 <= i < with.len() implies is_hex_or_hyphen(#[trigger] with[i]) by {
            if i < before.len() {
                assert(with[i] == without[i]);
            } else if i > before.len() {
                assert(with[i] == without[i - 1]);
            }
        }
    }
}

/// Digits hold no hyphen, so taking hyphens out changes nothing.
pub proof fn lemma_digits_hold_no_hyphen(s: Seq<char>)
    requires
        all_hex_digits(s),
    ensures
        without_hyphens(s) == s,
        all_hex_or_hyphen(s),
    decreases s.len(),
{
    reveal(Seq::filter);
    if s.len() > 0 {
        lemma_digits_hold_no_hyphen(s.drop_last());
    }
}

/// A string of `n` hexadecimal digits denotes a number below 16 to the `n`.
pub proof fn lemma_hex_value_bound(s: Seq<char>)
    requires
        all_hex_digits(s),
    ensures
        hex_value(s) < pow(16, s.len()),
    decreases s.len(),
{
    reveal(pow);
    if s.len() > 0 {
        lemma_hex_value_bound(s.drop_last());
    }
}

/// Eight hexadecimal digits fit in 32 bits, and two in 8.
pub proof fn lemma_register_fits(s: Seq<char>)
    requires
        all_hex_digits(s),
    ensures
        s.len() == 8 ==> hex_value(s) <= u32::MAX,
        s.len() == 2 ==> hex_value(s) <= 0xff,
{
    lemma_hex_value_bound(s);
    reveal_with_fuel(pow, 9);
}

/// The number a hexadecimal digit stands for, or `None` for any other
/// character.
pub fn hex_digit(c: char) -> (d: Option<u8>)
    ensures
        d == (if is_hex_digit(c) {
            Some(hex_digit_value(c) as u8)
        } else {
            None::<u8>
        }),
        d matches Some(v) ==> v < 16,
{
    if '0' <= c && c <= '9' {
        Some((c as u32 - '0' as u32) as u8)
    } else if 'a' <= c && c <= 'f' {
        Some((c as u32 - 'a' as u32 + 10) as u8)
    } else if 'A' <= c && c <= 'F' {
        Some((c as u32 - 'A' as u32 + 10) as u8)
    } else {
        None
    }
}

/// Reads the number field `chars[from..to]`, which may not exceed `max`.
pub fn parse_hex(chars: &[char], from: usize, to: usize, max: u64) -> (r: Option<u64>)
    requires
        from <= to <= chars@.len(),
    ensures
        match r {
            Some(v) => hex_number(chars@.subrange(from as int, to as int), max as nat) == Some(
                v as nat,
            ),
            None => hex_number(chars@.subrange(from as int, to as int), max as nat) is None,
        },
{
    let ghost field = chars@.subrange(from as int, to as int);
    let mut acc: u64 = 0;
    let mut seen: bool = false;
    let mut i: usize = from;
    proof {
        reveal(Seq::filter);
    }
    while i < to
        invariant
            from <= i <= to <= chars@.len(),
            field == chars@.subrange(from as int, to as int),
            all_hex_or_hyphen(field.take(i - from)),
            acc == hex_value(without_hyphens(field.take(i - from))),
            seen == (without_hyphens(field.take(i - from)).len() > 0),
            acc <= max,
        decreases to - i,
    {
        let c = chars[i];
        let ghost k = i - from;
        proof {
            lemma_without_hyphens_step(field, k);
            if c != '-' {
                let before = without_hyphens(field.take(k));
                assert(before.push(c).drop_last() =~= before);
            }
        }
        if c != '-' {
            match hex_digit(c) {
                Some(d) => {
                    if d as u64 > max || acc > (max - d as u64) / 16 {
                        proof {
                            lemma_hex_value_grows(field, k + 1, field.len() as int);
                            assert(field.take(field.len() as int) =~= field);
                        }
                        return None;
                    }
                    acc = acc * 16 + d as u64;
                    seen = true;
                },
                None => {
                    return None;
                },
            }
        }
        i += 1;
    }
    proof {
        assert(field.take(i - from) =~= field);
    }
    if seen {
        Some(acc)
    } else {
        None
    }
}

/// Parse a hex string to an `u32`, or return `None` where it denotes none.
///
/// This function will ignore any dashes in the input.
pub fn try_hex_as_u32(input: &str) -> (value: Option<u32>)
    ensures
        match value {
            Some(v) => hex_number(input@, u32::MAX as nat) == Some(v as nat),
            None => hex_number(input@, u32::MAX as nat) is None,
        },
{
    let chars = chars_of(input);
    assert(chars@.subrange(0, chars@.len() as int) =~= input@);
    match parse_hex(chars.as_slice(), 0, chars.len(), 0xffff_ffff) {
        Some(v) => Some(v as u32),
        None => None,
    }
}

/// Parse a hex string to an `u64`, or return `None` where it denotes none.
///
/// This function will ignore any dashes in the input.
pub fn try_hex_as_u64(input: &str) -> (value: Option<u64>)
    ensures
        match value {
            Some(v) => hex_number(input@, u64::MAX as nat) == Some(v as nat),
            None => hex_number(input@, u64::MAX as nat) is None,
        },
{
    let chars = chars_of(input);
    assert(chars@.subrange(0, chars@.len() as int) =~= input@);
    parse_hex(chars.as_slice(), 0, chars.len(), 0xffff_ffff_ffff_ffff)
}

/// Parse a hex string to an `u32`.
///
/// This function will ignore any dashes in the input.
///
/// The input holds hexadecimal digits and dashes only, at least one digit,
/// and denotes a number that fits in 32 bits.
pub fn hex_as_u32(input: &str) -> (value: u32)
    requires
        hex_number(input@, u32::MAX as nat) is Some,
    ensures
        value == hex_value(without_hyphens(input@)),
{
    match try_hex_as_u32(input) {
        Some(v) => v,
        None => unreached(),
    }
}

/// Parse a hex string to an `u64`.
///
/// This function has the same requirements as [hex_as_u32], but for the
/// number, which has to fit in 64 bits.
pub fn hex_as_u64(input: &str) -> (value: u64)
    requires
        hex_number(input@, u64::MAX as nat) is Some,
    ensures
        value == hex_value(without_hyphens(input@)),
{
    match try_hex_as_u64(input) {
        Some(v) => v,
        None => unreached(),
    }
}

} // verus!
