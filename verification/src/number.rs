//! Unsigned numerals as they stand in the cells of a quota row.

use vstd::prelude::*;

verus! {

/// The byte `+`.
pub const PLUS: u8 = 0x2b;

/// The byte `0`.
pub const ZERO: u8 = 0x30;

/// The byte `x`.
pub const LOWER_X: u8 = 0x78;

/// What a byte is worth as a digit: `0` to `9`, then `a` to `f` in either
/// case for ten to fifteen. A byte that is no digit is worth nothing.
pub open spec fn digit_value(b: u8) -> Option<nat> {
    if 0x30 <= b <= 0x39 {
        Some((b - 0x30) as nat)
    } else if 0x61 <= b <= 0x66 {
        Some((b - 0x61 + 10) as nat)
    } else if 0x41 <= b <= 0x46 {
        Some((b - 0x41 + 10) as nat)
    } else {
        None
    }
}

/// Whether `b` is a digit in the given radix.
pub open spec fn is_digit(b: u8, radix: nat) -> bool {
    digit_value(b) is Some && digit_value(b)->0 < radix
}

/// Whether every byte of `digits` is a digit in the given radix.
pub open spec fn all_digits(digits: Seq<u8>, radix: nat) -> bool {
    forall|i: int| 0 <= i < digits.len() ==> is_digit(#[trigger] digits[i], radix)
}

/// The number that `digits` write in the given radix, most significant digit
/// first. A byte that is no digit counts as zero.
pub open spec fn numeral_value(digits: Seq<u8>, radix: nat) -> nat
    decreases digits.len(),
{
    if digits.len() == 0 {
        0
    } else {
        numeral_value(digits.drop_last(), radix) * radix + (match digit_value(digits.last()) {
            Some(d) => d,
            None => 0,
        })
    }
}

/// `text` without the plus sign that may lead it.
pub open spec fn unsigned_digits(text: Seq<u8>) -> Seq<u8> {
    if text.len() > 0 && text[0] == PLUS {
        text.skip(1)
    } else {
        text
    }
}

/// The number that `text` writes in the given radix: an optional plus sign,
/// then one digit or more and nothing else, worth no more than 64 bits hold.
pub open spec fn unsigned_numeral(text: Seq<u8>, radix: nat) -> Option<u64> {
    let digits = unsigned_digits(text);
    if digits.len() > 0 && all_digits(digits, radix) && numeral_value(digits, radix) <= u64::MAX {
        Some(numeral_value(digits, radix) as u64)
    } else {
        None
    }
}

/// Whether `cell` starts with `0x`, which marks a hexadecimal numeral.
pub open spec fn is_hex_marked(cell: Seq<u8>) -> bool {
    cell.len() >= 2 && cell[0] == ZERO && cell[1] == LOWER_X
}

/// The count that a cell writes: a decimal numeral, or a hexadecimal one
/// after `0x`. Neither takes a minus sign, blanks, or an empty run of
/// digits.
pub open spec fn count_of(cell: Seq<u8>) -> Option<u64> {
    if is_hex_marked(cell) {
        unsigned_numeral(cell.skip(2), 16)
    } else {
        unsigned_numeral(cell, 10)
    }
}

/// A numeral is worth at least as much as any of its prefixes.
pub proof fn lemma_prefix_value(digits: Seq<u8>, radix: nat, len: int)
    requires
        radix >= 1,
        0 <= len <= digits.len(),
    ensures
        numeral_value(digits.take(len), radix) <= numeral_value(digits, radix),
    decreases digits.len(),
{
    if len == digits.len() {
        assert(digits.take(len) =~= digits);
    } else {
        lemma_prefix_value(digits.drop_last(), radix, len);
        assert(digits.drop_last().take(len) =~= digits.take(len));
        assert(numeral_value(digits.drop_last(), radix) * radix >= numeral_value(
            digits.drop_last(),
            radix,
        )) by (nonlinear_arith)
            requires
                radix >= 1,
        ;
    }
}

/// What a byte is worth as a digit in the given radix, if it is one.
fn digit_in(b: u8, radix: u64) -> (d: Option<u64>)
    ensures
        d is Some <==> is_digit(b, radix as nat),
        d is Some ==> Some(d->0 as nat) == digit_value(b),
{
    let value: u64 = if 0x30 <= b && b <= 0x39 {
        (b - 0x30) as u64
    } else if 0x61 <= b && b <= 0x66 {
        (b - 0x61 + 10) as u64
    } else if 0x41 <= b && b <= 0x46 {
        (b - 0x41 + 10) as u64
    } else {
        return None;
    };
    if value < radix {
        Some(value)
    } else {
        None
    }
}

/// Reads the numeral that `text` writes from `start` on.
fn parse_unsigned(text: &[u8], start: usize, radix: u64) -> (value: Option<u64>)
    requires
        start <= text@.len(),
        radix == 10 || radix == 16,
    ensures
        value == unsigned_numeral(text@.skip(start as int), radix as nat),
{
    let ghost body = text@.skip(start as int);
    let first: usize = if start < text.len() && text[start] == PLUS {
        start + 1
    } else {
        start
    };
    let ghost digits = unsigned_digits(body);
    proof {
        assert(digits =~= text@.skip(first as int));
    }
    if first == text.len() {
        return None;
    }
    let mut value: u64 = 0;
    let mut i: usize = first;
    while i < text.len()
        invariant
            first <= i <= text@.len(),
            radix == 10 || radix == 16,
            digits == text@.skip(first as int),
            digits == unsigned_digits(text@.skip(start as int)),
            all_digits(digits.take(i - first), radix as nat),
            value == numeral_value(digits.take(i - first), radix as nat),
        decreases text@.len() - i,
    {
        let ghost seen = digits.take(i - first);
        let ghost next = digits.take(i - first + 1);
        proof {
            assert(next.drop_last() =~= seen);
            assert(next.last() == text@[i as int]);
            lemma_prefix_value(digits, radix as nat, i - first + 1);
        }
        let d: u64 = match digit_in(text[i], radix) {
            Some(d) => d,
            None => {
                proof {
                    assert(digits[i - first] == text@[i as int]);
                }
                return None;
            },
        };
        let wide: u128 = (value as u128) * (radix as u128) + (d as u128);
        if wide > u64::MAX as u128 {
            return None;
        }
        value = wide as u64;
        i = i + 1;
        proof {
            assert forall|j: int| 0 <= j < next.len() implies is_digit(
                #[trigger] next[j],
                radix as nat,
            ) by {
                if j < seen.len() {
                    assert(next[j] == seen[j]);
                }
            }
        }
    }
    proof {
        assert(digits.take(i - first) =~= digits);
    }
    Some(value)
}

/// Reads the count that a cell writes: decimal, or hexadecimal after `0x`.
/// A plus sign may lead the digits. Anything else in the cell, an empty
/// cell, or a number beyond 64 bits gives `None`.
pub fn parse_count(cell: &[u8]) -> (count: Option<u64>)
    ensures
        count == count_of(cell@),
{
    if cell.len() >= 2 && cell[0] == ZERO && cell[1] == LOWER_X {
        parse_unsigned(cell, 2, 16)
    } else {
        proof {
            assert(cell@.skip(0) =~= cell@);
        }
        parse_unsigned(cell, 0, 10)
    }
}

} // verus!
