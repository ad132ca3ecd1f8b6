//! Human-readable magnitudes: binary-prefixed quantities rendered as text.

use vstd::prelude::*;
use vstd::string::StringExecFns;
use vstd::arithmetic::div_mod::{
    lemma_div_denominator, lemma_div_is_ordered_by_denominator, lemma_fundamental_div_mod,
};

verus! {

/// How many prefixes the unit ladder holds, and so the most divisions a
/// quantity can go through.
pub const LADDER_LEN: usize = 7;

/// The character of one decimal digit.
pub open spec fn digit_char(d: int) -> char {
    if d == 0 {
        '0'
    } else if d == 1 {
        '1'
    } else if d == 2 {
        '2'
    } else if d == 3 {
        '3'
    } else if d == 4 {
        '4'
    } else if d == 5 {
        '5'
    } else if d == 6 {
        '6'
    } else if d == 7 {
        '7'
    } else if d == 8 {
        '8'
    } else {
        '9'
    }
}

/// The decimal numeral of `n`, without sign or leading zeros.
pub open spec fn decimal(n: nat) -> Seq<char>
    decreases n,
{
    if n < 10 {
        seq![digit_char(n as int)]
    } else {
        decimal(n / 10).push(digit_char((n % 10) as int))
    }
}

/// `1024` to the power `k`.
pub open spec fn pow1024(k: nat) -> nat
    decreases k,
{
    if k == 0 {
        1
    } else {
        1024 * pow1024((k - 1) as nat)
    }
}

/// The number of times `value` is divided by 1024 before it drops below
/// 1024, with at most `budget` divisions.
pub open spec fn divisions(value: nat, budget: nat) -> nat
    decreases budget,
{
    if value >= 1024 && budget > 0 {
        1 + divisions(value / 1024, (budget - 1) as nat)
    } else {
        0
    }
}

/// The number of divisions by 1024 that `value` goes through.
pub open spec fn scale_steps(value: u64) -> nat {
    divisions(value as nat, LADDER_LEN as nat)
}

/// `100 * value / unit`, rounded to the nearest integer, a tie going to the
/// even neighbour.
pub open spec fn hundredths(value: nat, unit: nat) -> nat {
    let total = 100 * value;
    let q = total / unit;
    let r = total % unit;
    if 2 * r > unit || (2 * r == unit && q % 2 == 1) {
        q + 1
    } else {
        q
    }
}

/// A count of hundredths written with a decimal point and two decimals.
pub open spec fn two_decimals(h: nat) -> Seq<char> {
    decimal(h / 100).push('.').push(digit_char(((h / 10) % 10) as int)).push(
        digit_char((h % 10) as int),
    )
}

/// The prefix that stands for `steps` divisions by 1024. The ladder runs
/// K, M, G, T, Y, Z, E.
pub open spec fn unit_label(steps: nat) -> Seq<char> {
    if steps == 1 {
        seq!['K']
    } else if steps == 2 {
        seq!['M']
    } else if steps == 3 {
        seq!['G']
    } else if steps == 4 {
        seq!['T']
    } else if steps == 5 {
        seq!['Y']
    } else if steps == 6 {
        seq!['Z']
    } else {
        seq!['E']
    }
}

/// The text after the number of a scaled quantity: a space, the prefix, and
/// `B` for a quantity of bytes.
pub open spec fn unit_suffix(steps: nat, bytes: bool) -> Seq<char> {
    if bytes {
        seq![' '] + unit_label(steps) + seq!['B']
    } else {
        seq![' '] + unit_label(steps)
    }
}

/// The rendering of `value`: below 1024 the bare number (followed by ` B` for
/// bytes); otherwise the number divided by 1024 as often as `scale_steps`
/// says, written without decimals where the division is exact and with two
/// decimals where it is not, followed by the unit.
pub open spec fn readable(value: u64, bytes: bool) -> Seq<char> {
    let steps = scale_steps(value);
    let unit = pow1024(steps);
    if value < 1024 {
        if bytes {
            decimal(value as nat) + seq![' ', 'B']
        } else {
            decimal(value as nat)
        }
    } else if value as nat % unit == 0 {
        decimal(value as nat / unit) + unit_suffix(steps, bytes)
    } else {
        two_decimals(hundredths(value as nat, unit)) + unit_suffix(steps, bytes)
    }
}

/// A quantity scaled down by a power of 1024.
#[derive(Clone, Copy, Debug, PartialEq, Eq)]
pub struct Magnitude {
    /// The number of divisions by 1024 that were made.
    pub steps: usize,
    /// The integer part of the scaled quantity.
    pub whole: u64,
    /// Whether the scaled quantity has no fractional part.
    pub exact: bool,
    /// The scaled quantity in hundredths, rounded to the nearest.
    pub hundredths: u64,
}

/// Divides `value` by 1024 until it is below 1024.
///
/// The ladder is never exhausted: a 64-bit quantity takes at most six
/// divisions. The rounded hundredths, scaled back, differ from `value` by at
/// most half a hundredth of the unit.
pub fn scale(value: u64) -> (m: Magnitude)
    ensures
        m.steps == scale_steps(value),
        m.steps <= 6,
        m.steps < LADDER_LEN,
        (m.steps == 0) == (value < 1024),
        m.whole == value as nat / pow1024(m.steps as nat),
        m.whole < 1024,
        m.steps > 0 ==> m.whole >= 1,
        m.exact == (value as nat % pow1024(m.steps as nat) == 0),
        m.hundredths == hundredths(value as nat, pow1024(m.steps as nat)),
        m.whole * pow1024(m.steps as nat) <= value < (m.whole + 1) * pow1024(m.steps as nat),
        2 * (m.hundredths * pow1024(m.steps as nat) - 100 * value) <= pow1024(m.steps as nat),
        2 * (100 * value - m.hundredths * pow1024(m.steps as nat)) <= pow1024(m.steps as nat),
{
    let mut running: u64 = value;
    let mut unit: u64 = 1;
    let mut steps: usize = 0;
    proof {
        lemma_pow1024_values();
    }
    while running >= 1024 && steps < LADDER_LEN
        invariant
            steps <= 6,
            unit == pow1024(steps as nat),
            unit >= 1,
            running == value / unit,
            steps > 0 ==> running >= 1,
            steps > 0 ==> unit >= 1024,
            (steps == 0) == (unit == 1),
            steps > 0 ==> value >= 1024,
            scale_steps(value) == steps + divisions(running as nat, (LADDER_LEN - steps) as nat),
        decreases LADDER_LEN - steps,
    {
        proof {
            lemma_scale_step(value as nat, unit as nat);
            lemma_pow1024_values();
        }
        running = running / 1024;
        unit = unit * 1024;
        steps = steps + 1;
    }
    let total: u128 = 100u128 * (value as u128);
    let wide: u128 = unit as u128;
    let q: u128 = total / wide;
    let r: u128 = total % wide;
    proof {
        lemma_fundamental_div_mod(value as int, unit as int);
        assert(running * unit <= value < (running + 1) * unit) by (nonlinear_arith)
            requires
                value == unit * running + value % unit,
                0 <= value % unit < unit,
        ;
        lemma_rounding(value as nat, unit as nat);
        if steps > 0 {
            lemma_div_is_ordered_by_denominator(total as int, 1024, wide as int);
        }
    }
    let h: u128 = if 2 * r > wide || (2 * r == wide && q % 2 == 1) {
        q + 1
    } else {
        q
    };
    Magnitude { steps, whole: running, exact: value % unit == 0, hundredths: h as u64 }
}

/// Dividing by 1024 as often as `divisions` says leaves less than 1024,
/// as long as the budget is not used up, and no division was made on a
/// value below 1024.
pub proof fn lemma_divisions(value: nat, budget: nat)
    ensures
        divisions(value, budget) <= budget,
        divisions(value, budget) > 0 ==> pow1024(divisions(value, budget)) <= value,
        value < 1024 * pow1024(budget) ==> value / pow1024(divisions(value, budget)) < 1024,
    decreases budget,
{
    if value >= 1024 && budget > 0 {
        let rest = value / 1024;
        let taken = divisions(rest, (budget - 1) as nat);
        lemma_divisions(rest, (budget - 1) as nat);
        lemma_pow1024_positive(taken);
        lemma_fundamental_div_mod(value as int, 1024);
        lemma_div_denominator(value as int, 1024, pow1024(taken) as int);
        assert(pow1024(taken + 1) == 1024 * pow1024(taken));
        assert(1024 * pow1024(taken) <= value) by (nonlinear_arith)
            requires
                taken > 0 ==> pow1024(taken) <= rest,
                taken == 0 ==> pow1024(taken) == 1,
                1024 * rest <= value,
                rest >= 1,
        ;
    }
}

/// A power of 1024 is at least one.
pub proof fn lemma_pow1024_positive(k: nat)
    ensures
        pow1024(k) >= 1,
    decreases k,
{
    if k > 0 {
        lemma_pow1024_positive((k - 1) as nat);
    }
}

/// Scaling a 64-bit quantity ends before the ladder does: it takes at most
/// six divisions, none of them for a quantity below 1024, and leaves a
/// number below 1024. The number that is written with two decimals, taken
/// back to the unscaled quantity, is off by at most half a hundredth of the
/// unit.
pub proof fn lemma_scaling(value: u64)
    ensures
        scale_steps(value) <= 6,
        scale_steps(value) < LADDER_LEN,
        (scale_steps(value) == 0) == (value < 1024),
        pow1024(scale_steps(value)) >= 1,
        pow1024(scale_steps(value)) <= value || value < 1024,
        value as nat / pow1024(scale_steps(value)) < 1024,
        2 * (hundredths(value as nat, pow1024(scale_steps(value))) * pow1024(scale_steps(value))
            - 100 * value) <= pow1024(scale_steps(value)),
        2 * (100 * value - hundredths(value as nat, pow1024(scale_steps(value))) * pow1024(
            scale_steps(value),
        )) <= pow1024(scale_steps(value)),
{
    let steps = scale_steps(value);
    lemma_divisions(value as nat, LADDER_LEN as nat);
    lemma_pow1024_positive(steps);
    lemma_rounding(value as nat, pow1024(steps));
    reveal_with_fuel(pow1024, 8);
    assert(pow1024(7) == 0x40_0000_0000_0000_0000);
}

/// The powers of 1024 that a 64-bit quantity can reach.
pub proof fn lemma_pow1024_values()
    ensures
        pow1024(0) == 1,
        pow1024(1) == 0x400,
        pow1024(2) == 0x10_0000,
        pow1024(3) == 0x4000_0000,
        pow1024(4) == 0x100_0000_0000,
        pow1024(5) == 0x4_0000_0000_0000,
        pow1024(6) == 0x1000_0000_0000_0000,
{
    reveal_with_fuel(pow1024, 8);
}

/// One more division by 1024 is a division by a unit 1024 times as large.
proof fn lemma_scale_step(value: nat, unit: nat)
    requires
        unit >= 1,
        value / unit >= 1024,
    ensures
        unit * 1024 <= value,
        (value / unit) / 1024 == value / (unit * 1024),
        (value / unit) / 1024 >= 1,
{
    lemma_fundamental_div_mod(value as int, unit as int);
    lemma_div_denominator(value as int, unit as int, 1024);
    assert(unit * (value / unit) >= unit * 1024) by (nonlinear_arith)
        requires
            value / unit >= 1024,
            unit >= 1,
    ;
}

/// Rounding to the nearest hundredth moves a quantity by at most half a
/// hundredth of the unit.
pub proof fn lemma_rounding(value: nat, unit: nat)
    requires
        unit >= 1,
    ensures
        2 * (hundredths(value, unit) * unit - 100 * value) <= unit,
        2 * (100 * value - hundredths(value, unit) * unit) <= unit,
{
    let total = 100 * value;
    let q = total / unit;
    let r = total % unit;
    lemma_fundamental_div_mod(total as int, unit as int);
    assert((q + 1) * unit == q * unit + unit) by (nonlinear_arith);
    assert(unit * q == q * unit) by (nonlinear_arith);
}

/// The text of one decimal digit.
fn digit_text(d: u64) -> (t: &'static str)
    requires
        d < 10,
    ensures
        t@ == seq![digit_char(d as int)],
{
    let t: &'static str = if d == 0 {
        "0"
    } else if d == 1 {
        "1"
    } else if d == 2 {
        "2"
    } else if d == 3 {
        "3"
    } else if d == 4 {
        "4"
    } else if d == 5 {
        "5"
    } else if d == 6 {
        "6"
    } else if d == 7 {
        "7"
    } else if d == 8 {
        "8"
    } else {
        "9"
    };
    proof {
        reveal_strlit("0");
        reveal_strlit("1");
        reveal_strlit("2");
        reveal_strlit("3");
        reveal_strlit("4");
        reveal_strlit("5");
        reveal_strlit("6");
        reveal_strlit("7");
        reveal_strlit("8");
        reveal_strlit("9");
        assert(t@ =~= seq![digit_char(d as int)]);
    }
    t
}

/// The text of the prefix that stands for `steps` divisions.
fn unit_text(steps: usize) -> (t: &'static str)
    requires
        1 <= steps <= LADDER_LEN,
    ensures
        t@ == unit_label(steps as nat),
{
    let t: &'static str = if steps == 1 {
        "K"
    } else if steps == 2 {
        "M"
    } else if steps == 3 {
        "G"
    } else if steps == 4 {
        "T"
    } else if steps == 5 {
        "Y"
    } else if steps == 6 {
        "Z"
    } else {
        "E"
    };
    proof {
        reveal_strlit("K");
        reveal_strlit("M");
        reveal_strlit("G");
        reveal_strlit("T");
        reveal_strlit("Y");
        reveal_strlit("Z");
        reveal_strlit("E");
        assert(t@ =~= unit_label(steps as nat));
    }
    t
}

/// Appends the decimal numeral of `n` to `out`.
pub fn append_decimal(out: &mut String, n: u64)
    ensures
        final(out)@ == old(out)@ + decimal(n as nat),
    decreases n,
{
    if n >= 10 {
        append_decimal(out, n / 10);
    }
    out.append(digit_text(n % 10));
    proof {
        assert(out@ =~= old(out)@ + decimal(n as nat));
    }
}

/// Appends `h` hundredths to `out`, written with two decimals.
fn append_two_decimals(out: &mut String, h: u64)
    ensures
        final(out)@ == old(out)@ + two_decimals(h as nat),
{
    append_decimal(out, h / 100);
    out.append(".");
    out.append(digit_text((h / 10) % 10));
    out.append(digit_text(h % 10));
    proof {
        reveal_strlit(".");
        assert(out@ =~= old(out)@ + two_decimals(h as nat));
    }
}

/// Renders a count for display: below 1024 as it stands, above that scaled
/// down by powers of 1024 and marked with the unit it was scaled to. A
/// quantity of bytes carries a `B` after the unit.
///
/// A scaled quantity is written without decimals where it is a whole number
/// and with exactly two decimals where it is not.
pub fn human_readable(value: u64, bytes: bool) -> (text: String)
    ensures
        text@ == readable(value, bytes),
        value < 1024 && !bytes ==> text@ == decimal(value as nat),
        value < 1024 && bytes ==> text@ == decimal(value as nat) + seq![' ', 'B'],
{
    let mut text = String::new();
    if value < 1024 {
        append_decimal(&mut text, value);
        if bytes {
            text.append(" B");
        }
        proof {
            reveal_strlit(" B");
            assert(text@ =~= readable(value, bytes));
        }
        return text;
    }
    let m = scale(value);
    if m.exact {
        append_decimal(&mut text, m.whole);
    } else {
        append_two_decimals(&mut text, m.hundredths);
    }
    text.append(" ");
    text.append(unit_text(m.steps));
    if bytes {
        text.append("B");
    }
    proof {
        reveal_strlit(" ");
        reveal_strlit("B");
        assert(text@ =~= readable(value, bytes));
    }
    text
}

} // verus!
