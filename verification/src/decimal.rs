//! Decimal digits: the value of a run of digits, and the digits of a value.

use vstd::prelude::*;

verus! {

/// Ten to the power `n`.
pub open spec fn pow10(n: nat) -> nat
    decreases n,
{
    if n == 0 {
        1
    } else {
        10 * pow10((n - 1) as nat)
    }
}

/// Whether `c` is one of `0` to `9`.
pub open spec fn is_digit(c: char) -> bool {
    '0' <= c <= '9'
}

/// The number that the digit `c` stands for.
pub open spec fn digit_value(c: char) -> nat
    recommends
        is_digit(c),
{
    (c as int - '0' as int) as nat
}

/// The digit that stands for `d`.
pub open spec fn digit_char(d: nat) -> char
    recommends
        d < 10,
{
    (d + 48) as u8 as char
}

/// Whether `text` holds digits only.
pub open spec fn all_digits(text: Seq<char>) -> bool {
    forall|i: int| 0 <= i < text.len() ==> is_digit(#[trigger] text[i])
}

/// The number written by the digits of `text`, most significant first. The
/// empty text writes zero.
pub open spec fn digits_value(text: Seq<char>) -> nat
    decreases text.len(),
{
    if text.len() == 0 {
        0
    } else {
        10 * digits_value(text.drop_last()) + digit_value(text.last())
    }
}

/// The digits of `n` without leading zeros; zero is written `0`.
pub open spec fn decimal_text(n: nat) -> Seq<char>
    decreases n,
{
    if n < 10 {
        seq![digit_char(n)]
    } else {
        decimal_text(n / 10).push(digit_char(n % 10))
    }
}

/// The digits that write `fraction` as a part of `pow10(width)`, without
/// trailing zeros: nothing at all for zero.
pub open spec fn fraction_text(fraction: nat, width: nat) -> Seq<char>
    decreases width,
{
    if fraction == 0 || width == 0 {
        Seq::empty()
    } else {
        seq![digit_char(fraction / pow10((width - 1) as nat))] + fraction_text(
            fraction % pow10((width - 1) as nat),
            (width - 1) as nat,
        )
    }
}

/// `String::push` of std.
///
/// Trusted: the character is appended and nothing else changes.
pub assume_specification[ String::push ](text: &mut String, c: char)
    ensures
        final(text)@ == old(text)@.push(c),
;

/// The digit that stands for `d`.
pub(crate) fn digit_of(d: u64) -> (c: char)
    requires
        d < 10,
    ensures
        c == digit_char(d as nat),
        is_digit(c),
        digit_value(c) == d,
{
    let byte: u8 = (d + 48) as u8;
    byte as char
}

/// Ten to the power `n`.
pub(crate) fn power_of_ten(n: u32) -> (power: u64)
    requires
        n <= 19,
    ensures
        power == pow10(n as nat),
{
    let mut power: u64 = 1;
    let mut i: u32 = 0;
    proof {
        lemma_pow10_positive(19);
    }
    while i < n
        invariant
            i <= n <= 19,
            power == pow10(i as nat),
            power <= pow10(19),
        decreases n - i,
    {
        proof {
            lemma_pow10_increases((i + 1) as nat, 19);
            lemma_pow10_values();
        }
        power = power * 10;
        i += 1;
    }
    power
}

/// Appends the digits of `n` to `text`.
pub(crate) fn push_decimal(text: &mut String, n: u64)
    ensures
        final(text)@ == old(text)@ + decimal_text(n as nat),
    decreases n,
{
    if n >= 10 {
        push_decimal(text, n / 10);
    }
    text.push(digit_of(n % 10));
    assert(final(text)@ =~= old(text)@ + decimal_text(n as nat));
}

/// Appends the digits of `fraction` as a part of `pow10(width)` to `text`,
/// without trailing zeros.
pub(crate) fn push_fraction(text: &mut String, fraction: u64, width: u32)
    requires
        width <= 19,
        fraction < pow10(width as nat),
    ensures
        final(text)@ == old(text)@ + fraction_text(fraction as nat, width as nat),
    decreases width,
{
    if fraction != 0 && width != 0 {
        let scale = power_of_ten(width - 1);
        proof {
            lemma_pow10_positive((width - 1) as nat);
            lemma_split_by_scale(fraction as nat, scale as nat, 10);
        }
        text.push(digit_of(fraction / scale));
        push_fraction(text, fraction % scale, width - 1);
        assert(final(text)@ =~= old(text)@ + fraction_text(fraction as nat, width as nat));
    } else {
        assert(final(text)@ =~= old(text)@ + fraction_text(fraction as nat, width as nat));
    }
}

/// A power of ten is at least one.
pub proof fn lemma_pow10_positive(n: nat)
    ensures
        pow10(n) >= 1,
    decreases n,
{
    if n > 0 {
        lemma_pow10_positive((n - 1) as nat);
    }
}

/// A larger exponent gives a power of ten that is no smaller.
pub proof fn lemma_pow10_increases(m: nat, n: nat)
    requires
        m <= n,
    ensures
        pow10(m) <= pow10(n),
    decreases n,
{
    if m < n {
        lemma_pow10_increases(m, (n - 1) as nat);
        lemma_pow10_positive((n - 1) as nat);
    }
}

/// The powers of ten that the amounts of this crate meet.
pub proof fn lemma_pow10_values()
    ensures
        pow10(0) == 1,
        pow10(1) == 10,
        pow10(9) == 1_000_000_000,
        pow10(19) == 10_000_000_000_000_000_000,
{
    reveal_with_fuel(pow10, 20);
}

/// Dividing a number below `scale * base` by `scale` leaves a quotient
/// below `base` and a remainder below `scale`.
pub proof fn lemma_split_by_scale(value: nat, scale: nat, base: nat)
    requires
        scale > 0,
        value < scale * base,
    ensures
        value / scale < base,
        value % scale < scale,
        value == scale * (value / scale) + value % scale,
{
    vstd::arithmetic::div_mod::lemma_fundamental_div_mod(value as int, scale as int);
    vstd::arithmetic::div_mod::lemma_mod_bound(value as int, scale as int);
    assert(value / scale < base) by (nonlinear_arith)
        requires
            scale > 0,
            value < scale * base,
            value == scale * (value / scale) + value % scale,
            0 <= value % scale,
    ;
}

/// The power of a sum of exponents is the product of the powers.
pub proof fn lemma_pow10_adds(m: nat, n: nat)
    ensures
        pow10(m + n) == pow10(m) * pow10(n),
    decreases m,
{
    if m == 0 {
        assert(pow10(0) == 1);
        assert(1 * pow10(n) == pow10(n)) by (nonlinear_arith);
    } else {
        lemma_pow10_adds((m - 1) as nat, n);
        assert(pow10(m + n) == 10 * pow10((m - 1 + n) as nat));
        assert(10 * (pow10((m - 1) as nat) * pow10(n)) == (10 * pow10((m - 1) as nat)) * pow10(n))
            by (nonlinear_arith);
    }
}

/// Digits written after other digits: the first ones count `pow10` of the
/// number of digits that follow them.
pub proof fn lemma_digits_value_concat(head: Seq<char>, tail: Seq<char>)
    ensures
        digits_value(head + tail) == digits_value(head) * pow10(tail.len()) + digits_value(tail),
    decreases tail.len(),
{
    if tail.len() == 0 {
        assert(head + tail =~= head);
        assert(digits_value(head) * 1 == digits_value(head)) by (nonlinear_arith);
    } else {
        let shorter = tail.drop_last();
        lemma_digits_value_concat(head, shorter);
        assert((head + tail).drop_last() =~= head + shorter);
        assert((head + tail).last() == tail.last());
        assert(10 * (digits_value(head) * pow10(shorter.len())) == digits_value(head) * (10
            * pow10(shorter.len()))) by (nonlinear_arith);
    }
}

/// A run of digits writes a number below `pow10` of its length.
pub proof fn lemma_digits_value_bound(text: Seq<char>)
    requires
        all_digits(text),
    ensures
        digits_value(text) < pow10(text.len()),
    decreases text.len(),
{
    if text.len() > 0 {
        let shorter = text.drop_last();
        assert forall|i: int| 0 <= i < shorter.len() implies is_digit(#[trigger] shorter[i]) by {
            assert(shorter[i] == text[i]);
        }
        lemma_digits_value_bound(shorter);
        assert(is_digit(text[text.len() - 1]));
    }
}

/// The first digits of a text write no more than the whole text.
pub proof fn lemma_digits_value_prefix(text: Seq<char>, length: int)
    requires
        0 <= length <= text.len(),
    ensures
        digits_value(text.take(length)) <= digits_value(text),
    decreases text.len() - length,
{
    if length == text.len() {
        assert(text.take(length) =~= text);
    } else {
        lemma_digits_value_prefix(text.drop_last(), length);
        assert(text.drop_last().take(length) =~= text.take(length));
    }
}

/// A digit stands for the number it was made from, and is no point.
pub proof fn lemma_digit_char(d: nat)
    requires
        d < 10,
    ensures
        is_digit(digit_char(d)),
        digit_value(digit_char(d)) == d,
        digit_char(d) != '.',
{
}

/// A single digit writes the number it stands for.
pub proof fn lemma_single_digit_value(c: char)
    ensures
        digits_value(seq![c]) == digit_value(c),
{
    let text = seq![c];
    assert(text.drop_last().len() == 0);
    assert(digits_value(text.drop_last()) == 0);
    assert(text.last() == c);
}

/// The digits of a number write that number.
pub proof fn lemma_decimal_text_value(n: nat)
    ensures
        all_digits(decimal_text(n)),
        decimal_text(n).len() >= 1,
        digits_value(decimal_text(n)) == n,
    decreases n,
{
    let text = decimal_text(n);
    lemma_digit_char(n % 10);
    if n < 10 {
        lemma_single_digit_value(digit_char(n));
    } else {
        let shorter = decimal_text(n / 10);
        lemma_decimal_text_value(n / 10);
        assert(text.drop_last() =~= shorter);
        assert(text.last() == digit_char(n % 10));
        assert forall|i: int| 0 <= i < text.len() implies is_digit(#[trigger] text[i]) by {
            if i < shorter.len() {
                assert(text[i] == shorter[i]);
            }
        }
    }
}

/// The digits of a fraction write that fraction, once the trailing zeros
/// that were left out are counted in.
pub proof fn lemma_fraction_text_value(fraction: nat, width: nat)
    requires
        fraction < pow10(width),
    ensures
        all_digits(fraction_text(fraction, width)),
        fraction_text(fraction, width).len() <= width,
        fraction > 0 ==> fraction_text(fraction, width).len() >= 1,
        digits_value(fraction_text(fraction, width)) * pow10(
            (width - fraction_text(fraction, width).len()) as nat,
        ) == fraction,
    decreases width,
{
    let text = fraction_text(fraction, width);
    if fraction == 0 || width == 0 {
        assert(text.len() == 0);
        assert(0 * pow10(width) == 0) by (nonlinear_arith);
    } else {
        let scale = pow10((width - 1) as nat);
        lemma_pow10_positive((width - 1) as nat);
        lemma_split_by_scale(fraction, scale, 10);
        let digit = fraction / scale;
        let rest = fraction % scale;
        let first = seq![digit_char(digit)];
        let others = fraction_text(rest, (width - 1) as nat);
        lemma_fraction_text_value(rest, (width - 1) as nat);
        lemma_digit_char(digit);
        assert(text =~= first + others);
        assert forall|i: int| 0 <= i < text.len() implies is_digit(#[trigger] text[i]) by {
            if i > 0 {
                assert(text[i] == others[i - 1]);
            }
        }
        lemma_digits_value_concat(first, others);
        lemma_single_digit_value(digit_char(digit));
        let left = (width - 1 - others.len()) as nat;
        lemma_pow10_adds(others.len(), left);
        assert((digit * pow10(others.len()) + digits_value(others)) * pow10(left) == digit * (
            pow10(others.len()) * pow10(left)) + digits_value(others) * pow10(left))
            by (nonlinear_arith);
        assert(digit * scale == scale * digit) by (nonlinear_arith);
    }
}

} // verus!
