//! Amounts of the ledger's asset: base units, display units and the text of
//! both.

use vstd::prelude::*;
use vstd::string::is_ascii_spec_bytes;

use crate::decimal::{
    all_digits, decimal_text, digit_value, digits_value, fraction_text, is_digit,
    lemma_decimal_text_value, lemma_digits_value_bound, lemma_digits_value_concat,
    lemma_digits_value_prefix, lemma_fraction_text_value, lemma_pow10_adds,
    lemma_pow10_increases, lemma_pow10_positive, lemma_pow10_values, pow10, power_of_ten,
    push_decimal, push_fraction,
};

verus! {

/// Number of base units in one display unit.
pub const BASE_UNITS_PER_DISPLAY_UNIT: u64 = 1_000_000_000;

/// Number of decimal places that a display unit has.
pub const DISPLAY_DECIMALS: u32 = 9;

/// The text of `base_units` in display units: the whole units, and after a
/// point the rest without trailing zeros, if there is a rest.
pub open spec fn spec_display(base_units: nat) -> Seq<char> {
    let whole = base_units / pow10(9);
    let rest = base_units % pow10(9);
    if rest == 0 {
        decimal_text(whole)
    } else {
        decimal_text(whole) + seq!['.'] + fraction_text(rest, 9)
    }
}

/// A balance as the ledger reports it: a count of base units.
#[derive(Clone, Copy, Debug, PartialEq, Eq, Structural)]
pub struct AccountBalance {
    base_units: u64,
}

impl View for AccountBalance {
    type V = nat;

    /// The count of base units.
    closed spec fn view(&self) -> nat {
        self.base_units as nat
    }
}

impl AccountBalance {
    /// The balance of `base_units` base units.
    pub fn new(base_units: u64) -> (balance: AccountBalance)
        ensures
            balance@ == base_units,
    {
        AccountBalance { base_units }
    }

    /// The count of base units.
    pub fn base_units(&self) -> (count: u64)
        ensures
            count == self@,
    {
        self.base_units
    }

    /// The whole display units in the balance.
    pub fn whole_units(&self) -> (whole: u64)
        ensures
            whole == self@ / pow10(9),
    {
        proof {
            lemma_pow10_values();
        }
        self.base_units / BASE_UNITS_PER_DISPLAY_UNIT
    }

    /// The base units left over after the whole display units.
    pub fn fractional_base_units(&self) -> (rest: u64)
        ensures
            rest == self@ % pow10(9),
            rest < pow10(9),
    {
        proof {
            lemma_pow10_values();
        }
        self.base_units % BASE_UNITS_PER_DISPLAY_UNIT
    }

    /// The balance in display units, as text.
    pub fn display(&self) -> (text: String)
        ensures
            text@ == spec_display(self@),
    {
        let whole = self.whole_units();
        let rest = self.fractional_base_units();
        let mut text = String::new();
        push_decimal(&mut text, whole);
        if rest != 0 {
            text.push('.');
            push_fraction(&mut text, rest, DISPLAY_DECIMALS);
        }
        assert(text@ =~= spec_display(self@));
        text
    }
}

/// Why a text is not an amount that can be requested.
#[derive(Clone, Copy, Debug, PartialEq, Eq, Structural)]
pub enum AmountError {
    /// The text is not made of digits with at most one point among them.
    Malformed,
    /// The text writes zero.
    NotPositive,
    /// The amount in base units does not fit in 64 bits.
    OutOfRange,
}

/// Where the first point of `text` stands, or the length of `text` if it
/// holds no point.
pub open spec fn point_position(text: Seq<char>) -> int
    decreases text.len(),
{
    if text.len() == 0 || text[0] == '.' {
        0
    } else {
        1 + point_position(text.drop_first())
    }
}

/// What stands before the first point.
pub open spec fn integer_digits(text: Seq<char>) -> Seq<char> {
    text.subrange(0, point_position(text))
}

/// What stands after the first point.
pub open spec fn fraction_digits(text: Seq<char>) -> Seq<char> {
    if point_position(text) < text.len() {
        text.subrange(point_position(text) + 1, text.len() as int)
    } else {
        Seq::empty()
    }
}

/// Whether `text` writes an amount: digits, at most one point among them,
/// and at least one digit.
pub open spec fn is_amount(text: Seq<char>) -> bool {
    &&& all_digits(integer_digits(text))
    &&& all_digits(fraction_digits(text))
    &&& integer_digits(text).len() + fraction_digits(text).len() > 0
}

/// The number that the digits of `text` write once the point is taken out:
/// the amount times `pow10` of the number of digits after the point.
pub open spec fn amount_numerator(text: Seq<char>) -> nat {
    digits_value(integer_digits(text) + fraction_digits(text))
}

/// The amount that `text` writes in display units, in base units and
/// rounded down to a whole number of them.
pub open spec fn amount_base_units(text: Seq<char>) -> nat {
    amount_numerator(text) * pow10(9) / pow10(fraction_digits(text).len())
}

/// What reading `text` as an amount in display units gives: the base
/// units, or the reason for refusing the text.
pub open spec fn spec_parse_display_amount(text: Seq<char>) -> Result<u64, AmountError> {
    if !is_amount(text) {
        Err(AmountError::Malformed)
    } else if amount_numerator(text) == 0 {
        Err(AmountError::NotPositive)
    } else if amount_base_units(text) > u64::MAX {
        Err(AmountError::OutOfRange)
    } else {
        Ok(amount_base_units(text) as u64)
    }
}

/// The part of a display unit that the digits `fraction` after the point
/// write, in base units: digits past the ninth are dropped.
pub open spec fn kept_fraction(fraction: Seq<char>) -> nat {
    if fraction.len() <= 9 {
        digits_value(fraction) * pow10((9 - fraction.len()) as nat)
    } else {
        digits_value(fraction.take(9))
    }
}

/// Whether `bytes` holds the characters of `text`, all of them ASCII.
spec fn ascii_bytes(text: Seq<char>, bytes: Seq<u8>) -> bool {
    &&& bytes.len() == text.len()
    &&& forall|i: int|
        0 <= i < text.len() ==> '\0' <= text[i] <= '\u{7f}' && #[trigger] bytes[i] == text[i] as u8
}

/// The first point of a text stands where `point_position` says.
proof fn lemma_point_position_found(text: Seq<char>, position: int)
    requires
        0 <= position <= text.len(),
        forall|j: int| 0 <= j < position ==> text[j] != '.',
        position < text.len() ==> text[position] == '.',
    ensures
        point_position(text) == position,
    decreases position,
{
    if position > 0 {
        lemma_point_position_found(text.drop_first(), position - 1);
    }
}

/// `point_position` is within the text, no point stands before it, and a
/// point stands at it unless it is the end.
proof fn lemma_point_position_is_first(text: Seq<char>)
    ensures
        0 <= point_position(text) <= text.len(),
        forall|j: int| 0 <= j < point_position(text) ==> text[j] != '.',
        point_position(text) < text.len() ==> text[point_position(text)] == '.',
    decreases text.len(),
{
    if text.len() == 0 || text[0] == '.' {
    } else {
        let rest = text.drop_first();
        lemma_point_position_is_first(rest);
        assert forall|j: int| 0 <= j < point_position(text) implies text[j] != '.' by {
            if j > 0 {
                assert(text[j] == rest[j - 1]);
            }
        }
    }
}

/// An amount is written in ASCII.
proof fn lemma_amount_is_ascii(text: Seq<char>)
    requires
        is_amount(text),
    ensures
        vstd::utf8::is_ascii_chars(text),
{
    lemma_point_position_is_first(text);
    let position = point_position(text);
    assert forall|i: int| 0 <= i < text.len() implies '\0' <= #[trigger] text[i] <= '\u{7f}' by {
        if i < position {
            assert(integer_digits(text)[i] == text[i]);
        } else if i > position {
            assert(fraction_digits(text)[i - position - 1] == text[i]);
        }
    }
}

/// The base units of an amount whose digits before the point write `whole`
/// and whose digits after the point are `fraction`.
proof fn lemma_base_units(whole: nat, fraction: Seq<char>)
    requires
        all_digits(fraction),
    ensures
        (whole * pow10(fraction.len()) + digits_value(fraction)) * pow10(9) / pow10(
            fraction.len(),
        ) == whole * pow10(9) + kept_fraction(fraction),
        kept_fraction(fraction) < pow10(9),
{
    let length = fraction.len();
    let scale = pow10(length) as int;
    let value = digits_value(fraction) as int;
    let unit = pow10(9) as int;
    lemma_pow10_positive(length);
    lemma_pow10_positive(9);
    lemma_digits_value_bound(fraction);
    let kept = kept_fraction(fraction) as int;
    if length <= 9 {
        let shift = pow10((9 - length) as nat) as int;
        lemma_pow10_adds(length, (9 - length) as nat);
        assert(value * unit == scale * (value * shift)) by (nonlinear_arith)
            requires
                unit == scale * shift,
        ;
        vstd::arithmetic::div_mod::lemma_div_multiples_vanish(value * shift, scale);
        lemma_pow10_positive((9 - length) as nat);
        assert(value * shift < unit) by (nonlinear_arith)
            requires
                0 <= value < scale,
                unit == scale * shift,
                shift > 0,
        ;
    } else {
        let tail = pow10((length - 9) as nat) as int;
        let head = fraction.take(9);
        let rest = fraction.skip(9);
        lemma_pow10_adds(9, (length - 9) as nat);
        lemma_pow10_positive((length - 9) as nat);
        assert(fraction =~= head + rest);
        lemma_digits_value_concat(head, rest);
        assert(all_digits(rest)) by {
            assert forall|i: int| 0 <= i < rest.len() implies is_digit(#[trigger] rest[i]) by {
                assert(rest[i] == fraction[i + 9]);
            }
        }
        assert(all_digits(head)) by {
            assert forall|i: int| 0 <= i < head.len() implies is_digit(#[trigger] head[i]) by {
                assert(head[i] == fraction[i]);
            }
        }
        lemma_digits_value_bound(rest);
        lemma_digits_value_bound(head);
        let high = digits_value(head) as int;
        let low = digits_value(rest) as int;
        assert(value == tail * high + low) by (nonlinear_arith)
            requires
                value == high * tail + low,
        ;
        vstd::arithmetic::div_mod::lemma_div_multiples_vanish_fancy(high, low, tail);
        assert(value * unit == unit * value) by (nonlinear_arith);
        vstd::arithmetic::div_mod::lemma_div_multiples_vanish(value, unit);
        assert(value * unit >= 0) by (nonlinear_arith)
            requires
                value >= 0,
                unit >= 0,
        ;
        vstd::arithmetic::div_mod::lemma_div_denominator(value * unit, unit, tail);
    }
    assert((whole * scale + value) * unit == value * unit + (whole * unit) * scale)
        by (nonlinear_arith);
    vstd::arithmetic::div_mod::lemma_hoist_over_denominator(
        value * unit,
        whole * unit,
        scale as nat,
    );
}

/// Of the digits after the point only the first nine count: the base units
/// are the whole units times `pow10(9)` and what those nine digits write.
pub proof fn lemma_amount_keeps_nine_decimals(text: Seq<char>)
    requires
        is_amount(text),
    ensures
        amount_base_units(text) == digits_value(integer_digits(text)) * pow10(9) + kept_fraction(
            fraction_digits(text),
        ),
        kept_fraction(fraction_digits(text)) < pow10(9),
{
    lemma_digits_value_concat(integer_digits(text), fraction_digits(text));
    lemma_base_units(digits_value(integer_digits(text)), fraction_digits(text));
}

/// The base units are the amount times `pow10(9)`, rounded down: the
/// largest whole number that is not above it.
pub proof fn lemma_amount_is_rounded_down(text: Seq<char>)
    ensures
        amount_base_units(text) * pow10(fraction_digits(text).len()) <= amount_numerator(text)
            * pow10(9),
        amount_numerator(text) * pow10(9) < (amount_base_units(text) + 1) * pow10(
            fraction_digits(text).len(),
        ),
{
    let scale = pow10(fraction_digits(text).len()) as int;
    let scaled = (amount_numerator(text) * pow10(9)) as int;
    lemma_pow10_positive(fraction_digits(text).len());
    vstd::arithmetic::div_mod::lemma_fundamental_div_mod(scaled, scale);
    vstd::arithmetic::div_mod::lemma_mod_bound(scaled, scale);
    assert((scaled / scale) * scale == scale * (scaled / scale)) by (nonlinear_arith);
    assert((scaled / scale + 1) * scale == scale * (scaled / scale) + scale) by (nonlinear_arith);
}

/// Whether the bytes from `from` up to `to` are all digits.
fn digits_between(bytes: &[u8], from: usize, to: usize, Ghost(text): Ghost<Seq<char>>) -> (ok:
    bool)
    requires
        from <= to <= bytes.len(),
        ascii_bytes(text, bytes@),
    ensures
        ok == all_digits(text.subrange(from as int, to as int)),
{
    let ghost part = text.subrange(from as int, to as int);
    let mut i: usize = from;
    while i < to
        invariant
            from <= i <= to <= bytes.len(),
            ascii_bytes(text, bytes@),
            part == text.subrange(from as int, to as int),
            forall|j: int| from <= j < i ==> is_digit(text[j]),
        decreases to - i,
    {
        let byte = bytes[i];
        if byte < 48 || byte > 57 {
            assert(part[i - from] == text[i as int]);
            return false;
        }
        i += 1;
    }
    assert forall|j: int| 0 <= j < part.len() implies is_digit(#[trigger] part[j]) by {
        assert(part[j] == text[j + from]);
    }
    true
}

/// The number that the digits from `from` up to `to` write, or nothing if
/// it does not fit in 64 bits.
fn value_between(bytes: &[u8], from: usize, to: usize, Ghost(text): Ghost<Seq<char>>) -> (value:
    Option<u64>)
    requires
        from <= to <= bytes.len(),
        ascii_bytes(text, bytes@),
        all_digits(text.subrange(from as int, to as int)),
    ensures
        match value {
            Some(v) => v == digits_value(text.subrange(from as int, to as int)),
            None => digits_value(text.subrange(from as int, to as int)) > u64::MAX,
        },
{
    let ghost part = text.subrange(from as int, to as int);
    let mut value: u64 = 0;
    let mut i: usize = from;
    while i < to
        invariant
            from <= i <= to <= bytes.len(),
            ascii_bytes(text, bytes@),
            part == text.subrange(from as int, to as int),
            all_digits(part),
            value == digits_value(part.take(i - from)),
        decreases to - i,
    {
        let ghost next = part.take(i - from + 1);
        assert(part[i - from] == text[i as int]);
        let digit: u64 = (bytes[i] - 48) as u64;
        proof {
            assert(next.drop_last() =~= part.take(i - from));
            assert(digits_value(next) == 10 * value + digit);
            lemma_digits_value_prefix(part, i - from + 1);
        }
        if value > (u64::MAX - digit) / 10 {
            return None;
        }
        value = value * 10 + digit;
        i += 1;
    }
    assert(part.take(to - from) =~= part);
    Some(value)
}

/// Reads an amount in display units and gives it in base units. A part of a
/// base unit is dropped, never rounded up.
pub fn parse_display_amount(text: &str) -> (parsed: Result<u64, AmountError>)
    ensures
        parsed == spec_parse_display_amount(text@),
{
    if !text.is_ascii() {
        proof {
            if is_amount(text@) {
                lemma_amount_is_ascii(text@);
            }
        }
        return Err(AmountError::Malformed);
    }
    let bytes = text.as_bytes();
    let length = bytes.len();
    proof {
        is_ascii_spec_bytes(text);
        assert(ascii_bytes(text@, bytes@));
    }
    let mut point: usize = 0;
    while point < length && bytes[point] != 46
        invariant
            point <= length == bytes.len(),
            ascii_bytes(text@, bytes@),
            forall|j: int| 0 <= j < point ==> text@[j] != '.',
        decreases length - point,
    {
        point += 1;
    }
    let after: usize = if point < length {
        point + 1
    } else {
        length
    };
    proof {
        lemma_point_position_found(text@, point as int);
        assert(fraction_digits(text@) =~= text@.subrange(after as int, length as int));
    }
    let ghost whole_part = text@.subrange(0, point as int);
    let ghost fraction = text@.subrange(after as int, length as int);
    if !digits_between(bytes, 0, point, Ghost(text@)) {
        return Err(AmountError::Malformed);
    }
    if !digits_between(bytes, after, length, Ghost(text@)) {
        return Err(AmountError::Malformed);
    }
    if point == 0 && after == length {
        return Err(AmountError::Malformed);
    }
    let whole = value_between(bytes, 0, point, Ghost(text@));
    let past_point = value_between(bytes, after, length, Ghost(text@));
    proof {
        lemma_amount_keeps_nine_decimals(text@);
        lemma_digits_value_concat(whole_part, fraction);
        lemma_pow10_positive(fraction.len());
        lemma_pow10_values();
        assert(digits_value(whole_part) * pow10(fraction.len()) >= digits_value(whole_part))
            by (nonlinear_arith)
            requires
                pow10(fraction.len()) >= 1,
        ;
        assert(0 * pow10(fraction.len()) == 0) by (nonlinear_arith);
    }
    if whole == Some(0) && past_point == Some(0) {
        return Err(AmountError::NotPositive);
    }
    let whole_units: u64 = match whole {
        Some(units) => units,
        None => {
            return Err(AmountError::OutOfRange);
        },
    };
    let kept_end: usize = if length - after > 9 {
        after + 9
    } else {
        length
    };
    let ghost kept = text@.subrange(after as int, kept_end as int);
    proof {
        assert(kept =~= fraction.take(kept_end - after));
        assert(all_digits(kept)) by {
            assert forall|i: int| 0 <= i < kept.len() implies is_digit(#[trigger] kept[i]) by {
                assert(kept[i] == fraction[i]);
            }
        }
        lemma_digits_value_bound(kept);
        lemma_pow10_increases(kept.len(), 9);
        if fraction.len() <= 9 {
            assert(kept =~= fraction);
        }
    }
    let kept_value: u64 = match value_between(bytes, after, kept_end, Ghost(text@)) {
        Some(value) => value,
        None => {
            return Err(AmountError::OutOfRange);
        },
    };
    let shift = power_of_ten((9 - (kept_end - after)) as u32);
    assert(kept_value * shift == kept_fraction(fraction)) by {
        if fraction.len() > 9 {
            assert(shift == 1);
        }
    }
    let part: u64 = kept_value * shift;
    if whole_units > (u64::MAX - part) / BASE_UNITS_PER_DISPLAY_UNIT {
        return Err(AmountError::OutOfRange);
    }
    Ok(whole_units * BASE_UNITS_PER_DISPLAY_UNIT + part)
}

/// The text that shows a positive count of base units reads back as that
/// count.
pub proof fn lemma_parse_inverts_display(base_units: u64)
    requires
        base_units > 0,
    ensures
        spec_parse_display_amount(spec_display(base_units as nat)) == Ok::<u64, AmountError>(
            base_units,
        ),
{
    let count = base_units as nat;
    let text = spec_display(count);
    let whole = count / pow10(9);
    let rest = count % pow10(9);
    let before = decimal_text(whole);
    lemma_pow10_values();
    lemma_decimal_text_value(whole);
    assert forall|j: int| 0 <= j < before.len() implies before[j] != '.' by {
        assert(is_digit(before[j]));
    }
    if rest == 0 {
        lemma_point_position_found(text, text.len() as int);
        assert(integer_digits(text) =~= before);
        assert(fraction_digits(text) =~= Seq::<char>::empty());
        lemma_amount_keeps_nine_decimals(text);
        assert(0 * pow10(9) == 0) by (nonlinear_arith);
    } else {
        let after = fraction_text(rest, 9);
        lemma_fraction_text_value(rest, 9);
        assert(text =~= before + seq!['.'] + after);
        assert forall|j: int| 0 <= j < before.len() implies text[j] != '.' by {
            assert(text[j] == before[j]);
        }
        lemma_point_position_found(text, before.len() as int);
        assert(integer_digits(text) =~= before);
        assert(fraction_digits(text) =~= after);
        lemma_amount_keeps_nine_decimals(text);
    }
    if amount_numerator(text) == 0 {
        assert(0 * pow10(9) == 0) by (nonlinear_arith);
        lemma_pow10_positive(fraction_digits(text).len());
        assert(0int / (pow10(fraction_digits(text).len()) as int) == 0) by (nonlinear_arith)
            requires
                pow10(fraction_digits(text).len()) >= 1,
        ;
    }
}

} // verus!
