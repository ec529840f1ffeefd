//! Text: comparison, numbers in decimal, and numbers read from decimal.

use vstd::prelude::*;
use vstd::string::*;

verus! {

/// The outcome is `expected`, whose error is given as the text of a message.
pub open spec fn same_outcome<T>(
    outcome: Result<T, String>,
    expected: Result<T, Seq<char>>,
) -> bool {
    match outcome {
        Ok(value) => expected == Ok::<T, Seq<char>>(value),
        Err(message) => expected == Err::<T, Seq<char>>(message@),
    }
}

/// The two texts are the same.
pub fn same_text(a: &str, b: &str) -> (same: bool)
    ensures
        same == (a@ == b@),
{
    let left: &[u8] = a.as_bytes();
    let right: &[u8] = b.as_bytes();
    proof {
        vstd::utf8::encode_utf8_decode_utf8(a@);
        vstd::utf8::encode_utf8_decode_utf8(b@);
    }
    if left.len() != right.len() {
        return false;
    }
    let mut i: usize = 0;
    while i < left.len()
        invariant
            left@ == a.spec_bytes(),
            right@ == b.spec_bytes(),
            left@.len() == right@.len(),
            i <= left@.len(),
            forall|j: int| 0 <= j < i ==> left@[j] == right@[j],
        decreases left@.len() - i,
    {
        if left[i] != right[i] {
            return false;
        }
        i = i + 1;
    }
    assert(left@ =~= right@);
    true
}

/// The decimal digit that stands for `digit`.
pub open spec fn digit_char(digit: nat) -> char {
    ('0' as nat + digit) as char
}

/// `value` in decimal, without leading zeros.
pub open spec fn decimal(value: nat) -> Seq<char>
    decreases value,
{
    if value < 10 {
        seq![digit_char(value)]
    } else {
        decimal(value / 10).push(digit_char(value % 10))
    }
}

/// The character is a decimal digit.
pub open spec fn is_digit(c: char) -> bool {
    '0' <= c && c <= '9'
}

/// The number that a row of decimal digits stands for.
pub open spec fn decimal_value(digits: Seq<char>) -> nat
    decreases digits.len(),
{
    if digits.len() == 0 {
        0
    } else {
        (10 * decimal_value(digits.drop_last()) + (digits.last() as int - '0' as int)) as nat
    }
}

/// The text behind one leading plus sign, where there is one.
pub open spec fn without_plus(text: Seq<char>) -> Seq<char> {
    if text.len() > 0 && text[0] == '+' {
        text.skip(1)
    } else {
        text
    }
}

/// The number that a text gives: one or more decimal digits, which a plus sign may precede, and
/// nothing else; the number has to fit.
pub open spec fn parsed_u32(text: Seq<char>) -> Option<u32> {
    let digits = without_plus(text);
    if digits.len() > 0 && (forall|i: int|
        0 <= i < digits.len() ==> is_digit(#[trigger] digits[i])) && decimal_value(digits)
        <= u32::MAX {
        Some(decimal_value(digits) as u32)
    } else {
        None
    }
}

fn digit_text(digit: u64) -> (text: &'static str)
    requires
        digit < 10,
    ensures
        text@ == seq![digit_char(digit as nat)],
{
    proof {
        reveal_strlit("0");
        reveal_strlit("1");
        reveal_strlit("2");
        reveal_strlit("3");
        reveal_strlit("4");
        reveal_strlit("5");
        reveal_strlit("6");
        reveal_strlit("7");
        reveal_strlit("8");
        reveal_strlit("9");
    }
    match digit {
        0 => "0",
        1 => "1",
        2 => "2",
        3 => "3",
        4 => "4",
        5 => "5",
        6 => "6",
        7 => "7",
        8 => "8",
        _ => "9",
    }
}

/// Writes `value` in decimal.
pub fn decimal_text(value: u64) -> (text: String)
    ensures
        text@ == decimal(value as nat),
    decreases value,
{
    if value < 10 {
        digit_text(value).to_owned()
    } else {
        let mut text: String = decimal_text(value / 10);
        text.append(digit_text(value % 10));
        assert(text@ =~= decimal(value as nat));
        text
    }
}

/// More digits never stand for a smaller number.
proof fn lemma_prefix_value(digits: Seq<char>, count: int)
    requires
        0 <= count <= digits.len(),
        forall|i: int| 0 <= i < digits.len() ==> is_digit(#[trigger] digits[i]),
    ensures
        decimal_value(digits.take(count)) <= decimal_value(digits),
    decreases digits.len(),
{
    if count < digits.len() {
        let init = digits.drop_last();
        assert forall|i: int| 0 <= i < init.len() implies is_digit(#[trigger] init[i]) by {
            assert(init[i] == digits[i]);
        }
        assert(init.take(count) =~= digits.take(count));
        assert(is_digit(digits[digits.len() - 1]));
        lemma_prefix_value(init, count);
    } else {
        assert(digits.take(count) =~= digits);
    }
}

/// The code of the plus sign.
const PLUS: u8 = 43;

/// The code of the digit zero.
const ZERO: u8 = 48;

/// The code of the digit nine.
const NINE: u8 = 57;

/// Reads a number from a text.
pub fn parse_u32(text: &str) -> (value: Option<u32>)
    ensures
        value == parsed_u32(text@),
{
    let ghost chars = text@;
    let ghost digits = without_plus(chars);
    if !text.is_ascii() {
        proof {
            let at = choose|i: int|
                0 <= i < chars.len() && !('\0' <= #[trigger] chars[i] && chars[i] <= '\u{7f}');
            let place = at - (chars.len() - digits.len());
            assert(digits[place] == chars[at]);
            assert(!is_digit(digits[place]));
        }
        return None;
    }
    let bytes: &[u8] = text.as_bytes();
    proof {
        vstd::utf8::is_ascii_chars_encode_utf8(chars);
    }
    let start: usize = if bytes.len() > 0 && bytes[0] == PLUS {
        1
    } else {
        0
    };
    assert(digits =~= chars.skip(start as int));
    if bytes.len() == start {
        return None;
    }
    let mut value: u32 = 0;
    let mut i: usize = start;
    assert(digits.take(0) =~= Seq::<char>::empty());
    while i < bytes.len()
        invariant
            chars == text@,
            digits == without_plus(chars),
            digits == chars.skip(start as int),
            vstd::utf8::is_ascii_chars(chars),
            bytes@.len() == chars.len(),
            forall|j: int| 0 <= j < chars.len() ==> chars[j] as u8 == #[trigger] bytes@[j],
            0 <= start < bytes@.len(),
            start <= i <= bytes@.len(),
            forall|j: int| 0 <= j < i - start ==> is_digit(#[trigger] digits[j]),
            value == decimal_value(digits.take(i - start)),
        decreases bytes@.len() - i,
    {
        let byte: u8 = bytes[i];
        let ghost place = i - start;
        assert(digits[place] == chars[i as int]);
        assert(chars[i as int] as u8 == byte);
        if byte < ZERO || byte > NINE {
            assert(!is_digit(digits[place]));
            return None;
        }
        let digit: u32 = (byte - ZERO) as u32;
        proof {
            let more = digits.take(place + 1);
            assert(more.drop_last() =~= digits.take(place));
            assert(more.last() == digits[place]);
            assert(decimal_value(more) == 10 * value + digit);
            if forall|j: int| 0 <= j < digits.len() ==> is_digit(#[trigger] digits[j]) {
                lemma_prefix_value(digits, place + 1);
            }
        }
        match value.checked_mul(10) {
            Some(tens) => match tens.checked_add(digit) {
                Some(sum) => {
                    value = sum;
                },
                None => {
                    return None;
                },
            },
            None => {
                return None;
            },
        }
        i = i + 1;
    }
    assert(digits.take(i - start) =~= digits);
    Some(value)
}

/// A number in decimal ends in its remainder by ten, behind the tenth of it in decimal.
pub proof fn law_decimal_digits(value: nat)
    ensures
        decimal(value).last() as int == 48 + value % 10,
        value < 10 ==> decimal(value).len() == 1,
        value >= 10 ==> decimal(value).drop_last() == decimal(value / 10),
{
    if value >= 10 {
        assert(decimal(value).drop_last() =~= decimal(value / 10));
    }
}

/// No number in decimal starts with a zero, but for zero itself.
pub proof fn law_decimal_has_no_leading_zero(value: nat)
    ensures
        decimal(value)[0] == '0' ==> value == 0,
    decreases value,
{
    if value >= 10 {
        law_decimal_has_no_leading_zero(value / 10);
        law_decimal_reads_back(value / 10);
        assert(decimal(value)[0] == decimal(value / 10)[0]);
    }
}

/// No two numbers look alike in decimal.
pub proof fn law_decimal_tells_numbers_apart(a: nat, b: nat)
    requires
        decimal(a) == decimal(b),
    ensures
        a == b,
{
    law_decimal_reads_back(a);
    law_decimal_reads_back(b);
}

/// One more digit makes a number ten times as large, and adds the digit.
pub proof fn law_digits_add_up(digits: Seq<char>, digit: char)
    requires
        '0' <= digit && digit <= '9',
    ensures
        decimal_value(Seq::empty()) == 0,
        decimal_value(digits.push(digit)) == 10 * decimal_value(digits) + (digit as int - 48),
{
    assert(digits.push(digit).drop_last() =~= digits);
}

/// A text is read as a number if and only if it is a row of digits, which one plus sign may precede,
/// that stands for a number of 32 bits; and then as that number.
pub proof fn law_numbers_are_read(text: Seq<char>, digits: Seq<char>)
    requires
        text == seq!['+'] + digits || (text == digits && (text.len() == 0 || text[0] != '+')),
    ensures
        parsed_u32(text) is Some <==> {
            &&& digits.len() > 0
            &&& forall|i: int|
                0 <= i < digits.len() ==> '0' <= #[trigger] digits[i] && digits[i] <= '9'
            &&& decimal_value(digits) < 0x1_0000_0000
        },
        parsed_u32(text) is Some ==> parsed_u32(text)->0 == decimal_value(digits),
{
    assert((seq!['+'] + digits).skip(1) =~= digits);
    assert(without_plus(text) == digits);
}

/// A number that is written in decimal, with a plus sign or without, is read as it was where it has
/// 32 bits, and refused where it has more.
pub proof fn law_written_numbers_are_read(value: nat)
    ensures
        value <= u32::MAX ==> parsed_u32(decimal(value)) == Some(value as u32),
        value <= u32::MAX ==> parsed_u32(seq!['+'] + decimal(value)) == Some(value as u32),
        value > u32::MAX ==> parsed_u32(decimal(value)) is None,
        value > u32::MAX ==> parsed_u32(seq!['+'] + decimal(value)) is None,
{
    law_decimal_reads_back(value);
    let plain = decimal(value);
    assert(is_digit(plain[0]));
    assert(without_plus(plain) == plain);
    assert((seq!['+'] + plain).skip(1) =~= plain);
}

/// An outcome that is as expected succeeds exactly where success is expected, with that value or
/// that message.
pub proof fn law_outcomes_agree<T>(outcome: Result<T, String>, expected: Result<T, Seq<char>>)
    requires
        same_outcome(outcome, expected),
    ensures
        outcome is Ok <==> expected is Ok,
        outcome is Ok ==> outcome->Ok_0 == expected->Ok_0,
        outcome is Err ==> outcome->Err_0@ == expected->Err_0,
{
}

/// A number that was written in decimal reads back as it was.
pub proof fn law_decimal_reads_back(value: nat)
    ensures
        decimal(value).len() > 0,
        forall|i: int| 0 <= i < decimal(value).len() ==> is_digit(#[trigger] decimal(value)[i]),
        decimal_value(decimal(value)) == value,
    decreases value,
{
    if value < 10 {
        assert(decimal(value).drop_last() =~= Seq::<char>::empty());
        assert(decimal_value(decimal(value).drop_last()) == 0);
    } else {
        law_decimal_reads_back(value / 10);
        assert(decimal(value).drop_last() =~= decimal(value / 10));
    }
}

} // verus!
