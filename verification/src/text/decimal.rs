//! Numbers written in decimal digits.

use vstd::prelude::*;

verus! {

/// The digit for a value below ten.
pub open spec fn digit_char(value: nat) -> char {
    (0x30 + value) as char
}

/// A decimal digit.
pub open spec fn is_digit(c: char) -> bool {
    '0' <= c && c <= '9'
}

/// The value of a decimal digit.
pub open spec fn digit_value(c: char) -> nat {
    (c as int - 0x30) as nat
}

/// A number in decimal digits, without sign and without leading zeros.
pub open spec fn decimal(n: nat) -> Seq<char>
    decreases n,
{
    if n < 10 {
        seq![digit_char(n)]
    } else {
        decimal(n / 10).push(digit_char(n % 10))
    }
}

/// The number that a text of decimal digits stands for; leading zeros count
/// for nothing, and the empty text stands for zero.
pub open spec fn decimal_value(digits: Seq<char>) -> nat
    decreases digits.len(),
{
    if digits.len() == 0 {
        0
    } else {
        decimal_value(digits.drop_last()) * 10 + digit_value(digits.last())
    }
}

/// Every character of the text is a decimal digit.
pub open spec fn all_digits(text: Seq<char>) -> bool {
    forall|i: int| 0 <= i < text.len() ==> is_digit(#[trigger] text[i])
}

/// A number's decimal text is made of digits, is not empty, and stands for
/// the number.
pub proof fn lemma_decimal_round_trip(n: nat)
    ensures
        decimal(n).len() > 0,
        all_digits(decimal(n)),
        decimal_value(decimal(n)) == n,
    decreases n,
{
    if n < 10 {
        assert(decimal(n).drop_last() == Seq::<char>::empty());
        assert(decimal_value(decimal(n).drop_last()) == 0);
    } else {
        lemma_decimal_round_trip(n / 10);
        assert(decimal(n).drop_last() == decimal(n / 10));
    }
}

/// Appends a number in decimal digits.
pub fn push_decimal(text: &mut String, n: u16)
    ensures
        final(text)@ == old(text)@ + decimal(n as nat),
    decreases n,
{
    if n >= 10 {
        push_decimal(text, n / 10);
    }
    let digit: u8 = (n % 10) as u8;
    text.push((0x30 + digit) as char);
}

/// The digits of a number that may be written with a `+` before it.
pub open spec fn number_digits(text: Seq<char>) -> Seq<char> {
    if text.len() > 0 && text[0] == '+' {
        text.skip(1)
    } else {
        text
    }
}

/// The text is an unsigned decimal number that fits a `usize`: one or more
/// digits, with or without a `+` before them and nothing else around them.
pub open spec fn is_number(text: Seq<char>) -> bool {
    &&& number_digits(text).len() > 0
    &&& all_digits(number_digits(text))
    &&& decimal_value(number_digits(text)) <= usize::MAX
}

/// The number that such a text stands for.
pub open spec fn number_value(text: Seq<char>) -> nat {
    decimal_value(number_digits(text))
}

/// A text of digits stands for no less than any of its beginnings does.
pub proof fn lemma_decimal_value_grows(digits: Seq<char>, n: int)
    requires
        0 <= n <= digits.len(),
    ensures
        decimal_value(digits.take(n)) <= decimal_value(digits),
    decreases digits.len(),
{
    if n == digits.len() {
        assert(digits.take(n) == digits);
    } else {
        lemma_decimal_value_grows(digits.drop_last(), n);
        assert(digits.drop_last().take(n) == digits.take(n));
    }
}

/// Reads the first `end` characters as an unsigned decimal number, and gives
/// nothing where there are not as many, where they are no number, or where
/// the number does not fit.
pub fn parse_number(chars: &Vec<char>, end: usize) -> (value: Option<usize>)
    ensures
        value is Some <==> end <= chars.len() && is_number(chars@.take(end as int)),
        value matches Some(n) ==> n == number_value(chars@.take(end as int)),
{
    if end > chars.len() {
        return None;
    }
    let ghost text = chars@.take(end as int);
    let start: usize = if end > 0 && chars[0] == '+' {
        1
    } else {
        0
    };
    let ghost digits = number_digits(text);
    assert(digits == chars@.subrange(start as int, end as int));
    if start == end {
        return None;
    }
    let mut value: usize = 0;
    let mut i: usize = start;
    assert(digits.take(0) == Seq::<char>::empty());
    while i < end
        invariant
            start <= i <= end <= chars.len(),
            digits == chars@.subrange(start as int, end as int),
            digits == number_digits(chars@.take(end as int)),
            all_digits(digits.take(i - start)),
            value == decimal_value(digits.take(i - start)),
        decreases end - i,
    {
        let c = chars[i];
        assert(digits[i - start] == c);
        if c < '0' || c > '9' {
            assert(!is_digit(digits[i - start]));
            return None;
        }
        let digit: usize = (c as u32 - 0x30) as usize;
        proof {
            let next = digits.take(i - start + 1);
            assert(next.drop_last() == digits.take(i - start));
            assert(next.last() == c);
            assert(decimal_value(next) == value * 10 + digit);
            lemma_decimal_value_grows(digits, i - start + 1);
            assert forall|j: int| 0 <= j < next.len() implies is_digit(#[trigger] next[j]) by {
                if j < i - start {
                    assert(next[j] == digits.take(i - start)[j]);
                }
            }
        }
        if value > (usize::MAX - digit) / 10 {
            assert(decimal_value(digits) > usize::MAX);
            return None;
        }
        value = value * 10 + digit;
        i += 1;
    }
    assert(digits.take(end - start) == digits);
    Some(value)
}

} // verus!
