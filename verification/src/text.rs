//! Numbers in text.

use vstd::prelude::*;

verus! {

/// Whether a character is a decimal digit.
pub open spec fn is_digit(c: char) -> bool {
    '0' <= c <= '9'
}

/// The number that a sequence of digits writes.
pub open spec fn digits_value(digits: Seq<char>) -> nat
    decreases digits.len(),
{
    if digits.len() == 0 {
        0
    } else {
        digits_value(digits.drop_last()) * 10 + (digits.last() as int - '0' as int) as nat
    }
}

/// A text without the plus sign that may come first.
pub open spec fn without_sign(text: Seq<char>) -> Seq<char> {
    if text.len() > 0 && text[0] == '+' {
        text.skip(1)
    } else {
        text
    }
}

/// The number that a text writes: decimal digits, at least one, after an
/// optional plus sign, for a number no greater than `limit`.
pub open spec fn unsigned_number(text: Seq<char>, limit: nat) -> Option<nat> {
    let digits = without_sign(text);
    if digits.len() > 0 && (forall|i: int| 0 <= i < digits.len() ==> is_digit(#[trigger] digits[i]))
        && digits_value(digits) <= limit {
        Some(digits_value(digits))
    } else {
        None
    }
}

/// The decimal digits of a number.
pub open spec fn decimal(number: nat) -> Seq<char>
    decreases number,
{
    if number < 10 {
        seq![('0' as int + number) as char]
    } else {
        decimal(number / 10).push(('0' as int + number % 10) as char)
    }
}

proof fn longer_digits_are_no_smaller(digits: Seq<char>, count: int)
    requires
        0 <= count <= digits.len(),
    ensures
        digits_value(digits.take(count)) <= digits_value(digits),
    decreases digits.len(),
{
    if count == digits.len() {
        assert(digits.take(count) =~= digits);
    } else {
        longer_digits_are_no_smaller(digits.drop_last(), count);
        assert(digits.drop_last().take(count) =~= digits.take(count));
    }
}

fn digit_of(c: char) -> (digit: Option<u64>)
    ensures
        match digit {
            Some(digit) => is_digit(c) && digit == c as int - '0' as int,
            None => !is_digit(c),
        },
{
    if '0' <= c && c <= '9' {
        Some((c as u32 - '0' as u32) as u64)
    } else {
        None
    }
}

/// Reads the number in the characters from `start` up to `end`.
pub fn parse_unsigned(text: &str, start: usize, end: usize, limit: u64) -> (number: Option<u64>)
    requires
        start <= end <= text@.len(),
    ensures
        match number {
            Some(number) => unsigned_number(
                text@.subrange(start as int, end as int),
                limit as nat,
            ) == Some(number as nat),
            None => unsigned_number(text@.subrange(start as int, end as int), limit as nat) is None,
        },
{
    let ghost written = text@.subrange(start as int, end as int);
    let ghost digits = without_sign(written);
    let mut i: usize = start;
    if start < end {
        let first = text.get_char(start);
        assert(written[0] == first);
        if first == '+' {
            i = start + 1;
        }
    }
    let begin: usize = i;
    assert(digits =~= text@.subrange(begin as int, end as int));
    if begin == end {
        return None;
    }
    let mut value: u64 = 0;
    while i < end
        invariant
            begin <= i <= end <= text@.len(),
            digits == text@.subrange(begin as int, end as int),
            written == text@.subrange(start as int, end as int),
            digits == without_sign(written),
            digits.len() > 0,
            forall|k: int| 0 <= k < i - begin ==> is_digit(#[trigger] digits[k]),
            value == digits_value(digits.take(i - begin)),
            value <= limit,
        decreases end - i,
    {
        let ghost place = i - begin;
        let c = text.get_char(i);
        assert(digits[place] == c);
        let digit: u64 = match digit_of(c) {
            Some(digit) => digit,
            None => {
                return None;
            },
        };
        proof {
            assert(digits.take(place + 1).drop_last() =~= digits.take(place));
            assert(digits.take(place + 1).last() == c);
            longer_digits_are_no_smaller(digits, place + 1);
        }
        let scaled: u64 = match value.checked_mul(10) {
            Some(scaled) => scaled,
            None => {
                return None;
            },
        };
        let next: u64 = match scaled.checked_add(digit) {
            Some(next) => next,
            None => {
                return None;
            },
        };
        if next > limit {
            return None;
        }
        value = next;
        i = i + 1;
    }
    assert(digits.take(i - begin) =~= digits);
    Some(value)
}

/// Whether two texts hold the same characters.
pub fn same_text(text: &str, other: &str) -> (same: bool)
    ensures
        same == (text@ == other@),
{
    text.to_owned() == other.to_owned()
}

/// Writes the decimal digits of a number behind a text.
pub fn write_decimal(text: &mut String, number: u64)
    ensures
        final(text)@ == old(text)@ + decimal(number as nat),
    decreases number,
{
    let ghost before = text@;
    if number >= 10 {
        write_decimal(text, number / 10);
    }
    let digit: usize = (number % 10) as usize;
    let digits = "0123456789";
    proof {
        reveal_strlit("0123456789");
    }
    text.append(digits.substring_char(digit, digit + 1));
    proof {
        let written = ('0' as int + digit) as char;
        assert(digits@.subrange(digit as int, digit + 1) =~= seq![written]);
        assert(text@ =~= before + decimal(number as nat));
    }
}

/// A number that is written out is read back.
pub proof fn numbers_read_back(number: nat, limit: nat)
    requires
        number <= limit,
    ensures
        unsigned_number(decimal(number), limit) == Some(number),
{
    decimals_are_digits(number);
    let digits = decimal(number);
    assert(without_sign(digits) == digits) by {
        assert(is_digit(digits[0]));
    }
}

proof fn decimals_are_digits(number: nat)
    ensures
        decimal(number).len() > 0,
        forall|i: int| 0 <= i < decimal(number).len() ==> is_digit(#[trigger] decimal(number)[i]),
        digits_value(decimal(number)) == number,
    decreases number,
{
    let digits = decimal(number);
    if number >= 10 {
        decimals_are_digits(number / 10);
        assert(digits.drop_last() =~= decimal(number / 10));
    } else {
        assert(digits.drop_last() =~= Seq::<char>::empty());
        assert(digits_value(digits.drop_last()) == 0);
    }
}

/// A text is a number just if it is made of digits alone, at least one, after at
/// most one plus sign, and writes no more than the limit.
pub proof fn only_digits_make_numbers(text: Seq<char>, limit: nat)
    ensures
        text.len() == 0 ==> unsigned_number(text, limit) is None,
        text == seq!['+'] ==> unsigned_number(text, limit) is None,
        unsigned_number(text, limit) matches Some(number) ==> number <= limit && (forall|i: int|
            1 <= i < text.len() ==> '0' <= #[trigger] text[i] <= '9') && (text[0] == '+' || '0'
            <= text[0] <= '9'),
{
    let digits = without_sign(text);
    if unsigned_number(text, limit) is Some {
        assert forall|i: int| 1 <= i < text.len() implies '0' <= #[trigger] text[i] <= '9' by {
            if text[0] == '+' {
                assert(is_digit(digits[i - 1]));
            } else {
                assert(is_digit(digits[i]));
            }
        }
        if text[0] != '+' {
            assert(is_digit(digits[0]));
        }
    }
}

/// One more digit behind a number makes it ten times as large, and the digit
/// more.
pub proof fn digits_count_by_tens(digits: Seq<char>, last: char)
    requires
        '0' <= last <= '9',
    ensures
        digits_value(digits.push(last)) == 10 * digits_value(digits) + (last as int - '0' as int),
        digits_value(Seq::empty()) == 0,
{
    assert(digits.push(last).drop_last() =~= digits);
}

/// A number is written without a sign and without leading zeros.
pub proof fn numbers_are_written_in_short(number: nat)
    ensures
        decimal(number).len() >= 1,
        number > 0 ==> decimal(number)[0] != '0',
        number < 10 ==> decimal(number).len() == 1,
        number >= 10 ==> decimal(number).len() == decimal(number / 10).len() + 1,
    decreases number,
{
    if number >= 10 {
        numbers_are_written_in_short(number / 10);
        assert(decimal(number)[0] == decimal(number / 10)[0]);
    }
}

} // verus!
