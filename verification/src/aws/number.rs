//! Numbers as the table holds them: in decimal digits.

use crate::string::chars_of;
use vstd::prelude::*;
use vstd::string::*;

verus! {

/// The character of the digit `d`.
pub open spec fn digit_char(d: int) -> char {
    if d == 0 {
        '0'
    } else if d == 1 {
        '1'
    } else if d == 2 {
        '2'
    } else if d == 3 {
        '3'
    } else if d == 4 {
        '4'
    } else if d == 5 {
        '5'
    } else if d == 6 {
        '6'
    } else if d == 7 {
        '7'
    } else if d == 8 {
        '8'
    } else {
        '9'
    }
}

/// `c` is one of the ten digits.
pub open spec fn is_digit(c: char) -> bool {
    '0' <= c && c <= '9'
}

/// The digit that `c` is.
pub open spec fn digit_value(c: char) -> int {
    c as int - '0' as int
}

/// `n` in decimal digits, with no sign and no leading zero.
pub open spec fn decimal(n: nat) -> Seq<char>
    decreases n,
{
    if n < 10 {
        seq![digit_char(n as int)]
    } else {
        decimal(n / 10).push(digit_char((n % 10) as int))
    }
}

/// All characters of `text` are digits.
pub open spec fn all_digits(text: Seq<char>) -> bool {
    forall|i: int| 0 <= i < text.len() ==> is_digit(#[trigger] text[i])
}

/// The number that the digits of `text` spell.
pub open spec fn digits_value(text: Seq<char>) -> nat
    decreases text.len(),
{
    if text.len() == 0 {
        0
    } else {
        (digits_value(text.drop_last()) * 10 + digit_value(text.last())) as nat
    }
}

/// `text` without a leading plus sign.
pub open spec fn unsigned_part(text: Seq<char>) -> Seq<char> {
    if text.len() > 0 && text[0] == '+' {
        text.drop_first()
    } else {
        text
    }
}

/// Why a text is no number of 64 bits.
#[derive(Debug, Clone, Copy, PartialEq, Eq, Structural)]
pub enum ParseIntError {
    /// The text is empty.
    Empty,
    /// The text holds no digit, or a character that is none.
    InvalidDigit,
    /// The digits spell a number above `u64::MAX`.
    PosOverflow,
}

/// What `text` is read as: an optional plus sign, then one digit or more,
/// leading zeros among them, that spell a number of 64 bits.
pub open spec fn parsed(text: Seq<char>) -> Result<u64, ParseIntError> {
    let digits = unsigned_part(text);
    if text.len() == 0 {
        Err(ParseIntError::Empty)
    } else if digits.len() == 0 || !all_digits(digits) {
        Err(ParseIntError::InvalidDigit)
    } else if digits_value(digits) > u64::MAX {
        Err(ParseIntError::PosOverflow)
    } else {
        Ok(digits_value(digits) as u64)
    }
}

/// The value of digits only grows as more digits follow.
pub proof fn lemma_digits_value_grows(text: Seq<char>, count: int)
    requires
        all_digits(text),
        0 <= count <= text.len(),
    ensures
        digits_value(text.take(count)) <= digits_value(text),
    decreases text.len() - count,
{
    if count < text.len() {
        let longer = text.take(count + 1);
        assert(longer.drop_last() =~= text.take(count));
        assert(is_digit(text[count]));
        assert(longer.last() == text[count]);
        lemma_digits_value_grows(text, count + 1);
    } else {
        assert(text.take(count) =~= text);
    }
}

/// The decimal digits of a number are digits, and they spell the number.
pub proof fn lemma_decimal_is_read_back(n: nat)
    ensures
        decimal(n).len() > 0,
        all_digits(decimal(n)),
        digits_value(decimal(n)) == n,
        decimal(n)[0] != '+',
    decreases n,
{
    if n < 10 {
        let text = decimal(n);
        assert(text.drop_last() =~= Seq::<char>::empty());
        assert(digits_value(text.drop_last()) == 0);
    } else {
        lemma_decimal_is_read_back(n / 10);
        let text = decimal(n);
        assert(text.drop_last() =~= decimal(n / 10));
        assert(text.last() == digit_char((n % 10) as int));
        assert(text[0] == decimal(n / 10)[0]);
        assert forall|i: int| 0 <= i < text.len() implies is_digit(#[trigger] text[i]) by {
            if i < text.len() - 1 {
                assert(text[i] == decimal(n / 10)[i]);
            }
        }
    }
}

/// A number written in decimal digits is read as itself.
pub proof fn lemma_written_number_is_read(n: u64)
    ensures
        parsed(decimal(n as nat)) == Ok::<u64, ParseIntError>(n),
{
    lemma_decimal_is_read_back(n as nat);
}

/// One digit as a text.
fn digit_text(d: u8) -> (text: &'static str)
    requires
        d < 10,
    ensures
        text@ == seq![digit_char(d as int)],
{
    proof {
        reveal_strlit("0");
        reveal_strlit("1");
        reveal_strlit("2");
        reveal_strlit("3");
        reveal_strlit("4");
        reveal_strlit("5");
        reveal_strlit("6");
        reveal_strlit("7");
        reveal_strlit("8");
        reveal_strlit("9");
    }
    let text = match d {
        0 => "0",
        1 => "1",
        2 => "2",
        3 => "3",
        4 => "4",
        5 => "5",
        6 => "6",
        7 => "7",
        8 => "8",
        _ => "9",
    };
    assert(text@ =~= seq![digit_char(d as int)]);
    text
}

/// `n` in decimal digits.
pub fn to_decimal(n: u64) -> (text: String)
    ensures
        text@ == decimal(n as nat),
{
    // The digits from the last one to the first.
    let mut digits: Vec<u8> = Vec::new();
    let mut rest: u64 = n;
    while rest >= 10
        invariant
            forall|i: int| 0 <= i < digits.len() ==> #[trigger] digits[i] < 10,
            decimal(n as nat) == decimal(rest as nat) + Seq::new(
                digits.len() as nat,
                |i: int| digit_char(digits[digits.len() - 1 - i] as int),
            ),
        decreases rest,
    {
        let ghost before = digits@;
        let d: u8 = (rest % 10) as u8;
        digits.push(d);
        assert(decimal(rest as nat) == decimal((rest / 10) as nat).push(digit_char(d as int)));
        assert(decimal((rest / 10) as nat).push(digit_char(d as int)) + Seq::new(
            before.len() as nat,
            |i: int| digit_char(before[before.len() - 1 - i] as int),
        ) =~= decimal((rest / 10) as nat) + Seq::new(
            digits.len() as nat,
            |i: int| digit_char(digits[digits.len() - 1 - i] as int),
        ));
        rest = rest / 10;
    }
    let mut text = digit_text(rest as u8).to_owned();
    let mut left: usize = digits.len();
    while left > 0
        invariant
            left <= digits.len(),
            forall|i: int| 0 <= i < digits.len() ==> #[trigger] digits[i] < 10,
            text@ == seq![digit_char(rest as int)] + Seq::new(
                (digits.len() - left) as nat,
                |i: int| digit_char(digits[digits.len() - 1 - i] as int),
            ),
        decreases left,
    {
        let ghost before = text@;
        left -= 1;
        text.append(digit_text(digits[left]));
        assert(text@ =~= seq![digit_char(rest as int)] + Seq::new(
            (digits.len() - left) as nat,
            |i: int| digit_char(digits[digits.len() - 1 - i] as int),
        ));
    }
    text
}

/// Reads `text` as a number of 64 bits.
pub fn parse_decimal(text: &str) -> (number: Result<u64, ParseIntError>)
    ensures
        number == parsed(text@),
{
    let chars = chars_of(text);
    if chars.len() == 0 {
        return Err(ParseIntError::Empty);
    }
    let first: usize = if chars[0] == '+' {
        1
    } else {
        0
    };
    let ghost digits = unsigned_part(text@);
    assert(digits =~= chars@.skip(first as int));
    if first == chars.len() {
        return Err(ParseIntError::InvalidDigit);
    }
    let mut i: usize = first;
    while i < chars.len()
        invariant
            first <= i <= chars.len(),
            digits == chars@.skip(first as int),
            digits == unsigned_part(text@),
            text@.len() > 0,
            digits.len() > 0,
            forall|j: int| 0 <= j < i - first ==> is_digit(#[trigger] digits[j]),
        decreases chars.len() - i,
    {
        let c = chars[i];
        if !('0' <= c && c <= '9') {
            assert(!is_digit(digits[i - first]));
            return Err(ParseIntError::InvalidDigit);
        }
        i += 1;
    }
    assert(all_digits(digits));
    let mut value: u64 = 0;
    let mut k: usize = first;
    assert(digits.take(0) =~= Seq::<char>::empty());
    while k < chars.len()
        invariant
            first <= k <= chars.len(),
            digits == chars@.skip(first as int),
            digits == unsigned_part(text@),
            text@.len() > 0,
            digits.len() > 0,
            all_digits(digits),
            value == digits_value(digits.take(k - first)),
        decreases chars.len() - k,
    {
        let c = chars[k];
        assert(c == digits[k - first]);
        assert(is_digit(c));
        let d: u64 = (c as u32 - '0' as u32) as u64;
        let ghost longer = digits.take(k - first + 1);
        assert(longer.drop_last() =~= digits.take(k - first));
        assert(longer.last() == c);
        assert(digits_value(longer) == value * 10 + d);
        if value > (u64::MAX - d) / 10 {
            proof {
                lemma_digits_value_grows(digits, k - first + 1);
            }
            return Err(ParseIntError::PosOverflow);
        }
        value = value * 10 + d;
        k += 1;
    }
    assert(digits.take(k - first) =~= digits);
    Ok(value)
}

} // verus!
