//! Decimal numbers as text: reading an unsigned number, and writing one.

use vstd::prelude::*;
use crate::error::Error;
use crate::text::{chars_of, push_char};

verus! {

/// Why a text is not a number of the wanted size.
#[derive(Debug, Clone, Copy, PartialEq, Eq, Structural)]
pub enum NumberFault {
    /// The text is empty.
    Empty,
    /// A character is no decimal digit, or a sign stands alone.
    InvalidDigit,
    /// The number is larger than the largest one wanted.
    TooLarge,
    /// The number is smaller than the smallest one wanted.
    TooSmall,
}

/// Whether a character is a decimal digit.
pub open spec fn is_digit(c: char) -> bool {
    '0' <= c <= '9'
}

/// The number that a decimal digit stands for.
pub open spec fn digit_value(c: char) -> nat {
    (c as nat - '0' as nat) as nat
}

/// The number that a run of decimal digits stands for.
pub open spec fn digits_value(s: Seq<char>) -> nat
    decreases s.len(),
{
    if s.len() == 0 {
        0
    } else {
        digits_value(s.drop_last()) * 10 + digit_value(s.last())
    }
}

/// Reads digits from left to right and stops at the first character that
/// is no digit, or where the number grows beyond `max`.
pub open spec fn scan_digits(s: Seq<char>, max: nat) -> Result<nat, NumberFault>
    decreases s.len(),
{
    if s.len() == 0 {
        Ok(0)
    } else {
        match scan_digits(s.drop_last(), max) {
            Err(fault) => Err(fault),
            Ok(value) => if !is_digit(s.last()) {
                Err(NumberFault::InvalidDigit)
            } else if value * 10 + digit_value(s.last()) > max {
                Err(NumberFault::TooLarge)
            } else {
                Ok(value * 10 + digit_value(s.last()))
            },
        }
    }
}

/// The unsigned number that a text stands for: decimal digits, with one
/// `+` allowed in front, and a value of at most `max`.
pub open spec fn unsigned_of(s: Seq<char>, max: nat) -> Result<nat, NumberFault> {
    if s.len() == 0 {
        Err(NumberFault::Empty)
    } else {
        let body = if s[0] == '+' {
            s.skip(1)
        } else {
            s
        };
        if body.len() == 0 {
            Err(NumberFault::InvalidDigit)
        } else {
            scan_digits(body, max)
        }
    }
}

/// Digits that are read without fault stand for the number read, and it is
/// at most `max`.
pub proof fn lemma_scan_value(s: Seq<char>, max: nat)
    ensures
        scan_digits(s, max) matches Ok(value) ==> {
            &&& value == digits_value(s)
            &&& value <= max
            &&& forall|i: int| 0 <= i < s.len() ==> is_digit(#[trigger] s[i])
        },
    decreases s.len(),
{
    if s.len() > 0 {
        lemma_scan_value(s.drop_last(), max);
        if scan_digits(s, max) is Ok {
            assert forall|i: int| 0 <= i < s.len() implies is_digit(#[trigger] s[i]) by {
                if i < s.len() - 1 {
                    assert(s[i] == s.drop_last()[i]);
                }
            }
        }
    }
}

/// The number of a digit character.
fn digit_of(c: char) -> (d: u64)
    requires
        is_digit(c),
    ensures
        d == digit_value(c),
        d <= 9,
{
    (c as u32 - '0' as u32) as u64
}

/// Reads an unsigned decimal number of at most `max` from a text.
#[verifier::loop_isolation(false)]
pub fn parse_unsigned(s: &str, max: u64) -> (r: Result<u64, NumberFault>)
    ensures
        match unsigned_of(s@, max as nat) {
            Ok(value) => r == Ok::<u64, NumberFault>(value as u64) && value <= max,
            Err(fault) => r == Err::<u64, NumberFault>(fault),
        },
{
    let chars = chars_of(s);
    if chars.len() == 0 {
        return Err(NumberFault::Empty);
    }
    let start: usize = if chars[0] == '+' {
        1
    } else {
        0
    };
    if start == chars.len() {
        assert(chars@.skip(1).len() == 0);
        return Err(NumberFault::InvalidDigit);
    }
    let ghost body = chars@.skip(start as int);
    assert(chars@.skip(0) == chars@);
    assert(unsigned_of(s@, max as nat) == scan_digits(body, max as nat));
    let mut value: u64 = 0;
    let mut i: usize = start;
    assert(body.take(0) == Seq::<char>::empty());
    while i < chars.len()
        invariant
            start <= i <= chars.len(),
            body == chars@.skip(start as int),
            scan_digits(body.take(i - start), max as nat) == Ok::<nat, NumberFault>(value as nat),
            value <= max,
        decreases chars.len() - i,
    {
        let c = chars[i];
        proof {
            let upto = body.take(i - start + 1);
            assert(upto.drop_last() == body.take(i - start));
            assert(upto.last() == c);
            lemma_scan_fault_stays(body, i - start + 1, max as nat);
        }
        if !(c >= '0' && c <= '9') {
            assert(scan_digits(body.take(i - start + 1), max as nat) == Err::<nat, NumberFault>(
                NumberFault::InvalidDigit,
            ));
            return Err(NumberFault::InvalidDigit);
        }
        let d = digit_of(c);
        if d > max || value > (max - d) / 10 {
            assert(value * 10 + d > max);
            assert(scan_digits(body.take(i - start + 1), max as nat) == Err::<nat, NumberFault>(
                NumberFault::TooLarge,
            ));
            return Err(NumberFault::TooLarge);
        }
        assert(value * 10 + d <= max);
        value = value * 10 + d;
        i += 1;
    }
    assert(i - start == body.len());
    assert(body.take(body.len() as int) == body);
    Ok(value)
}

/// A fault found in the first `n` characters is the fault of the whole
/// text.
pub proof fn lemma_scan_fault_stays(s: Seq<char>, n: int, max: nat)
    requires
        0 <= n <= s.len(),
    ensures
        scan_digits(s.take(n), max) matches Err(fault) ==> scan_digits(s, max) == Err::<
            nat,
            NumberFault,
        >(fault),
    decreases s.len() - n,
{
    if n < s.len() {
        lemma_scan_fault_stays(s, n + 1, max);
        assert(s.take(n + 1).drop_last() == s.take(n));
    } else {
        assert(s.take(n) == s);
    }
}

/// The decimal digit for a number below ten.
pub open spec fn digit_char(d: nat) -> char {
    if d == 0 {
        '0'
    } else if d == 1 {
        '1'
    } else if d == 2 {
        '2'
    } else if d == 3 {
        '3'
    } else if d == 4 {
        '4'
    } else if d == 5 {
        '5'
    } else if d == 6 {
        '6'
    } else if d == 7 {
        '7'
    } else if d == 8 {
        '8'
    } else {
        '9'
    }
}

/// A number in decimal digits, without leading zeros; zero is `0`.
pub open spec fn decimal(n: nat) -> Seq<char>
    decreases n,
{
    if n < 10 {
        seq![digit_char(n)]
    } else {
        decimal(n / 10).push(digit_char(n % 10))
    }
}

/// The character for a digit.
fn char_of_digit(d: u64) -> (c: char)
    requires
        d < 10,
    ensures
        c == digit_char(d as nat),
{
    if d == 0 {
        '0'
    } else if d == 1 {
        '1'
    } else if d == 2 {
        '2'
    } else if d == 3 {
        '3'
    } else if d == 4 {
        '4'
    } else if d == 5 {
        '5'
    } else if d == 6 {
        '6'
    } else if d == 7 {
        '7'
    } else if d == 8 {
        '8'
    } else {
        '9'
    }
}

/// The decimal digits of a number.
pub fn decimal_chars(n: u64) -> (out: Vec<char>)
    ensures
        out@ == decimal(n as nat),
    decreases n,
{
    if n < 10 {
        let mut out: Vec<char> = Vec::new();
        out.push(char_of_digit(n));
        out
    } else {
        let mut out = decimal_chars(n / 10);
        out.push(char_of_digit(n % 10));
        out
    }
}

impl NumberFault {
    /// The message for the fault.
    pub open spec fn text(self) -> Seq<char> {
        match self {
            NumberFault::Empty => "cannot parse integer from empty string"@,
            NumberFault::InvalidDigit => "invalid digit found in string"@,
            NumberFault::TooLarge => "number too large to fit in target type"@,
            NumberFault::TooSmall => "number too small to fit in target type"@,
        }
    }

    /// The fault as an error with its message.
    pub fn into_error(self) -> (e: Error)
        ensures
            e.text() == self.text(),
    {
        match self {
            NumberFault::Empty => Error::StrErr("cannot parse integer from empty string"),
            NumberFault::InvalidDigit => Error::StrErr("invalid digit found in string"),
            NumberFault::TooLarge => Error::StrErr("number too large to fit in target type"),
            NumberFault::TooSmall => Error::StrErr("number too small to fit in target type"),
        }
    }
}

/// Writes a number in decimal digits at the end of a string.
pub fn append_number(out: &mut String, n: u64)
    ensures
        final(out)@ == old(out)@ + decimal(n as nat),
{
    let digits = decimal_chars(n);
    let ghost head = out@;
    let mut i: usize = 0;
    assert(head + digits@.take(0) == head);
    while i < digits.len()
        invariant
            i <= digits.len(),
            out@ == head + digits@.take(i as int),
        decreases digits.len() - i,
    {
        assert(head + digits@.take(i + 1) == (head + digits@.take(i as int)).push(
            digits@[i as int],
        ));
        push_char(out, digits[i]);
        i += 1;
    }
    assert(digits@.take(digits.len() as int) == digits@);
}

/// Reads the digits of a negative number from left to right and stops at
/// the first character that is no digit, or where the number falls below
/// `min`.
pub open spec fn scan_negative(s: Seq<char>, min: int) -> Result<int, NumberFault>
    decreases s.len(),
{
    if s.len() == 0 {
        Ok(0)
    } else {
        match scan_negative(s.drop_last(), min) {
            Err(fault) => Err(fault),
            Ok(value) => if !is_digit(s.last()) {
                Err(NumberFault::InvalidDigit)
            } else if value * 10 - digit_value(s.last()) < min {
                Err(NumberFault::TooSmall)
            } else {
                Ok(value * 10 - digit_value(s.last()))
            },
        }
    }
}

/// The number that a text stands for: decimal digits with one `+` or `-`
/// allowed in front, and a value from `min` to `max`.
pub open spec fn signed_of(s: Seq<char>, min: int, max: nat) -> Result<int, NumberFault> {
    if s.len() == 0 {
        Err(NumberFault::Empty)
    } else if s[0] == '-' {
        if s.len() == 1 {
            Err(NumberFault::InvalidDigit)
        } else {
            scan_negative(s.skip(1), min)
        }
    } else {
        match unsigned_of(s, max) {
            Ok(value) => Ok(value as int),
            Err(fault) => Err(fault),
        }
    }
}

/// A fault found in the first `n` digits of a negative number is the fault
/// of the whole text.
pub proof fn lemma_scan_negative_fault_stays(s: Seq<char>, n: int, min: int)
    requires
        0 <= n <= s.len(),
    ensures
        scan_negative(s.take(n), min) matches Err(fault) ==> scan_negative(s, min) == Err::<
            int,
            NumberFault,
        >(fault),
    decreases s.len() - n,
{
    if n < s.len() {
        lemma_scan_negative_fault_stays(s, n + 1, min);
        assert(s.take(n + 1).drop_last() == s.take(n));
    } else {
        assert(s.take(n) == s);
    }
}

/// Reads a 64-bit signed decimal number from a text.
#[verifier::loop_isolation(false)]
pub fn parse_signed(s: &str) -> (r: Result<i64, NumberFault>)
    ensures
        match signed_of(s@, i64::MIN as int, i64::MAX as nat) {
            Ok(value) => r == Ok::<i64, NumberFault>(value as i64) && i64::MIN <= value <= i64::MAX,
            Err(fault) => r == Err::<i64, NumberFault>(fault),
        },
{
    let chars = chars_of(s);
    if chars.len() > 0 && chars[0] == '-' {
        if chars.len() == 1 {
            return Err(NumberFault::InvalidDigit);
        }
        let ghost body = chars@.skip(1);
        let mut value: i64 = 0;
        let mut i: usize = 1;
        assert(body.take(0) == Seq::<char>::empty());
        while i < chars.len()
            invariant
                1 <= i <= chars.len(),
                scan_negative(body.take(i - 1), i64::MIN as int) == Ok::<int, NumberFault>(
                    value as int,
                ),
                value <= 0,
            decreases chars.len() - i,
        {
            let c = chars[i];
            proof {
                let upto = body.take(i as int);
                assert(upto.drop_last() == body.take(i - 1));
                assert(upto.last() == c);
                lemma_scan_negative_fault_stays(body, i as int, i64::MIN as int);
            }
            if !(c >= '0' && c <= '9') {
                assert(scan_negative(body.take(i as int), i64::MIN as int) == Err::<
                    int,
                    NumberFault,
                >(NumberFault::InvalidDigit));
                return Err(NumberFault::InvalidDigit);
            }
            let d = digit_of(c) as i128;
            let next: i128 = value as i128 * 10 - d;
            if next < i64::MIN as i128 {
                assert(scan_negative(body.take(i as int), i64::MIN as int) == Err::<
                    int,
                    NumberFault,
                >(NumberFault::TooSmall));
                return Err(NumberFault::TooSmall);
            }
            value = next as i64;
            i += 1;
        }
        assert(body.take(body.len() as int) == body);
        Ok(value)
    } else {
        match parse_unsigned(s, i64::MAX as u64) {
            Ok(value) => Ok(value as i64),
            Err(fault) => Err(fault),
        }
    }
}

/// A number in decimal digits, with a minus sign in front where it is
/// negative.
pub open spec fn signed_decimal(n: int) -> Seq<char> {
    if n < 0 {
        seq!['-'] + decimal((-n) as nat)
    } else {
        decimal(n as nat)
    }
}

/// Writes a signed number in decimal digits at the end of a string.
pub fn append_signed(out: &mut String, n: i64)
    ensures
        final(out)@ == old(out)@ + signed_decimal(n as int),
{
    if n < 0 {
        push_char(out, '-');
        let size: u64 = (-(n as i128)) as u64;
        append_number(out, size);
        assert(old(out)@.push('-') + decimal(size as nat) == old(out)@ + (seq!['-'] + decimal(
            size as nat,
        )));
    } else {
        append_number(out, n as u64);
    }
}

} // verus!
