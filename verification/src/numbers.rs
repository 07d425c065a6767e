//! Whole numbers in decimal notation: reading them out of text and writing
//! them as text.

use vstd::prelude::*;

use crate::text::chars_of;

verus! {

/// Why a text is not a number of the wanted type.
#[derive(Debug, Clone, Copy, PartialEq, Eq)]
pub enum IntegerError {
    /// There is no character at all.
    Empty,
    /// A character is not a digit, or nothing follows the sign.
    InvalidDigit,
    /// The number is above the greatest one of the type.
    PosOverflow,
    /// The number is below the least one of the type.
    NegOverflow,
}

impl IntegerError {
    /// What the error says in words.
    pub open spec fn spec_message(self) -> Seq<char> {
        match self {
            IntegerError::Empty => "cannot parse integer from empty string"@,
            IntegerError::InvalidDigit => "invalid digit found in string"@,
            IntegerError::PosOverflow => "number too large to fit in target type"@,
            IntegerError::NegOverflow => "number too small to fit in target type"@,
        }
    }

    /// What the error says in words.
    pub fn message(self) -> (r: &'static str)
        ensures
            r@ == self.spec_message(),
    {
        match self {
            IntegerError::Empty => "cannot parse integer from empty string",
            IntegerError::InvalidDigit => "invalid digit found in string",
            IntegerError::PosOverflow => "number too large to fit in target type",
            IntegerError::NegOverflow => "number too small to fit in target type",
        }
    }
}

/// Whether `c` is a decimal digit.
pub open spec fn is_digit(c: char) -> bool {
    '0' <= c <= '9'
}

/// The value of the digit `c`.
pub open spec fn digit_value(c: char) -> int {
    c as int - '0' as int
}

/// The digit that stands for `d`.
pub open spec fn digit_char(d: nat) -> char {
    ('0' as u32 + d) as char
}

/// The number that the digits of `s` write, unless one of its characters is
/// no digit or the number is above `limit`. Of several reasons to fail the
/// leftmost counts, and above the limit is what the number gets at the digit
/// that takes it there.
pub open spec fn magnitude(s: Seq<char>, limit: int, overflow: IntegerError) -> Result<
    int,
    IntegerError,
>
    decreases s.len(),
{
    if s.len() == 0 {
        Ok(0)
    } else {
        match magnitude(s.drop_last(), limit, overflow) {
            Err(e) => Err(e),
            Ok(n) => if !is_digit(s.last()) {
                Err(IntegerError::InvalidDigit)
            } else if n * 10 + digit_value(s.last()) > limit {
                Err(overflow)
            } else {
                Ok(n * 10 + digit_value(s.last()))
            },
        }
    }
}

/// The number from 0 to `max` that `s` writes in decimal, with or without a
/// plus sign.
pub open spec fn unsigned_value(s: Seq<char>, max: int) -> Result<int, IntegerError> {
    if s.len() == 0 {
        Err(IntegerError::Empty)
    } else if s[0] == '+' && s.len() > 1 {
        magnitude(s.drop_first(), max, IntegerError::PosOverflow)
    } else {
        magnitude(s, max, IntegerError::PosOverflow)
    }
}

/// The number from `min` to `max` that `s` writes in decimal, with or without
/// a sign.
pub open spec fn signed_value(s: Seq<char>, min: int, max: int) -> Result<int, IntegerError> {
    if s.len() > 1 && s[0] == '-' {
        match magnitude(s.drop_first(), -min, IntegerError::NegOverflow) {
            Ok(n) => Ok(-n),
            Err(e) => Err(e),
        }
    } else {
        unsigned_value(s, max)
    }
}

/// `n` in decimal, without leading zeros.
pub open spec fn decimal(n: nat) -> Seq<char>
    decreases n,
{
    if n < 10 {
        seq![digit_char(n)]
    } else {
        decimal(n / 10).push(digit_char(n % 10))
    }
}

/// `n` in decimal, without leading zeros, and with a minus sign if it is
/// below zero.
pub open spec fn signed_decimal(n: int) -> Seq<char> {
    if n < 0 {
        seq!['-'] + decimal((-n) as nat)
    } else {
        decimal(n as nat)
    }
}

/// Once a prefix has failed, so has the whole.
proof fn lemma_magnitude_prefix(s: Seq<char>, limit: int, overflow: IntegerError, i: int)
    requires
        0 <= i <= s.len(),
        magnitude(s.take(i), limit, overflow) is Err,
    ensures
        magnitude(s, limit, overflow) == magnitude(s.take(i), limit, overflow),
    decreases s.len(),
{
    if i < s.len() {
        assert(s.drop_last().take(i) == s.take(i));
        lemma_magnitude_prefix(s.drop_last(), limit, overflow, i);
    } else {
        assert(s.take(i) == s);
    }
}

fn read_magnitude(chars: &Vec<char>, from: usize, limit: u64, overflow: IntegerError) -> (r: Result<
    u64,
    IntegerError,
>)
    requires
        from <= chars.len(),
    ensures
        r matches Ok(n) ==> n <= limit && magnitude(
            chars@.skip(from as int),
            limit as int,
            overflow,
        ) == Ok::<int, IntegerError>(n as int),
        r matches Err(e) ==> magnitude(chars@.skip(from as int), limit as int, overflow) == Err::<
            int,
            IntegerError,
        >(e),
{
    let ghost s = chars@.skip(from as int);
    let mut n: u64 = 0;
    let mut i: usize = from;
    while i < chars.len()
        invariant
            from <= i <= chars.len(),
            s == chars@.skip(from as int),
            n <= limit,
            magnitude(s.take(i - from), limit as int, overflow) == Ok::<int, IntegerError>(n as int),
        decreases chars.len() - i,
    {
        let c = chars[i];
        proof {
            assert(s.take(i - from + 1).drop_last() == s.take(i - from));
            assert(s.take(i - from + 1).last() == c);
        }
        if !('0' <= c && c <= '9') {
            proof {
                lemma_magnitude_prefix(s, limit as int, overflow, i - from + 1);
            }
            return Err(IntegerError::InvalidDigit);
        }
        let next: u128 = n as u128 * 10 + (c as u8 - 48) as u128;
        if next > limit as u128 {
            proof {
                lemma_magnitude_prefix(s, limit as int, overflow, i - from + 1);
            }
            return Err(overflow);
        }
        n = next as u64;
        i += 1;
    }
    assert(s.take(i - from) == s);
    Ok(n)
}

fn read_unsigned(s: &str, max: u64) -> (r: Result<u64, IntegerError>)
    ensures
        r matches Ok(n) ==> n <= max && unsigned_value(s@, max as int) == Ok::<int, IntegerError>(
            n as int,
        ),
        r matches Err(e) ==> unsigned_value(s@, max as int) == Err::<int, IntegerError>(e),
{
    let chars = chars_of(s);
    if chars.len() == 0 {
        return Err(IntegerError::Empty);
    }
    let from: usize = if chars[0] == '+' && chars.len() > 1 {
        1
    } else {
        0
    };
    assert(chars@.skip(0) == chars@);
    assert(chars@.skip(1) == chars@.drop_first());
    read_magnitude(&chars, from, max, IntegerError::PosOverflow)
}

/// The text `s` as a `u32`.
pub open spec fn u32_value(s: Seq<char>) -> Result<u32, IntegerError> {
    match unsigned_value(s, u32::MAX as int) {
        Ok(n) => Ok(n as u32),
        Err(e) => Err(e),
    }
}

/// The text `s` as a `u64`.
pub open spec fn u64_value(s: Seq<char>) -> Result<u64, IntegerError> {
    match unsigned_value(s, u64::MAX as int) {
        Ok(n) => Ok(n as u64),
        Err(e) => Err(e),
    }
}

/// The text `s` as an `i32`.
pub open spec fn i32_value(s: Seq<char>) -> Result<i32, IntegerError> {
    match signed_value(s, i32::MIN as int, i32::MAX as int) {
        Ok(n) => Ok(n as i32),
        Err(e) => Err(e),
    }
}

/// Reads a `u32`.
pub fn read_u32(s: &str) -> (r: Result<u32, IntegerError>)
    ensures
        r == u32_value(s@),
{
    match read_unsigned(s, u32::MAX as u64) {
        Ok(n) => Ok(n as u32),
        Err(e) => Err(e),
    }
}

/// Reads a `u64`.
pub fn read_u64(s: &str) -> (r: Result<u64, IntegerError>)
    ensures
        r == u64_value(s@),
{
    read_unsigned(s, u64::MAX)
}

/// Reads an `i32`.
pub fn read_i32(s: &str) -> (r: Result<i32, IntegerError>)
    ensures
        r == i32_value(s@),
{
    let chars = chars_of(s);
    if chars.len() > 1 && chars[0] == '-' {
        assert(chars@.skip(1) == chars@.drop_first());
        match read_magnitude(&chars, 1, 2147483648, IntegerError::NegOverflow) {
            Ok(n) => Ok((-(n as i64)) as i32),
            Err(e) => Err(e),
        }
    } else {
        match read_unsigned(s, i32::MAX as u64) {
            Ok(n) => Ok(n as i32),
            Err(e) => Err(e),
        }
    }
}

/// Appends `n` in decimal.
pub fn write_u64(out: &mut String, n: u64)
    ensures
        final(out)@ == old(out)@ + decimal(n as nat),
    decreases n,
{
    if n >= 10 {
        write_u64(out, n / 10);
    }
    out.push((48 + (n % 10) as u8) as char);
    assert(out@ =~= old(out)@ + decimal(n as nat));
}

/// Appends `n` in decimal.
pub fn write_u32(out: &mut String, n: u32)
    ensures
        final(out)@ == old(out)@ + decimal(n as nat),
{
    write_u64(out, n as u64);
}

/// Appends `n` in decimal.
pub fn write_i32(out: &mut String, n: i32)
    ensures
        final(out)@ == old(out)@ + signed_decimal(n as int),
{
    if n < 0 {
        out.push('-');
        write_u64(out, (-(n as i64)) as u64);
    } else {
        write_u64(out, n as u64);
    }
    assert(out@ =~= old(out)@ + signed_decimal(n as int));
}

/// The decimal notation of a number holds nothing but digits, and at least one.
pub proof fn decimal_is_digits(n: nat)
    ensures
        decimal(n).len() > 0,
        forall|i: int| 0 <= i < decimal(n).len() ==> is_digit(#[trigger] decimal(n)[i]),
    decreases n,
{
    if n >= 10 {
        decimal_is_digits(n / 10);
    }
}

proof fn lemma_magnitude_decimal(n: nat, limit: int, overflow: IntegerError)
    requires
        n <= limit,
    ensures
        magnitude(decimal(n), limit, overflow) == Ok::<int, IntegerError>(n as int),
    decreases n,
{
    if n >= 10 {
        lemma_magnitude_decimal(n / 10, limit, overflow);
        assert(decimal(n).drop_last() == decimal(n / 10));
        assert(decimal(n).last() == digit_char(n % 10));
    } else {
        let s = seq![digit_char(n)];
        assert(s.drop_last() == Seq::<char>::empty());
        assert(magnitude(s.drop_last(), limit, overflow) == Ok::<int, IntegerError>(0));
    }
}

/// A `u32` is read back from its decimal notation.
pub proof fn u32_read_back(n: u32)
    ensures
        u32_value(decimal(n as nat)) == Ok::<u32, IntegerError>(n),
{
    decimal_is_digits(n as nat);
    assert(is_digit(decimal(n as nat)[0]));
    lemma_magnitude_decimal(n as nat, u32::MAX as int, IntegerError::PosOverflow);
}

/// A `u64` is read back from its decimal notation.
pub proof fn u64_read_back(n: u64)
    ensures
        u64_value(decimal(n as nat)) == Ok::<u64, IntegerError>(n),
{
    decimal_is_digits(n as nat);
    assert(is_digit(decimal(n as nat)[0]));
    lemma_magnitude_decimal(n as nat, u64::MAX as int, IntegerError::PosOverflow);
}

/// An `i32` is read back from its decimal notation.
pub proof fn i32_read_back(n: i32)
    ensures
        i32_value(signed_decimal(n as int)) == Ok::<i32, IntegerError>(n),
{
    let m: nat = if n < 0 {
        (-n) as nat
    } else {
        n as nat
    };
    decimal_is_digits(m);
    assert(is_digit(decimal(m)[0]));
    if n < 0 {
        assert(signed_decimal(n as int).drop_first() == decimal(m));
        lemma_magnitude_decimal(m, -(i32::MIN as int), IntegerError::NegOverflow);
    } else {
        lemma_magnitude_decimal(m, i32::MAX as int, IntegerError::PosOverflow);
    }
}

} // verus!
