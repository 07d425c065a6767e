//! How text is cut into words and how numbers are written and read: what holds
//! of the calls that do it.

use vstd::prelude::*;

use crate::errors::ParseError;
use crate::numbers::{
    decimal, magnitude, read_i32, read_u32, read_u64, signed_decimal, signed_value, unsigned_value,
    write_i32, write_u32, write_u64, IntegerError,
};
use crate::text::{
    command_end, ends_command, is_space, join_words, joined, lemma_position, position, read_word,
    same_text, spaced, spaced_push, split_command, split_words, texts, to_lower, without_last,
    words,
};

verus! {

/// Words are written one after the other, each behind a space; no words are
/// written as nothing.
pub proof fn each_word_follows_a_space(parts: Seq<Seq<char>>, part: Seq<char>)
    ensures
        spaced(Seq::empty()) == Seq::<char>::empty(),
        spaced(parts + seq![part]) == spaced(parts) + seq![' '] + part,
{
    assert(parts + seq![part] =~= parts.push(part));
    spaced_push(parts, part);
    assert(spaced(parts).push(' ') + part =~= spaced(parts) + seq![' '] + part);
}

proof fn lemma_spaced_first(first: Seq<char>, parts: Seq<Seq<char>>)
    ensures
        spaced(seq![first] + parts) == seq![' '] + first + spaced(parts),
    decreases parts.len(),
{
    if parts.len() == 0 {
        assert(seq![first] + parts =~= Seq::<Seq<char>>::empty().push(first));
        spaced_push(Seq::empty(), first);
        assert(spaced(seq![first] + parts) =~= seq![' '] + first + spaced(parts));
    } else {
        lemma_spaced_first(first, parts.drop_last());
        assert(seq![first] + parts =~= (seq![first] + parts.drop_last()).push(parts.last()));
        spaced_push(seq![first] + parts.drop_last(), parts.last());
        assert(spaced(seq![first] + parts) =~= seq![' '] + first + spaced(parts));
    }
}

proof fn lemma_words_rejoin(s: Seq<char>)
    ensures
        words(s).len() > 0,
        s == words(s)[0] + spaced(words(s).drop_first()),
        forall|i: int, j: int|
            0 <= i < words(s).len() && 0 <= j < words(s)[i].len() ==> #[trigger] words(s)[i][j]
                != ' ',
    decreases s.len(),
{
    let end = position(s, |c: char| is_space(c));
    lemma_position(s, |c: char| is_space(c));
    if end < s.len() {
        let rest = s.skip(end + 1);
        lemma_words_rejoin(rest);
        assert(words(s) == seq![s.take(end)] + words(rest));
        assert(words(s).drop_first() =~= words(rest));
        assert(words(rest) =~= seq![words(rest)[0]] + words(rest).drop_first());
        lemma_spaced_first(words(rest)[0], words(rest).drop_first());
        assert(is_space(s[end]));
        assert(s =~= s.take(end) + (seq![' '] + rest));
        assert(s =~= words(s)[0] + spaced(words(s).drop_first()));
        assert forall|i: int, j: int|
            0 <= i < words(s).len() && 0 <= j < words(s)[i].len() implies #[trigger] words(
            s,
        )[i][j] != ' ' by {
            if i == 0 {
                assert(s.take(end)[j] == s[j]);
                assert(!is_space(s[j]));
            } else {
                assert(words(s)[i] == words(rest)[i - 1]);
                assert(words(rest)[i - 1][j] != ' ');
            }
        }
    } else {
        assert(words(s) =~= seq![s]);
        assert(words(s).drop_first() =~= Seq::<Seq<char>>::empty());
        assert(s =~= words(s)[0] + spaced(words(s).drop_first()));
        assert forall|i: int, j: int|
            0 <= i < words(s).len() && 0 <= j < words(s)[i].len() implies #[trigger] words(
            s,
        )[i][j] != ' ' by {
            assert(!is_space(s[j]));
        }
    }
}

/// Text is cut at its spaces and nowhere else: there is at least one word, no
/// word holds a space, and the words with one space between each two are the
/// text.
pub proof fn words_stand_between_spaces(s: &str, r: Vec<&str>)
    requires
        call_ensures(split_words, (s,), r),
    ensures
        r@.len() > 0,
        s@ == r@[0]@ + spaced(r@.drop_first().map_values(|w: &str| w@)),
        forall|i: int, j: int|
            0 <= i < r@.len() && 0 <= j < r@[i]@.len() ==> #[trigger] r@[i]@[j] != ' ',
{
    lemma_words_rejoin(s@);
    assert(texts(r@).drop_first() =~= r@.drop_first().map_values(|w: &str| w@));
    assert(texts(r@)[0] == r@[0]@);
    assert forall|i: int, j: int| 0 <= i < r@.len() && 0 <= j < r@[i]@.len() implies #[trigger] r@[i]@[
    j] != ' ' by {
        assert(texts(r@)[i] == r@[i]@);
        assert(words(s@)[i][j] != ' ');
    }
}

/// A line is cut at its first space, number sign or colon, which belongs to
/// neither part. A line without any is a command with nothing behind it.
pub proof fn command_ends_at_the_first_separator(s: &str, r: (&str, &str))
    requires
        call_ensures(split_command, (s,), r),
    ensures
        forall|i: int|
            0 <= i < r.0@.len() ==> #[trigger] r.0@[i] != ' ' && r.0@[i] != '#' && r.0@[i] != ':',
        s@ == r.0@ + r.1@ && r.1@.len() == 0 || s@ == r.0@ + seq![' '] + r.1@ || s@ == r.0@ + seq![
            '#',
        ] + r.1@ || s@ == r.0@ + seq![':'] + r.1@,
{
    let end = command_end(s@);
    lemma_position(s@, |c: char| ends_command(c));
    assert forall|i: int| 0 <= i < r.0@.len() implies #[trigger] r.0@[i] != ' ' && r.0@[i] != '#'
        && r.0@[i] != ':' by {
        assert(r.0@[i] == s@[i]);
        assert(!ends_command(s@[i]));
    }
    if end < s@.len() {
        assert(ends_command(s@[end]));
        assert(s@ =~= r.0@ + seq![s@[end]] + r.1@);
    } else {
        assert(s@ =~= r.0@ + r.1@);
    }
}

/// Texts are the same if and only if they have the same characters.
pub proof fn same_text_compares_characters(a: &str, b: &str, r: bool)
    requires
        call_ensures(same_text, (a, b), r),
    ensures
        r <==> a@.len() == b@.len() && forall|i: int|
            0 <= i < a@.len() ==> #[trigger] a@[i] == b@[i],
{
    if a@.len() == b@.len() && forall|i: int| 0 <= i < a@.len() ==> #[trigger] a@[i] == b@[i] {
        assert(a@ =~= b@);
    }
}

/// Small letters take the place of the capital letters from `A` to `Z`, and
/// every other character stays.
pub proof fn capitals_become_small(s: &str, r: String)
    requires
        call_ensures(to_lower, (s,), r),
    ensures
        r@.len() == s@.len(),
        forall|i: int|
            0 <= i < s@.len() ==> {
                if 'A' <= #[trigger] s@[i] && s@[i] <= 'Z' {
                    r@[i] as int == s@[i] as int + 32
                } else {
                    r@[i] == s@[i]
                }
            },
{
}

proof fn lemma_joined_flat(parts: Seq<Seq<char>>, from: int)
    requires
        0 <= from <= parts.len(),
    ensures
        joined(parts, from) == parts.skip(from).flatten(),
    decreases parts.len() - from,
{
    if from < parts.len() {
        lemma_joined_flat(parts, from + 1);
        assert(parts.skip(from).drop_first() =~= parts.skip(from + 1));
        assert(parts.skip(from).first() == parts[from]);
    }
}

/// Words are joined one after the other, with nothing between them.
pub proof fn words_are_joined_in_order(parts: Vec<&str>, from: usize, r: String)
    requires
        call_ensures(join_words, (&parts, from), r),
        from <= parts@.len(),
    ensures
        r@ == parts@.skip(from as int).map_values(|w: &str| w@).flatten(),
{
    lemma_joined_flat(texts(parts@), from as int);
    assert(texts(parts@).skip(from as int) =~= parts@.skip(from as int).map_values(
        |w: &str| w@,
    ));
}

/// The last character is dropped if there is one, and no other.
pub proof fn last_character_is_dropped(s: &str, r: Option<&str>)
    requires
        call_ensures(without_last, (s,), r),
    ensures
        r is None <==> s@.len() == 0,
        r matches Some(t) ==> s@ == t@ + seq![s@.last()],
{
    if s@.len() > 0 {
        assert(s@ =~= s@.drop_last() + seq![s@.last()]);
    }
}

/// Words are counted from zero, and a word that is not there is missed.
pub proof fn missing_word_is_missed(parts: Vec<&'static str>, i: usize, r: Result<&'static str, ParseError>)
    requires
        call_ensures(read_word, (&parts, i), r),
    ensures
        i < parts@.len() ==> (r matches Ok(w) && w@ == parts@[i as int]@),
        i >= parts@.len() ==> r == Err::<&'static str, ParseError>(ParseError::UnexpectedEnd),
{
    assert(texts(parts@).len() == parts@.len());
}

/// A number below ten is written as its digit; the others are written as their
/// tenth, rounded down, with the digit of the ones behind it. A number below
/// zero is written as its opposite with a minus sign before it.
pub proof fn numbers_are_written_in_tens(n: nat, below: int)
    ensures
        n < 10 ==> decimal(n) == seq![seq!['0', '1', '2', '3', '4', '5', '6', '7', '8', '9'][n as int]],
        n >= 10 ==> decimal(n) == decimal(n / 10) + decimal(n % 10),
        signed_decimal(n as int) == decimal(n),
        below < 0 ==> signed_decimal(below) == seq!['-'] + decimal((-below) as nat),
{
    if n >= 10 {
        assert(decimal(n) =~= decimal(n / 10) + decimal(n % 10));
    }
}

/// Numbers are written behind what stands there already.
pub proof fn numbers_are_appended(
    out: &mut String,
    small: u32,
    out_large: &mut String,
    large: u64,
    out_signed: &mut String,
    signed: i32,
)
    requires
        call_ensures(write_u32, (out, small), ()),
        call_ensures(write_u64, (out_large, large), ()),
        call_ensures(write_i32, (out_signed, signed), ()),
    ensures
        final(out)@ == old(out)@ + decimal(small as nat),
        final(out_large)@ == old(out_large)@ + decimal(large as nat),
        final(out_signed)@ == old(out_signed)@ + signed_decimal(signed as int),
{
}

/// What the digit `c` adds to a number `n` that is read: nothing is read if `c`
/// is no digit, or if the number gets above `max`.
pub open spec fn one_digit_more(n: int, c: char, max: int) -> Result<int, IntegerError> {
    if !('0' <= c && c <= '9') {
        Err(IntegerError::InvalidDigit)
    } else if 10 * n + (c as int - 48) > max {
        Err(IntegerError::PosOverflow)
    } else {
        Ok(10 * n + (c as int - 48))
    }
}

proof fn lemma_magnitude_one(c: char, limit: int, overflow: IntegerError)
    requires
        limit >= 9,
    ensures
        magnitude(seq![c], limit, overflow) == if '0' <= c && c <= '9' {
            Ok::<int, IntegerError>(c as int - 48)
        } else {
            Err(IntegerError::InvalidDigit)
        },
{
    assert(seq![c].drop_last() =~= Seq::<char>::empty());
    assert(magnitude(Seq::<char>::empty(), limit, overflow) == Ok::<int, IntegerError>(0));
}

proof fn lemma_unsigned_steps(s: Seq<char>, c: char, max: int)
    requires
        max >= 9,
    ensures
        unsigned_value(Seq::empty(), max) == Err::<int, IntegerError>(IntegerError::Empty),
        unsigned_value(seq![c], max) == one_digit_more(0, c, max),
        unsigned_value(seq!['+', c], max) == one_digit_more(0, c, max),
        s.len() > 0 && s != seq!['+'] ==> unsigned_value(s.push(c), max) == match unsigned_value(
            s,
            max,
        ) {
            Ok(n) => one_digit_more(n, c, max),
            Err(e) => Err(e),
        },
{
    lemma_magnitude_one(c, max, IntegerError::PosOverflow);
    assert(seq!['+', c].drop_first() =~= seq![c]);
    if s.len() > 0 && s != seq!['+'] {
        assert(s.push(c).drop_last() =~= s);
        if s[0] == '+' {
            if s.len() == 1 {
                assert(s =~= seq!['+']);
            }
            assert(s.push(c).drop_first() =~= s.drop_first().push(c));
            assert(s.drop_first().push(c).drop_last() =~= s.drop_first());
        }
    }
}

/// A number without a sign is read digit by digit: no text is no number, a plus
/// sign may stand before the first digit, each further digit adds to ten times
/// the number before it, and the first character that is no digit or takes the
/// number out of its range is what is wrong.
pub proof fn unsigned_numbers_are_read_by_digits(
    s: &str,
    t: &str,
    c: char,
    small: (Result<u32, IntegerError>, Result<u32, IntegerError>),
    large: (Result<u64, IntegerError>, Result<u64, IntegerError>),
)
    requires
        call_ensures(read_u32, (s,), small.0),
        call_ensures(read_u32, (t,), small.1),
        call_ensures(read_u64, (s,), large.0),
        call_ensures(read_u64, (t,), large.1),
    ensures
        s@.len() == 0 ==> small.0 == Err::<u32, IntegerError>(IntegerError::Empty) && large.0
            == Err::<u64, IntegerError>(IntegerError::Empty),
        s@ == seq![c] || s@ == seq!['+', c] ==> match one_digit_more(0, c, 9) {
            Ok(n) => small.0 == Ok::<u32, IntegerError>(n as u32) && large.0 == Ok::<
                u64,
                IntegerError,
            >(n as u64),
            Err(e) => small.0 == Err::<u32, IntegerError>(e) && large.0 == Err::<u64, IntegerError>(
                e,
            ),
        },
        s@.len() > 0 && s@ != seq!['+'] && t@ == s@ + seq![c] ==> {
            &&& match small.0 {
                Ok(n) => match one_digit_more(n as int, c, 4294967295) {
                    Ok(m) => small.1 matches Ok(given) && given == m,
                    Err(e) => small.1 == Err::<u32, IntegerError>(e),
                },
                Err(e) => small.1 == Err::<u32, IntegerError>(e),
            }
            &&& match large.0 {
                Ok(n) => match one_digit_more(n as int, c, 18446744073709551615) {
                    Ok(m) => large.1 matches Ok(given) && given == m,
                    Err(e) => large.1 == Err::<u64, IntegerError>(e),
                },
                Err(e) => large.1 == Err::<u64, IntegerError>(e),
            }
        },
{
    lemma_unsigned_steps(s@, c, u32::MAX as int);
    lemma_unsigned_steps(s@, c, u64::MAX as int);
    lemma_unsigned_range(s@, u32::MAX as int);
    lemma_unsigned_range(s@, u64::MAX as int);
    if s@.len() == 0 {
        assert(s@ =~= Seq::<char>::empty());
    }
    if t@ == s@ + seq![c] {
        assert(t@ =~= s@.push(c));
    }
}

proof fn lemma_magnitude_range(s: Seq<char>, limit: int, overflow: IntegerError)
    requires
        limit >= 0,
    ensures
        magnitude(s, limit, overflow) matches Ok(n) ==> 0 <= n <= limit,
    decreases s.len(),
{
    if s.len() > 0 {
        lemma_magnitude_range(s.drop_last(), limit, overflow);
    }
}

proof fn lemma_unsigned_range(s: Seq<char>, max: int)
    requires
        max >= 0,
    ensures
        unsigned_value(s, max) matches Ok(n) ==> 0 <= n <= max,
{
    lemma_magnitude_range(s, max, IntegerError::PosOverflow);
    if s.len() > 0 {
        lemma_magnitude_range(s.drop_first(), max, IntegerError::PosOverflow);
    }
}

proof fn lemma_signed_steps(s: Seq<char>, c: char, min: int, max: int)
    requires
        max >= 9,
        min <= -9,
    ensures
        signed_value(seq!['-', c], min, max) == if '0' <= c && c <= '9' {
            Ok::<int, IntegerError>(48 - c as int)
        } else {
            Err(IntegerError::InvalidDigit)
        },
        s.len() > 1 && s[0] == '-' ==> signed_value(s.push(c), min, max) == match signed_value(
            s,
            min,
            max,
        ) {
            Ok(n) => if !('0' <= c && c <= '9') {
                Err::<int, IntegerError>(IntegerError::InvalidDigit)
            } else if 10 * n - (c as int - 48) < min {
                Err(IntegerError::NegOverflow)
            } else {
                Ok(10 * n - (c as int - 48))
            },
            Err(e) => Err(e),
        },
        s.len() > 1 && s[0] == '-' ==> (signed_value(s, min, max) matches Ok(n) ==> min <= n <= 0),
        s.len() <= 1 || s[0] != '-' ==> signed_value(s, min, max) == unsigned_value(s, max),
{
    lemma_magnitude_one(c, -min, IntegerError::NegOverflow);
    assert(seq!['-', c].drop_first() =~= seq![c]);
    if s.len() > 1 && s[0] == '-' {
        lemma_magnitude_range(s.drop_first(), -min, IntegerError::NegOverflow);
        assert(s.push(c).drop_first() =~= s.drop_first().push(c));
        assert(s.drop_first().push(c).drop_last() =~= s.drop_first());
    }
}

/// A number with a minus sign before it is read digit by digit below zero, and
/// one without as a number without a sign is.
pub proof fn signed_numbers_are_read_by_digits(
    s: &str,
    t: &str,
    c: char,
    r: (Result<i32, IntegerError>, Result<i32, IntegerError>),
)
    requires
        call_ensures(read_i32, (s,), r.0),
        call_ensures(read_i32, (t,), r.1),
    ensures
        s@.len() == 0 ==> r.0 == Err::<i32, IntegerError>(IntegerError::Empty),
        s@ == seq![c] || s@ == seq!['+', c] ==> match one_digit_more(0, c, 9) {
            Ok(n) => r.0 == Ok::<i32, IntegerError>(n as i32),
            Err(e) => r.0 == Err::<i32, IntegerError>(e),
        },
        s@ == seq!['-', c] ==> match one_digit_more(0, c, 9) {
            Ok(n) => r.0 == Ok::<i32, IntegerError>((-n) as i32),
            Err(e) => r.0 == Err::<i32, IntegerError>(e),
        },
        s@.len() > 0 && s@ != seq!['+'] && s@ != seq!['-'] && t@ == s@ + seq![c] ==> match r.0 {
            Err(e) => r.1 == Err::<i32, IntegerError>(e),
            Ok(n) => if s@[0] != '-' {
                match one_digit_more(n as int, c, 2147483647) {
                    Ok(m) => r.1 matches Ok(given) && given == m,
                    Err(e) => r.1 == Err::<i32, IntegerError>(e),
                }
            } else if !('0' <= c && c <= '9') {
                r.1 == Err::<i32, IntegerError>(IntegerError::InvalidDigit)
            } else if 10 * n - (c as int - 48) < -2147483648 {
                r.1 == Err::<i32, IntegerError>(IntegerError::NegOverflow)
            } else {
                r.1 matches Ok(given) && given == 10 * n - (c as int - 48)
            },
        },
{
    let min = i32::MIN as int;
    let max = i32::MAX as int;
    lemma_unsigned_steps(s@, c, max);
    lemma_unsigned_range(s@, max);
    lemma_signed_steps(s@, c, min, max);
    lemma_signed_steps(t@, c, min, max);
    if s@.len() == 0 {
        assert(s@ =~= Seq::<char>::empty());
    }
    if s@.len() > 0 && s@ != seq!['-'] && t@ == s@ + seq![c] {
        assert(t@ =~= s@.push(c));
        assert(t@[0] == s@[0]);
        if s@.len() == 1 && s@[0] == '-' {
            assert(s@ =~= seq!['-']);
        }
    }
}

} // verus!
