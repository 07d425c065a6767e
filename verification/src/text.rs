//! Character-level text handling: splitting a line into words, comparing and
//! lower-casing text, and putting text together.

use vstd::prelude::*;

use crate::errors::ParseError;

verus! {

/// `String::push` appends one character to the end of a string and leaves
/// what stood there before.
pub assume_specification[ String::push ](s: &mut String, ch: char)
    ensures
        final(s)@ == old(s)@.push(ch),
;

/// The index of the first character of `s` that `found` holds of, or the
/// length of `s` if it holds of none.
pub open spec fn position(s: Seq<char>, found: spec_fn(char) -> bool) -> int
    decreases s.len(),
{
    if s.len() == 0 || found(s[0]) {
        0
    } else {
        1 + position(s.drop_first(), found)
    }
}

/// Whether `c` separates two words.
pub open spec fn is_space(c: char) -> bool {
    c == ' '
}

/// Whether `c` ends the command at the start of a line.
pub open spec fn ends_command(c: char) -> bool {
    c == ' ' || c == '#' || c == ':'
}

/// Where the command at the start of `s` ends.
pub open spec fn command_end(s: Seq<char>) -> int {
    position(s, |c: char| ends_command(c))
}

/// The command at the start of `s`.
pub open spec fn command(s: Seq<char>) -> Seq<char> {
    s.take(command_end(s))
}

/// What follows the command of `s` and the one character that ends it.
pub open spec fn after_command(s: Seq<char>) -> Seq<char> {
    if command_end(s) < s.len() {
        s.skip(command_end(s) + 1)
    } else {
        Seq::empty()
    }
}

/// The pieces of `s` between its spaces. There is always at least one piece,
/// and a piece may be empty.
pub open spec fn words(s: Seq<char>) -> Seq<Seq<char>>
    decreases s.len(),
{
    let end = position(s, |c: char| is_space(c));
    if end < s.len() {
        proof {
            lemma_position(s, |c: char| is_space(c));
        }
        seq![s.take(end)] + words(s.skip(end + 1))
    } else {
        seq![s]
    }
}

/// `c` with an ASCII capital letter replaced by the small one.
pub open spec fn lower_char(c: char) -> char {
    if 'A' <= c <= 'Z' {
        (c as u32 + 32) as char
    } else {
        c
    }
}

/// `s` with its ASCII capital letters replaced by the small ones.
pub open spec fn lower(s: Seq<char>) -> Seq<char> {
    s.map_values(|c: char| lower_char(c))
}

/// The texts of a sequence of string slices.
pub open spec fn texts(v: Seq<&str>) -> Seq<Seq<char>> {
    v.map_values(|t: &str| t@)
}

/// All pieces of `parts` from index `from` on, one after the other.
pub open spec fn joined(parts: Seq<Seq<char>>, from: int) -> Seq<char>
    decreases parts.len() - from,
{
    if from < parts.len() {
        parts[from] + joined(parts, from + 1)
    } else {
        Seq::empty()
    }
}

/// All pieces of `parts`, each after a space.
pub open spec fn spaced(parts: Seq<Seq<char>>) -> Seq<char>
    decreases parts.len(),
{
    if parts.len() == 0 {
        Seq::empty()
    } else {
        spaced(parts.drop_last()).push(' ') + parts.last()
    }
}

/// One more piece comes at the end, after a space.
pub broadcast proof fn spaced_push(parts: Seq<Seq<char>>, part: Seq<char>)
    ensures
        #[trigger] spaced(parts.push(part)) == spaced(parts).push(' ') + part,
{
    assert(parts.push(part).drop_last() == parts);
}

/// The word at index `i`, unless there are not as many.
pub open spec fn word(parts: Seq<Seq<char>>, i: int) -> Result<Seq<char>, ParseError> {
    if i < parts.len() {
        Ok(parts[i])
    } else {
        Err(ParseError::UnexpectedEnd)
    }
}

/// The text of a word that was read, or why none was.
pub open spec fn read_text(r: Result<&str, ParseError>) -> Result<Seq<char>, ParseError> {
    match r {
        Ok(s) => Ok(s@),
        Err(e) => Err(e),
    }
}

/// Nothing before `position` matches, and what stands at it does, unless it is
/// the length.
pub proof fn lemma_position(s: Seq<char>, found: spec_fn(char) -> bool)
    ensures
        0 <= position(s, found) <= s.len(),
        forall|i: int| 0 <= i < position(s, found) ==> !found(#[trigger] s[i]),
        position(s, found) < s.len() ==> found(s[position(s, found)]),
    decreases s.len(),
{
    if s.len() > 0 && !found(s[0]) {
        let rest = s.drop_first();
        lemma_position(rest, found);
        assert forall|i: int| 0 <= i < position(s, found) implies !found(#[trigger] s[i]) by {
            if i > 0 {
                assert(s[i] == rest[i - 1]);
            }
        }
    }
}

/// An index that no match stands before and a match stands at, unless it is
/// the length, is `position`.
pub proof fn lemma_position_is(s: Seq<char>, found: spec_fn(char) -> bool, at: int)
    requires
        0 <= at <= s.len(),
        forall|i: int| 0 <= i < at ==> !found(#[trigger] s[i]),
        at < s.len() ==> found(s[at]),
    ensures
        position(s, found) == at,
{
    lemma_position(s, found);
    let p = position(s, found);
    if p < at {
        assert(!found(s[p]));
    } else if at < p {
        assert(!found(s[at]));
    }
}

/// The characters of `s`.
pub fn chars_of(s: &str) -> (r: Vec<char>)
    ensures
        r@ == s@,
{
    let mut r: Vec<char> = Vec::new();
    for c in it: s.chars()
        invariant
            it.seq() == s@,
            r@ == s@.take(it.index() as int),
    {
        r.push(c);
    }
    r
}

/// Splits a line into its command and what follows it.
pub fn split_command(s: &str) -> (r: (&str, &str))
    ensures
        r.0@ == command(s@),
        r.1@ == after_command(s@),
{
    let chars = chars_of(s);
    let mut i: usize = 0;
    while i < chars.len() && !(chars[i] == ' ' || chars[i] == '#' || chars[i] == ':')
        invariant
            chars@ == s@,
            i <= chars.len(),
            forall|j: int| 0 <= j < i ==> !ends_command(#[trigger] s@[j]),
        decreases chars.len() - i,
    {
        i += 1;
    }
    proof {
        lemma_position_is(s@, |c: char| ends_command(c), i as int);
    }
    let head = s.substring_char(0, i);
    if i < chars.len() {
        (head, s.substring_char(i + 1, chars.len()))
    } else {
        (head, s.substring_char(i, i))
    }
}

/// Splits `s` at its spaces.
pub fn split_words(s: &str) -> (r: Vec<&str>)
    ensures
        texts(r@) == words(s@),
        r@.len() > 0,
{
    let chars = chars_of(s);
    let mut r: Vec<&str> = Vec::new();
    let mut start: usize = 0;
    let mut i: usize = 0;
    assert(s@.skip(0) == s@);
    assert(texts(r@) + words(s@) == words(s@));
    while i < chars.len()
        invariant
            chars@ == s@,
            start <= i <= chars.len(),
            forall|j: int| start <= j < i ==> !is_space(#[trigger] s@[j]),
            texts(r@) + words(s@.skip(start as int)) == words(s@),
        decreases chars.len() - i,
    {
        if chars[i] == ' ' {
            let ghost rest = s@.skip(start as int);
            let ghost before = texts(r@);
            let ghost piece = rest.take(i - start);
            proof {
                lemma_position_is(rest, |c: char| is_space(c), i - start);
                assert(piece == s@.subrange(start as int, i as int));
                assert(rest.skip(i - start + 1) == s@.skip(i + 1));
            }
            r.push(s.substring_char(start, i));
            start = i + 1;
            proof {
                assert(texts(r@) == before.push(piece));
                assert(before + (seq![piece] + words(s@.skip(start as int)))
                    == texts(r@) + words(s@.skip(start as int)));
            }
        }
        i += 1;
    }
    let ghost rest = s@.skip(start as int);
    let ghost before = texts(r@);
    proof {
        lemma_position_is(rest, |c: char| is_space(c), rest.len() as int);
        assert(rest == s@.subrange(start as int, i as int));
    }
    r.push(s.substring_char(start, i));
    assert(texts(r@) == before + seq![rest]);
    r
}

/// Whether `a` and `b` are the same text.
pub fn same_text(a: &str, b: &str) -> (r: bool)
    ensures
        r == (a@ == b@),
{
    let x = chars_of(a);
    let y = chars_of(b);
    if x.len() != y.len() {
        return false;
    }
    let mut i: usize = 0;
    while i < x.len()
        invariant
            x@ == a@,
            y@ == b@,
            x.len() == y.len(),
            i <= x.len(),
            forall|j: int| 0 <= j < i ==> x@[j] == y@[j],
        decreases x.len() - i,
    {
        if x[i] != y[i] {
            return false;
        }
        i += 1;
    }
    assert(a@ =~= b@);
    true
}

/// `s` with its ASCII capital letters replaced by the small ones.
pub fn to_lower(s: &str) -> (r: String)
    ensures
        r@ == lower(s@),
{
    let mut r = String::new();
    for c in it: s.chars()
        invariant
            it.seq() == s@,
            r@ == lower(s@).take(it.index() as int),
    {
        let low = if 'A' <= c && c <= 'Z' {
            (c as u8 + 32) as char
        } else {
            c
        };
        r.push(low);
    }
    r
}

/// All words from index `from` on, one after the other.
pub fn join_words(parts: &Vec<&str>, from: usize) -> (r: String)
    requires
        from <= parts.len(),
    ensures
        r@ == joined(texts(parts@), from as int),
{
    let mut r = String::new();
    let mut i: usize = from;
    while i < parts.len()
        invariant
            from <= i <= parts.len(),
            r@ + joined(texts(parts@), i as int) == joined(texts(parts@), from as int),
        decreases parts.len() - i,
    {
        let ghost before = r@;
        r.append(parts[i]);
        i += 1;
        proof {
            assert(texts(parts@)[i - 1] == parts@[i - 1]@);
            assert(before + (parts@[i - 1]@ + joined(texts(parts@), i as int))
                == r@ + joined(texts(parts@), i as int));
        }
    }
    r
}

/// `s` without its last character, if it has one.
pub fn without_last(s: &str) -> (r: Option<&str>)
    ensures
        r is Some <==> s@.len() > 0,
        r matches Some(t) ==> t@ == s@.drop_last(),
{
    let len = s.unicode_len();
    if len == 0 {
        None
    } else {
        Some(s.substring_char(0, len - 1))
    }
}

/// The word at index `i`, unless there are not as many.
pub fn read_word<'a>(parts: &Vec<&'a str>, i: usize) -> (r: Result<&'a str, ParseError>)
    ensures
        read_text(r) == word(texts(parts@), i as int),
{
    if i < parts.len() {
        Ok(parts[i])
    } else {
        Err(ParseError::UnexpectedEnd)
    }
}

} // verus!
