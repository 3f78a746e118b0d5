//! Text: numbers in decimal, white space, and the parts of a file name.
use std::num::ParseIntError;
use vstd::prelude::*;
use vstd::string::*;

verus! {

/// `String::push`: appends the character to the end of the string.
pub assume_specification[ String::push ](s: &mut String, c: char)
    ensures
        final(s)@ == old(s)@.push(c),
;

/// `char::is_whitespace`: whether the character has Unicode's `White_Space`
/// property, whose members are those of [`white_space`].
pub assume_specification[ char::is_whitespace ](c: char) -> (r: bool)
    ensures
        r == white_space(c),
;

/// Why a text is no number: the standard library's error.
#[verifier::external_type_specification]
#[verifier::external_body]
pub struct ExParseIntError(ParseIntError);

/// The error that `str::parse` gives for a text that is no `u32`.
pub uninterp spec fn number_fault(s: Seq<char>) -> ParseIntError;

/// What `ParseIntError` displays.
pub uninterp spec fn number_fault_text(e: ParseIntError) -> Seq<char>;

/// `str::parse::<u32>`: the number that the text writes as an optional plus sign
/// and then decimal digits only. A text of any other form, or a number beyond
/// `u32::MAX`, is an error, which depends on the text alone.
#[verifier::external_body]
pub(crate) fn parse_number(s: &str) -> (r: Result<u32, ParseIntError>)
    ensures
        r matches Ok(n) ==> number(s@) == Some(n),
        r matches Err(e) ==> number(s@) is None && e == number_fault(s@),
{
    s.parse::<u32>()
}

/// `ParseIntError`'s `Display`, by its name.
#[verifier::external_body]
pub(crate) fn fault_text(e: &ParseIntError) -> (r: String)
    ensures
        r@ == number_fault_text(*e),
{
    e.to_string()
}

/// The members of Unicode's `White_Space` property.
pub open spec fn white_space(c: char) -> bool {
    ||| '\u{9}' <= c <= '\u{d}'
    ||| c == ' '
    ||| c == '\u{85}'
    ||| c == '\u{a0}'
    ||| c == '\u{1680}'
    ||| '\u{2000}' <= c <= '\u{200a}'
    ||| c == '\u{2028}'
    ||| c == '\u{2029}'
    ||| c == '\u{202f}'
    ||| c == '\u{205f}'
    ||| c == '\u{3000}'
}

/// Whether every character is a decimal digit.
pub open spec fn all_digits(s: Seq<char>) -> bool {
    forall|i: int| 0 <= i < s.len() ==> '0' <= #[trigger] s[i] <= '9'
}

/// The number that decimal digits write.
pub open spec fn digits_value(s: Seq<char>) -> nat
    decreases s.len(),
{
    if s.len() == 0 {
        0
    } else {
        digits_value(s.drop_last()) * 10 + (s.last() as nat - '0' as nat) as nat
    }
}

/// The `u32` that a text writes: an optional plus sign, then digits only.
pub open spec fn number(s: Seq<char>) -> Option<u32> {
    let digits = if s.len() > 0 && s[0] == '+' {
        s.skip(1)
    } else {
        s
    };
    if digits.len() > 0 && all_digits(digits) && digits_value(digits) <= u32::MAX {
        Some(digits_value(digits) as u32)
    } else {
        None
    }
}

/// The decimal digit of a number below ten.
pub open spec fn digit(n: nat) -> char {
    ('0' as nat + n) as char
}

/// A number in decimal, without leading zeros.
pub open spec fn decimal(n: nat) -> Seq<char>
    decreases n,
{
    if n < 10 {
        seq![digit(n)]
    } else {
        decimal(n / 10).push(digit(n % 10))
    }
}

/// A number in decimal, with a leading zero where it has one digit.
pub open spec fn two_digits(n: nat) -> Seq<char> {
    if n < 10 {
        seq!['0'] + decimal(n)
    } else {
        decimal(n)
    }
}

/// Appends a number in decimal.
pub(crate) fn push_decimal(out: &mut String, n: u32)
    ensures
        final(out)@ == old(out)@ + decimal(n as nat),
    decreases n,
{
    if n >= 10 {
        push_decimal(out, n / 10);
    }
    out.push((48 + (n % 10) as u8) as char);
}

/// Appends a number in decimal with at least two digits.
pub(crate) fn push_two_digits(out: &mut String, n: u32)
    ensures
        final(out)@ == old(out)@ + two_digits(n as nat),
{
    if n < 10 {
        out.push('0');
    }
    push_decimal(out, n);
}

/// The text with every dot turned into a space.
pub open spec fn dots_to_spaces(s: Seq<char>) -> Seq<char> {
    s.map_values(
        |c: char|
            if c == '.' {
                ' '
            } else {
                c
            },
    )
}

/// The text without the white space that it starts with.
pub open spec fn trim_start(s: Seq<char>) -> Seq<char>
    decreases s.len(),
{
    if s.len() > 0 && white_space(s[0]) {
        trim_start(s.skip(1))
    } else {
        s
    }
}

/// The text without the white space that it ends with.
pub open spec fn trim_end(s: Seq<char>) -> Seq<char>
    decreases s.len(),
{
    if s.len() > 0 && white_space(s.last()) {
        trim_end(s.drop_last())
    } else {
        s
    }
}

/// The text without the white space around it.
pub open spec fn trim(s: Seq<char>) -> Seq<char> {
    trim_end(trim_start(s))
}

/// A file name as its base and its extension: what stands before and after the
/// last dot, or the whole name and nothing where it has no dot.
pub open spec fn split_name(name: Seq<char>) -> (Seq<char>, Option<Seq<char>>) {
    match name.index_of_last('.') {
        Some(i) => (name.take(i), Some(name.skip(i + 1))),
        None => (name, None),
    }
}

/// The characters of a text.
pub(crate) fn chars_of(s: &str) -> (r: Vec<char>)
    ensures
        r@ == s@,
{
    let mut out: Vec<char> = Vec::new();
    for c in it: s.chars()
        invariant
            it.seq() == s@,
            out@ == s@.take(it.index() as int),
    {
        out.push(c);
    }
    out
}

/// The characters from one index up to another, as a text.
pub(crate) fn text_of(chars: &Vec<char>, from: usize, to: usize) -> (r: String)
    requires
        from <= to <= chars.len(),
    ensures
        r@ == chars@.subrange(from as int, to as int),
{
    let mut out = String::new();
    for i in from..to
        invariant
            from <= to <= chars.len(),
            out@ == chars@.subrange(from as int, i as int),
    {
        out.push(chars[i]);
    }
    out
}

/// Splits a file name at its last dot.
pub fn split_at_last_dot(name: &str) -> (r: (String, Option<String>))
    ensures
        r.0@ == split_name(name@).0,
        r.1 is Some <==> split_name(name@).1 is Some,
        r.1 matches Some(ext) ==> split_name(name@).1 == Some(ext@),
{
    let chars = chars_of(name);
    proof {
        name@.index_of_last_ensures('.');
    }
    let mut i: usize = chars.len();
    while i > 0
        invariant
            i <= chars.len(),
            chars@ == name@,
            forall|j: int| i <= j < chars.len() ==> chars@[j] != '.',
            match name@.index_of_last('.') {
                Some(k) => 0 <= k < name@.len() && name@[k] == '.' && forall|j: int|
                    k < j < name@.len() ==> name@[j] != '.',
                None => forall|j: int| 0 <= j < name@.len() ==> name@[j] != '.',
            },
        decreases i,
    {
        i = i - 1;
        if chars[i] == '.' {
            assert(name@.index_of_last('.') == Some(i as int));
            return (text_of(&chars, 0, i), Some(text_of(&chars, i + 1, chars.len())));
        }
    }
    assert(name@.index_of_last('.') is None);
    (text_of(&chars, 0, chars.len()), None)
}

/// A name as it is searched for: dots read as spaces, and no space around it.
pub fn sanitize(name: &str) -> (r: String)
    ensures
        r@ == trim(dots_to_spaces(name@)),
{
    let mut chars = chars_of(name);
    let n: usize = chars.len();
    for i in 0..n
        invariant
            chars@.len() == name@.len() == n,
            forall|j: int| 0 <= j < i ==> chars@[j] == dots_to_spaces(name@)[j],
            forall|j: int| i <= j < chars@.len() ==> chars@[j] == name@[j],
    {
        if chars[i] == '.' {
            chars[i] = ' ';
        }
    }
    let ghost s = dots_to_spaces(name@);
    assert(chars@ =~= s);
    let mut from: usize = 0;
    assert(s.skip(0) =~= s);
    while from < chars.len() && chars[from].is_whitespace()
        invariant
            from <= chars.len(),
            chars@ == s,
            trim_start(s) == trim_start(s.skip(from as int)),
        decreases chars.len() - from,
    {
        assert(s.skip(from as int).skip(1) =~= s.skip(from + 1));
        from = from + 1;
    }
    let ghost t = s.skip(from as int);
    assert(trim_start(s) == t);
    let mut to: usize = chars.len();
    assert(s.subrange(from as int, to as int) =~= t);
    while to > from && chars[to - 1].is_whitespace()
        invariant
            from <= to <= chars.len(),
            chars@ == s,
            trim_end(t) == trim_end(s.subrange(from as int, to as int)),
        decreases to,
    {
        assert(s.subrange(from as int, to as int).drop_last() =~= s.subrange(
            from as int,
            to - 1,
        ));
        to = to - 1;
    }
    text_of(&chars, from, to)
}

} // verus!
