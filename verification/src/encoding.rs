//! Text primitives shared by the signing form and the stored form of a
//! license: decimal numbers and quoted, escaped strings.
//!
//! Every writer appends to a `String` and states the appended characters as a
//! spec function of its arguments.

use vstd::prelude::*;

verus! {

/// Appends one character to a string.
///
/// Trusted: stands for `String::push`, which the standard library documents as
/// appending the given `char` to the end of the string.
#[verifier::external_body]
pub(crate) fn push_char(out: &mut String, c: char)
    ensures
        final(out)@ == old(out)@.push(c),
{
    out.push(c);
}

/// The character of the decimal digit `d`, for `0 <= d < 10`.
pub open spec fn digit(d: int) -> char {
    ((48 + d) as u8) as char
}

/// The character of the lower-case hexadecimal digit `d`, for `0 <= d < 16`.
pub open spec fn hex_digit(d: int) -> char {
    if d < 10 {
        ((48 + d) as u8) as char
    } else {
        ((87 + d) as u8) as char
    }
}

/// Whether `c` is one of `0` to `9`.
pub open spec fn is_digit(c: char) -> bool {
    48 <= c as u32 <= 57
}

/// The shortest decimal numeral of `n`: no sign, no leading zero but for `0`
/// itself.
pub open spec fn decimal(n: nat) -> Seq<char>
    decreases n,
{
    if n < 10 {
        seq![digit(n as int)]
    } else {
        decimal(n / 10).push(digit((n % 10) as int))
    }
}

/// The last `width` decimal digits of `n`, most significant first, with
/// leading zeros.
pub open spec fn fixed_digits(n: nat, width: nat) -> Seq<char>
    decreases width,
{
    if width == 0 {
        Seq::empty()
    } else {
        fixed_digits(n / 10, (width - 1) as nat).push(digit((n % 10) as int))
    }
}

/// How one character stands inside a quoted string: the quote and the
/// backslash get a backslash in front, the control characters become their
/// short escape or `\u00` and two hexadecimal digits, and every other
/// character stands for itself.
pub open spec fn escape_char(c: char) -> Seq<char> {
    if c == '"' {
        seq!['\\', '"']
    } else if c == '\\' {
        seq!['\\', '\\']
    } else if c as u32 == 8 {
        seq!['\\', 'b']
    } else if c as u32 == 9 {
        seq!['\\', 't']
    } else if c as u32 == 10 {
        seq!['\\', 'n']
    } else if c as u32 == 12 {
        seq!['\\', 'f']
    } else if c as u32 == 13 {
        seq!['\\', 'r']
    } else if (c as u32) < 32 {
        seq!['\\', 'u', '0', '0', hex_digit((c as u32 / 16) as int), hex_digit((c as u32 % 16) as int)]
    } else {
        seq![c]
    }
}

/// The characters of `s`, each escaped, in order.
pub open spec fn escaped(s: Seq<char>) -> Seq<char>
    decreases s.len(),
{
    if s.len() == 0 {
        Seq::empty()
    } else {
        escaped(s.drop_last()) + escape_char(s.last())
    }
}

/// `s` as a quoted string: a quote, the escaped characters, a quote.
pub open spec fn quoted(s: Seq<char>) -> Seq<char> {
    seq!['"'] + escaped(s) + seq!['"']
}

/// The digit character of `d`.
pub fn digit_char(d: u8) -> (c: char)
    requires
        d < 10,
    ensures
        c == digit(d as int),
{
    (48u8 + d) as char
}

/// The lower-case hexadecimal digit character of `d`.
pub fn hex_digit_char(d: u8) -> (c: char)
    requires
        d < 16,
    ensures
        c == hex_digit(d as int),
{
    if d < 10 {
        (48u8 + d) as char
    } else {
        (87u8 + d) as char
    }
}

/// Appends the shortest decimal numeral of `n`.
pub fn write_decimal(out: &mut String, n: u64)
    ensures
        final(out)@ == old(out)@ + decimal(n as nat),
    decreases n,
{
    if n >= 10 {
        write_decimal(out, n / 10);
    }
    push_char(out, digit_char((n % 10) as u8));
}

/// Appends the last `width` decimal digits of `n`, with leading zeros.
pub fn write_fixed(out: &mut String, n: u32, width: u8)
    ensures
        final(out)@ == old(out)@ + fixed_digits(n as nat, width as nat),
    decreases width,
{
    if width > 0 {
        write_fixed(out, n / 10, width - 1);
        push_char(out, digit_char((n % 10) as u8));
    }
}

/// Appends one character in its escaped form.
pub fn write_escaped_char(out: &mut String, c: char)
    ensures
        final(out)@ == old(out)@ + escape_char(c),
{
    let code: u32 = c as u32;
    if c == '"' || c == '\\' {
        push_char(out, '\\');
        push_char(out, c);
    } else if code == 8 {
        push_char(out, '\\');
        push_char(out, 'b');
    } else if code == 9 {
        push_char(out, '\\');
        push_char(out, 't');
    } else if code == 10 {
        push_char(out, '\\');
        push_char(out, 'n');
    } else if code == 12 {
        push_char(out, '\\');
        push_char(out, 'f');
    } else if code == 13 {
        push_char(out, '\\');
        push_char(out, 'r');
    } else if code < 32 {
        push_char(out, '\\');
        push_char(out, 'u');
        push_char(out, '0');
        push_char(out, '0');
        push_char(out, hex_digit_char((code / 16) as u8));
        push_char(out, hex_digit_char((code % 16) as u8));
    } else {
        push_char(out, c);
    }
}

/// Appends `s` as a quoted string.
pub fn write_quoted(out: &mut String, s: &str)
    ensures
        final(out)@ == old(out)@ + quoted(s@),
{
    broadcast use vstd::string::group_string_axioms;

    push_char(out, '"');
    for c in iter: s.chars()
        invariant
            iter.seq() == s@,
            out@ == old(out)@ + seq!['"'] + escaped(s@.take(iter.index() as int)),
    {
        assert(s@.take(iter.index() + 1).drop_last() == s@.take(iter.index() as int));
        assert(s@.take(iter.index() + 1).last() == c);
        write_escaped_char(out, c);
    }
    assert(s@.take(s@.len() as int) == s@);
    push_char(out, '"');
}

} // verus!
