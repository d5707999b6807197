//! Different values have different text: the proofs that nothing is lost
//! when grant terms are written in their signing form.
//!
//! Each piece of the form can be read off the front of a text in one way
//! only, whatever follows it. Taken together, two grant terms with the same
//! signing form are the same grant terms.

use crate::encoding::{decimal, digit, escape_char, escaped, fixed_digits, hex_digit, is_digit, quoted};
use vstd::prelude::*;

verus! {

/// Two texts that are equal and begin with pieces of the same length have
/// the same pieces and the same rest.
pub proof fn lemma_split<A>(p: Seq<A>, r: Seq<A>, q: Seq<A>, s: Seq<A>)
    requires
        p + r == q + s,
        p.len() == q.len(),
    ensures
        p == q,
        r == s,
{
    assert(p =~= (p + r).take(p.len() as int));
    assert(q =~= (q + s).take(q.len() as int));
    assert(r =~= (p + r).skip(p.len() as int));
    assert(s =~= (q + s).skip(q.len() as int));
}

/// The escaped form of a character is one of three shapes: the character
/// itself, a backslash and a letter, or `\u00` and two hexadecimal digits.
pub proof fn lemma_escape_shape(c: char)
    ensures
        escape_char(c).len() == 1 || escape_char(c).len() == 2 || escape_char(c).len() == 6,
        escape_char(c).len() == 1 ==> escape_char(c)[0] == c && c != '"' && c != '\\' && c as u32
            >= 32,
        escape_char(c).len() > 1 ==> escape_char(c)[0] == '\\',
        escape_char(c).len() == 2 ==> escape_char(c)[1] != 'u',
        escape_char(c).len() == 6 ==> escape_char(c)[1] == 'u' && (c as u32) < 32,
{
}

/// The escaped forms of two different characters differ in a place that both
/// have, so neither is the beginning of the other.
pub proof fn lemma_escape_char_unique(c: char, d: char, r: Seq<char>, s: Seq<char>)
    requires
        escape_char(c) + r == escape_char(d) + s,
    ensures
        c == d,
        r == s,
{
    let x = escape_char(c);
    let y = escape_char(d);
    let t = x + r;
    lemma_escape_shape(c);
    lemma_escape_shape(d);
    assert(t[0] == x[0] && t[0] == y[0]);
    if x.len() > 1 {
        assert(y.len() > 1);
        assert(t[1] == x[1] && t[1] == y[1]);
        if x.len() == 6 {
            assert(y.len() == 6);
            assert(t[4] == x[4] && t[4] == y[4]);
            assert(t[5] == x[5] && t[5] == y[5]);
            let ch = c as u32;
            let dh = d as u32;
            assert(hex_digit((ch / 16) as int) == hex_digit((dh / 16) as int));
            assert(hex_digit((ch % 16) as int) == hex_digit((dh % 16) as int));
            assert(ch / 16 == dh / 16);
            assert(ch % 16 == dh % 16);
            assert(ch == dh);
        }
    }
    assert(c == d);
    lemma_split(x, r, y, s);
}

/// The escaped form of a text, taken from the front.
pub proof fn lemma_escaped_front(s: Seq<char>)
    requires
        s.len() > 0,
    ensures
        escaped(s) == escape_char(s[0]) + escaped(s.skip(1)),
    decreases s.len(),
{
    if s.len() == 1 {
        assert(s.drop_last() =~= Seq::<char>::empty());
        assert(s.skip(1) =~= Seq::<char>::empty());
        assert(escaped(s.drop_last()) =~= Seq::<char>::empty());
        assert(escaped(s) =~= escape_char(s[0]) + escaped(s.skip(1)));
    } else {
        let front = s.drop_last();
        lemma_escaped_front(front);
        assert(front.skip(1) =~= s.skip(1).drop_last());
        assert(front[0] == s[0]);
        assert(s.skip(1).last() == s.last());
        assert(escaped(s) =~= escape_char(s[0]) + escaped(s.skip(1)));
    }
}

/// An escaped text that is closed by a quote can be read off the front of a
/// text in one way only.
pub proof fn lemma_escaped_unique(a: Seq<char>, r: Seq<char>, b: Seq<char>, s: Seq<char>)
    requires
        escaped(a) + seq!['"'] + r == escaped(b) + seq!['"'] + s,
    ensures
        a == b,
        r == s,
    decreases a.len(),
{
    let left = escaped(a) + seq!['"'] + r;
    let right = escaped(b) + seq!['"'] + s;
    if a.len() == 0 {
        assert(left[0] == '"');
        if b.len() > 0 {
            lemma_escaped_front(b);
            lemma_escape_shape(b[0]);
            assert(right[0] == escape_char(b[0])[0]);
            assert(false);
        }
        assert(a =~= b);
        assert(r =~= left.skip(1));
        assert(s =~= right.skip(1));
    } else if b.len() == 0 {
        assert(right[0] == '"');
        lemma_escaped_front(a);
        lemma_escape_shape(a[0]);
        assert(left[0] == escape_char(a[0])[0]);
        assert(false);
    } else {
        lemma_escaped_front(a);
        lemma_escaped_front(b);
        let ta = escaped(a.skip(1)) + seq!['"'] + r;
        let tb = escaped(b.skip(1)) + seq!['"'] + s;
        assert(left =~= escape_char(a[0]) + ta);
        assert(right =~= escape_char(b[0]) + tb);
        lemma_escape_char_unique(a[0], b[0], ta, tb);
        lemma_escaped_unique(a.skip(1), r, b.skip(1), s);
        assert(a =~= seq![a[0]] + a.skip(1));
        assert(b =~= seq![b[0]] + b.skip(1));
    }
}

/// A quoted text can be read off the front of a text in one way only.
pub proof fn lemma_quoted_unique(a: Seq<char>, r: Seq<char>, b: Seq<char>, s: Seq<char>)
    requires
        quoted(a) + r == quoted(b) + s,
    ensures
        a == b,
        r == s,
{
    let left = escaped(a) + seq!['"'] + r;
    let right = escaped(b) + seq!['"'] + s;
    assert(left =~= (quoted(a) + r).skip(1));
    assert(right =~= (quoted(b) + s).skip(1));
    lemma_escaped_unique(a, r, b, s);
}

/// Ten to the power of `w`.
pub open spec fn pow10(w: nat) -> nat
    decreases w,
{
    if w == 0 {
        1
    } else {
        10 * pow10((w - 1) as nat)
    }
}

/// A numeral of fixed width has that width and holds nothing but digits.
pub proof fn lemma_fixed_digits(n: nat, w: nat)
    ensures
        fixed_digits(n, w).len() == w,
        forall|i: int| 0 <= i < w ==> is_digit(#[trigger] fixed_digits(n, w)[i]),
    decreases w,
{
    if w > 0 {
        lemma_fixed_digits(n / 10, (w - 1) as nat);
    }
}

/// Two numbers with the same numeral of a width that holds them are the same
/// number.
pub proof fn lemma_fixed_unique(n: nat, m: nat, w: nat)
    requires
        n < pow10(w),
        m < pow10(w),
        fixed_digits(n, w) == fixed_digits(m, w),
    ensures
        n == m,
    decreases w,
{
    if w > 0 {
        let a = fixed_digits(n / 10, (w - 1) as nat);
        let b = fixed_digits(m / 10, (w - 1) as nat);
        let x = fixed_digits(n, w);
        let y = fixed_digits(m, w);
        assert(x.last() == digit((n % 10) as int));
        assert(y.last() == digit((m % 10) as int));
        assert(n % 10 == m % 10);
        assert(a =~= x.drop_last());
        assert(b =~= y.drop_last());
        lemma_fixed_unique(n / 10, m / 10, (w - 1) as nat);
    }
}

/// A numeral of fixed width can be read off the front of a text in one way
/// only.
pub proof fn lemma_fixed_read(n: nat, r: Seq<char>, m: nat, s: Seq<char>, w: nat)
    requires
        n < pow10(w),
        m < pow10(w),
        fixed_digits(n, w) + r == fixed_digits(m, w) + s,
    ensures
        n == m,
        r == s,
{
    lemma_fixed_digits(n, w);
    lemma_fixed_digits(m, w);
    lemma_split(fixed_digits(n, w), r, fixed_digits(m, w), s);
    lemma_fixed_unique(n, m, w);
}

/// A decimal numeral is not empty and holds nothing but digits.
pub proof fn lemma_decimal_digits(n: nat)
    ensures
        decimal(n).len() >= 1,
        forall|i: int| 0 <= i < decimal(n).len() ==> is_digit(#[trigger] decimal(n)[i]),
    decreases n,
{
    if n >= 10 {
        lemma_decimal_digits(n / 10);
    }
}

/// A number of five digits or more has a numeral of five characters or more.
pub proof fn lemma_decimal_long(n: nat)
    requires
        n >= 10000,
    ensures
        decimal(n).len() >= 5,
{
    lemma_decimal_digits(n / 10000);
    reveal_with_fuel(decimal, 5);
}

/// Two numbers with the same decimal numeral are the same number.
pub proof fn lemma_decimal_unique(n: nat, m: nat)
    requires
        decimal(n) == decimal(m),
    ensures
        n == m,
    decreases n,
{
    if n < 10 && m < 10 {
        assert(decimal(n)[0] == digit(n as int));
        assert(decimal(m)[0] == digit(m as int));
    } else if n < 10 {
        lemma_decimal_digits(m / 10);
        assert(decimal(n).len() == 1);
        assert(decimal(m).len() == decimal(m / 10).len() + 1);
    } else if m < 10 {
        lemma_decimal_digits(n / 10);
        assert(decimal(m).len() == 1);
        assert(decimal(n).len() == decimal(n / 10).len() + 1);
    } else {
        let x = decimal(n);
        let y = decimal(m);
        assert(x.last() == digit((n % 10) as int));
        assert(y.last() == digit((m % 10) as int));
        assert(decimal(n / 10) =~= x.drop_last());
        assert(decimal(m / 10) =~= y.drop_last());
        lemma_decimal_unique(n / 10, m / 10);
    }
}

/// A decimal numeral that is followed by something other than a digit can be
/// read off the front of a text in one way only.
pub proof fn lemma_decimal_read(n: nat, r: Seq<char>, m: nat, s: Seq<char>)
    requires
        decimal(n) + r == decimal(m) + s,
        r.len() > 0 && !is_digit(r[0]),
        s.len() > 0 && !is_digit(s[0]),
    ensures
        n == m,
        r == s,
{
    let x = decimal(n);
    let y = decimal(m);
    lemma_decimal_digits(n);
    lemma_decimal_digits(m);
    if x.len() < y.len() {
        assert((x + r)[x.len() as int] == r[0]);
        assert((y + s)[x.len() as int] == y[x.len() as int]);
        assert(false);
    }
    if y.len() < x.len() {
        assert((y + s)[y.len() as int] == s[0]);
        assert((x + r)[y.len() as int] == x[y.len() as int]);
        assert(false);
    }
    lemma_split(x, r, y, s);
    lemma_decimal_unique(n, m);
}

} // verus!
