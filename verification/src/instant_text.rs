//! The ISO-8601 text of an instant names that instant and no other.

use crate::encoding::{decimal, fixed_digits, is_digit};
use crate::injectivity::{
    lemma_decimal_digits, lemma_decimal_long, lemma_decimal_read, lemma_fixed_digits,
    lemma_fixed_read, lemma_split, pow10,
};
use crate::instant::{
    fraction_text, iso_text, valid_instant, written_nanos, written_second, year_text, Instant,
    MAX_YEAR, MIN_YEAR,
};
use vstd::prelude::*;

verus! {

/// A character in front of a text.
pub open spec fn mark(c: char, rest: Seq<char>) -> Seq<char> {
    seq![c] + rest
}

/// A number of two digits in front of a text.
pub open spec fn pair(n: int, rest: Seq<char>) -> Seq<char> {
    fixed_digits(n as nat, 2) + rest
}

/// What follows the year in the text of an instant.
pub open spec fn clock_text(t: Instant) -> Seq<char> {
    mark(
        '-',
        pair(
            t.month,
            mark(
                '-',
                pair(
                    t.day,
                    mark(
                        'T',
                        pair(
                            t.hour,
                            mark(
                                ':',
                                pair(
                                    t.minute,
                                    mark(
                                        ':',
                                        pair(
                                            written_second(t),
                                            fraction_text(written_nanos(t)) + seq!['Z'],
                                        ),
                                    ),
                                ),
                            ),
                        ),
                    ),
                ),
            ),
        ),
    )
}

/// The text of an instant is its year and then its clock text.
pub proof fn lemma_iso_parts(t: Instant)
    ensures
        iso_text(t) == year_text(t.year) + clock_text(t),
        clock_text(t).len() > 0,
        clock_text(t)[0] == '-',
{
    assert(iso_text(t) =~= year_text(t.year) + clock_text(t));
}

/// The same mark in front of two texts that are equal: the texts behind it
/// are equal.
pub proof fn lemma_mark(c: char, r: Seq<char>, s: Seq<char>)
    requires
        mark(c, r) == mark(c, s),
    ensures
        r == s,
{
    lemma_split(seq![c], r, seq![c], s);
}

/// A number of two digits can be read off the front of a text in one way
/// only.
pub proof fn lemma_pair(n: int, r: Seq<char>, m: int, s: Seq<char>)
    requires
        0 <= n < 100,
        0 <= m < 100,
        pair(n, r) == pair(m, s),
    ensures
        n == m,
        r == s,
{
    reveal_with_fuel(pow10, 3);
    lemma_fixed_read(n as nat, r, m as nat, s, 2);
}

/// The year of an ISO-8601 date, followed by a hyphen, can be read off the
/// front of a text in one way only.
pub proof fn lemma_year_read(y: int, r: Seq<char>, z: int, s: Seq<char>)
    requires
        MIN_YEAR <= y <= MAX_YEAR,
        MIN_YEAR <= z <= MAX_YEAR,
        year_text(y) + r == year_text(z) + s,
        r.len() > 0 && r[0] == '-',
        s.len() > 0 && s[0] == '-',
    ensures
        y == z,
        r == s,
{
    reveal_with_fuel(pow10, 5);
    let left = year_text(y) + r;
    let right = year_text(z) + s;
    assert(left[0] == right[0]);
    assert(left[0] == year_text(y)[0]) by {
        lemma_year_shape(y);
    }
    assert(right[0] == year_text(z)[0]) by {
        lemma_year_shape(z);
    }
    lemma_year_shape(y);
    lemma_year_shape(z);
    if 0 <= y <= 9999 {
        assert(0 <= z <= 9999);
        lemma_fixed_read(y as nat, r, z as nat, s, 4);
    } else if y > 9999 {
        assert(z > 9999);
        assert(decimal(y as nat) + r =~= left.skip(1));
        assert(decimal(z as nat) + s =~= right.skip(1));
        lemma_decimal_read(y as nat, r, z as nat, s);
    } else {
        assert(z < 0);
        let a = (-y) as nat;
        let b = (-z) as nat;
        let la = left.skip(1);
        let lb = right.skip(1);
        assert(la == lb);
        if a <= 9999 {
            assert(la =~= fixed_digits(a, 4) + r);
            lemma_fixed_digits(a, 4);
            assert(la[4] == r[0]);
            if b > 9999 {
                assert(lb =~= decimal(b) + s);
                lemma_decimal_long(b);
                lemma_decimal_digits(b);
                assert(lb[4] == decimal(b)[4]);
                assert(false);
            }
            assert(lb =~= fixed_digits(b, 4) + s);
            lemma_fixed_read(a, r, b, s, 4);
        } else {
            assert(la =~= decimal(a) + r);
            lemma_decimal_long(a);
            lemma_decimal_digits(a);
            assert(la[4] == decimal(a)[4]);
            if b <= 9999 {
                assert(lb =~= fixed_digits(b, 4) + s);
                lemma_fixed_digits(b, 4);
                assert(lb[4] == s[0]);
                assert(false);
            }
            assert(lb =~= decimal(b) + s);
            lemma_decimal_read(a, r, b, s);
        }
    }
}

/// How the year of an ISO-8601 date begins: with a digit from 0 to 9999,
/// with a minus sign below that, with a plus sign above.
pub proof fn lemma_year_shape(y: int)
    ensures
        year_text(y).len() > 0,
        0 <= y <= 9999 ==> is_digit(year_text(y)[0]),
        y < 0 ==> year_text(y)[0] == '-',
        y > 9999 ==> year_text(y)[0] == '+',
{
    if 0 <= y <= 9999 {
        lemma_fixed_digits(y as nat, 4);
    }
}

/// The fraction of a second, closed by the letter `Z`, names one number of
/// nanoseconds.
pub proof fn lemma_fraction_unique(n: int, m: int)
    requires
        0 <= n <= 999_999_999,
        0 <= m <= 999_999_999,
        fraction_text(n) + seq!['Z'] == fraction_text(m) + seq!['Z'],
    ensures
        n == m,
{
    reveal_with_fuel(pow10, 10);
    lemma_fraction_len(n);
    lemma_fraction_len(m);
    let x = fraction_text(n);
    let y = fraction_text(m);
    assert((x + seq!['Z']).len() == x.len() + 1);
    assert((y + seq!['Z']).len() == y.len() + 1);
    lemma_split(x, seq!['Z'], y, seq!['Z']);
    if n != 0 {
        let e: Seq<char> = Seq::empty();
        if n % 1_000_000 == 0 {
            assert(fixed_digits((n / 1_000_000) as nat, 3) + e =~= x.skip(1));
            assert(fixed_digits((m / 1_000_000) as nat, 3) + e =~= y.skip(1));
            lemma_fixed_read((n / 1_000_000) as nat, e, (m / 1_000_000) as nat, e, 3);
        } else if n % 1_000 == 0 {
            assert(fixed_digits((n / 1_000) as nat, 6) + e =~= x.skip(1));
            assert(fixed_digits((m / 1_000) as nat, 6) + e =~= y.skip(1));
            lemma_fixed_read((n / 1_000) as nat, e, (m / 1_000) as nat, e, 6);
        } else {
            assert(fixed_digits(n as nat, 9) + e =~= x.skip(1));
            assert(fixed_digits(m as nat, 9) + e =~= y.skip(1));
            lemma_fixed_read(n as nat, e, m as nat, e, 9);
        }
    }
}

/// The fraction of a second has no character, or a point and three, six or
/// nine digits, and which of these tells how many zeros the number ends in.
pub proof fn lemma_fraction_len(n: int)
    requires
        0 <= n,
    ensures
        fraction_text(n).len() == if n == 0 {
            0nat
        } else if n % 1_000_000 == 0 {
            4nat
        } else if n % 1_000 == 0 {
            7nat
        } else {
            10nat
        },
{
    lemma_fixed_digits((n / 1_000_000) as nat, 3);
    lemma_fixed_digits((n / 1_000) as nat, 6);
    lemma_fixed_digits(n as nat, 9);
}

/// Two instants with the same clock text agree in everything but the year.
pub proof fn lemma_clock_unique(a: Instant, b: Instant)
    requires
        valid_instant(a),
        valid_instant(b),
        clock_text(a) == clock_text(b),
    ensures
        a.month == b.month,
        a.day == b.day,
        a.hour == b.hour,
        a.minute == b.minute,
        a.second == b.second,
        a.nanos == b.nanos,
{
    let fa = fraction_text(written_nanos(a)) + seq!['Z'];
    let fb = fraction_text(written_nanos(b)) + seq!['Z'];
    let a5 = pair(written_second(a), fa);
    let b5 = pair(written_second(b), fb);
    let a4 = pair(a.minute, mark(':', a5));
    let b4 = pair(b.minute, mark(':', b5));
    let a3 = pair(a.hour, mark(':', a4));
    let b3 = pair(b.hour, mark(':', b4));
    let a2 = pair(a.day, mark('T', a3));
    let b2 = pair(b.day, mark('T', b3));
    let a1 = pair(a.month, mark('-', a2));
    let b1 = pair(b.month, mark('-', b2));
    lemma_mark('-', a1, b1);
    lemma_pair(a.month, mark('-', a2), b.month, mark('-', b2));
    lemma_mark('-', a2, b2);
    lemma_pair(a.day, mark('T', a3), b.day, mark('T', b3));
    lemma_mark('T', a3, b3);
    lemma_pair(a.hour, mark(':', a4), b.hour, mark(':', b4));
    lemma_mark(':', a4, b4);
    lemma_pair(a.minute, mark(':', a5), b.minute, mark(':', b5));
    lemma_mark(':', a5, b5);
    lemma_pair(written_second(a), fa, written_second(b), fb);
    lemma_fraction_unique(written_nanos(a), written_nanos(b));
}

/// Two instants with the same ISO-8601 text are the same instant.
pub proof fn lemma_iso_text_unique(a: Instant, b: Instant)
    requires
        valid_instant(a),
        valid_instant(b),
        iso_text(a) == iso_text(b),
    ensures
        a == b,
{
    lemma_iso_parts(a);
    lemma_iso_parts(b);
    lemma_year_read(a.year, clock_text(a), b.year, clock_text(b));
    lemma_clock_unique(a, b);
}

} // verus!
