//! Decimal text of integers, built character by character.

use vstd::prelude::*;

verus! {

/// The character of a decimal digit.
pub open spec fn digit_char(d: nat) -> char {
    if d == 0 {
        '0'
    } else if d == 1 {
        '1'
    } else if d == 2 {
        '2'
    } else if d == 3 {
        '3'
    } else if d == 4 {
        '4'
    } else if d == 5 {
        '5'
    } else if d == 6 {
        '6'
    } else if d == 7 {
        '7'
    } else if d == 8 {
        '8'
    } else {
        '9'
    }
}

/// The decimal digits of `n`, most significant first, with no leading zero
/// (zero itself is written `0`).
pub open spec fn dec_digits(n: nat) -> Seq<char>
    decreases n,
{
    if n < 10 {
        seq![digit_char(n)]
    } else {
        dec_digits(n / 10).push(digit_char(n % 10))
    }
}

/// The decimal text of a signed integer: a minus sign before the digits of
/// its magnitude when it is negative.
pub open spec fn int_text(v: int) -> Seq<char> {
    if v < 0 {
        seq!['-'] + dec_digits((-v) as nat)
    } else {
        dec_digits(v as nat)
    }
}

/// The views of a sequence of strings.
pub open spec fn string_views(v: Seq<String>) -> Seq<Seq<char>> {
    v.map_values(|s: String| s@)
}

/// Appends one character to a string: `String::push`, claimed to extend the
/// string's characters by `c` and change nothing else.
#[verifier::external_body]
pub(crate) fn push_char(s: &mut String, c: char)
    ensures
        final(s)@ == old(s)@.push(c),
{
    s.push(c);
}

/// The character of digit `d`.
pub fn digit_to_char(d: u64) -> (c: char)
    requires
        d < 10,
    ensures
        c == digit_char(d as nat),
{
    if d == 0 {
        '0'
    } else if d == 1 {
        '1'
    } else if d == 2 {
        '2'
    } else if d == 3 {
        '3'
    } else if d == 4 {
        '4'
    } else if d == 5 {
        '5'
    } else if d == 6 {
        '6'
    } else if d == 7 {
        '7'
    } else if d == 8 {
        '8'
    } else {
        '9'
    }
}

/// Appends the decimal digits of `n` to `s`.
pub fn push_decimal(s: &mut String, n: u64)
    ensures
        final(s)@ == old(s)@ + dec_digits(n as nat),
    decreases n,
{
    if n >= 10 {
        push_decimal(s, n / 10);
    }
    let c = digit_to_char(n % 10);
    push_char(s, c);
    proof {
        if n >= 10 {
            assert(dec_digits(n as nat) == dec_digits((n / 10) as nat).push(digit_char((n % 10) as nat)));
        }
        assert(final(s)@ =~= old(s)@ + dec_digits(n as nat));
    }
}

/// Appends the decimal text of the signed value `v` to `s`.
pub fn push_signed(s: &mut String, v: i64)
    ensures
        final(s)@ == old(s)@ + int_text(v as int),
{
    if v < 0 {
        push_char(s, '-');
        let mag: u64 = if v == i64::MIN {
            0x8000_0000_0000_0000u64
        } else {
            (-v) as u64
        };
        push_decimal(s, mag);
        assert(final(s)@ =~= old(s)@ + int_text(v as int));
    } else {
        push_decimal(s, v as u64);
    }
}

/// The decimal text of `n`.
pub fn u64_to_text(n: u64) -> (s: String)
    ensures
        s@ == dec_digits(n as nat),
{
    let mut s = String::new();
    push_decimal(&mut s, n);
    assert(s@ =~= dec_digits(n as nat));
    s
}

/// The value of a decimal digit character: its distance from '0'.
pub open spec fn digit_value(c: char) -> int {
    (c as u32) as int - ('0' as u32) as int
}

/// The number that a string of decimal digits stands for, most significant
/// first.
pub open spec fn decimal_value(s: Seq<char>) -> int
    decreases s.len(),
{
    if s.len() == 0 {
        0
    } else {
        decimal_value(s.drop_last()) * 10 + digit_value(s.last())
    }
}

/// The digits of `n` are decimal digits, with no leading zero unless `n`
/// is zero, and read back as a decimal number they give `n`.
pub proof fn law_decimal_round_trip(n: nat)
    ensures
        dec_digits(n).len() >= 1,
        forall|i: int| 0 <= i < dec_digits(n).len() ==> 0 <= #[trigger] digit_value(dec_digits(n)[i]) < 10,
        n > 0 ==> dec_digits(n)[0] != '0',
        decimal_value(dec_digits(n)) == n,
    decreases n,
{
    if n < 10 {
        let s = dec_digits(n);
        assert(s.drop_last() =~= Seq::<char>::empty());
        assert(digit_value(digit_char(n)) == n);
        assert(digit_value('0') == 0);
        assert(decimal_value(s.drop_last()) == 0);
        assert(s.last() == digit_char(n));
        assert(decimal_value(s) == n);
    } else {
        let p = dec_digits(n / 10);
        law_decimal_round_trip(n / 10);
        let s = dec_digits(n);
        let d = (n % 10) as nat;
        assert(s == p.push(digit_char(d)));
        assert(s.drop_last() =~= p);
        assert(digit_value(digit_char(d)) == d);
        assert forall|i: int| 0 <= i < s.len() implies 0 <= #[trigger] digit_value(s[i]) < 10 by {
            if i < p.len() {
                assert(s[i] == p[i]);
            }
        }
        assert(s[0] == p[0]);
        assert(n / 10 > 0);
        assert((n / 10) * 10 + n % 10 == n) by (nonlinear_arith);
        assert(s.last() == digit_char(d));
        assert(decimal_value(s) == decimal_value(p) * 10 + digit_value(digit_char(d)));
        assert(decimal_value(s) == n);
    }
}

/// The text of a signed integer reads back as that integer: a minus sign
/// and the digits of its magnitude when it is negative, its digits alone
/// otherwise.
pub proof fn law_int_text_round_trip(v: int)
    ensures
        v < 0 ==> int_text(v)[0] == '-' && decimal_value(int_text(v).subrange(1, int_text(v).len() as int)) == -v,
        v >= 0 ==> decimal_value(int_text(v)) == v,
        v >= 0 ==> forall|i: int| 0 <= i < int_text(v).len() ==> 0 <= #[trigger] digit_value(int_text(v)[i]) < 10,
{
    if v < 0 {
        law_decimal_round_trip((-v) as nat);
        let t = int_text(v);
        assert(t.subrange(1, t.len() as int) =~= dec_digits((-v) as nat));
    } else {
        law_decimal_round_trip(v as nat);
    }
}

} // verus!
