//! Text of the info panel.

use vstd::prelude::*;
use crate::text::{dec_digits, digit_char, digit_to_char, push_char, push_decimal};

verus! {

/// The three digits of `r` (below 1000), with leading zeros.
pub open spec fn three_digits(r: nat) -> Seq<char> {
    seq![digit_char(r / 100), digit_char((r / 10) % 10), digit_char(r % 10)]
}

/// The decimal text of `n` with a comma between each group of three
/// digits, counted from the right.
pub open spec fn grouped_digits(n: nat) -> Seq<char>
    decreases n,
{
    if n < 1000 {
        dec_digits(n)
    } else {
        grouped_digits(n / 1000) + seq![','] + three_digits(n % 1000)
    }
}

fn push_grouped(s: &mut String, n: u64)
    ensures
        final(s)@ == old(s)@ + grouped_digits(n as nat),
    decreases n,
{
    if n < 1000 {
        push_decimal(s, n);
    } else {
        push_grouped(s, n / 1000);
        push_char(s, ',');
        let r = n % 1000;
        push_char(s, digit_to_char(r / 100));
        push_char(s, digit_to_char((r / 10) % 10));
        push_char(s, digit_to_char(r % 10));
        assert(final(s)@ =~= old(s)@ + grouped_digits(n as nat));
    }
}

/// Formats a number with a comma between groups of three digits
/// (1234567 becomes "1,234,567").
pub fn format_number(n: u64) -> (s: String)
    ensures
        s@ == grouped_digits(n as nat),
{
    let mut s = String::new();
    push_grouped(&mut s, n);
    assert(s@ =~= grouped_digits(n as nat));
    s
}

/// `s` without its commas.
pub open spec fn without_commas(s: Seq<char>) -> Seq<char> {
    s.filter(|c: char| c != ',')
}

proof fn lemma_no_commas_in_digits(n: nat)
    ensures
        forall|i: int| 0 <= i < dec_digits(n).len() ==> #[trigger] dec_digits(n)[i] != ',',
        without_commas(dec_digits(n)) == dec_digits(n),
    decreases n,
{
    if n >= 10 {
        lemma_no_commas_in_digits(n / 10);
        let d = dec_digits(n);
        assert(d.drop_last() =~= dec_digits(n / 10));
        assert(d.last() == digit_char(n % 10));
        assert(without_commas(d) =~= d) by {
            reveal_with_fuel(Seq::filter, 2);
        }
    } else {
        reveal_with_fuel(Seq::filter, 2);
        assert(dec_digits(n).drop_last() =~= Seq::<char>::empty());
        assert(without_commas(dec_digits(n)) =~= dec_digits(n));
    }
}

proof fn lemma_three_digits_plain(r: nat)
    ensures
        without_commas(three_digits(r)) == three_digits(r),
        without_commas(seq![',']) == Seq::<char>::empty(),
{
    reveal_with_fuel(Seq::filter, 4);
    let t = three_digits(r);
    assert(t.drop_last().drop_last().drop_last() =~= Seq::<char>::empty());
    assert(t.drop_last().drop_last() =~= seq![t[0]]);
    assert(t.drop_last() =~= seq![t[0], t[1]]);
    assert(without_commas(t) =~= t);
    assert(seq![','].drop_last() =~= Seq::<char>::empty());
    assert(without_commas(seq![',']) =~= Seq::<char>::empty());
}

proof fn lemma_decimal_split(n: nat)
    requires
        n >= 1000,
    ensures
        dec_digits(n) == dec_digits(n / 1000) + three_digits(n % 1000),
{
    let q = n / 1000;
    let r = n % 1000;
    assert(n / 10 >= 100 && n / 100 >= 10 && (n / 100) / 10 == q && (n / 10) / 10 == n / 100) by (nonlinear_arith)
        requires
            n >= 1000,
            q == n / 1000,
    ;
    assert((n / 100) % 10 == r / 100 && (n / 10) % 10 == (r / 10) % 10 && n % 10 == r % 10) by (nonlinear_arith)
        requires
            q == n / 1000,
            r == n % 1000,
            n >= 1000,
    ;
    assert(dec_digits(n) == dec_digits(n / 10).push(digit_char(n % 10)));
    assert(dec_digits(n / 10) == dec_digits(n / 100).push(digit_char((n / 10) % 10)));
    assert(dec_digits(n / 100) == dec_digits(q).push(digit_char((n / 100) % 10)));
    assert(dec_digits(n) =~= dec_digits(q) + three_digits(r));
}

/// Taking the commas out of a formatted number gives its plain decimal
/// digits: the grouping adds separators and changes no digit.
pub proof fn law_grouping_keeps_digits(n: nat)
    ensures
        without_commas(grouped_digits(n)) == dec_digits(n),
    decreases n,
{
    if n < 1000 {
        lemma_no_commas_in_digits(n);
    } else {
        law_grouping_keeps_digits(n / 1000);
        lemma_three_digits_plain(n % 1000);
        let a = grouped_digits(n / 1000);
        let b = seq![','];
        let c = three_digits(n % 1000);
        Seq::filter_distributes_over_add(a + b, c, |ch: char| ch != ',');
        Seq::filter_distributes_over_add(a, b, |ch: char| ch != ',');
        lemma_decimal_split(n);
        assert(without_commas(grouped_digits(n)) =~= dec_digits(n));
    }
}

/// Numbers below a thousand are written without a comma, and a comma
/// separates every group of three digits from the left part.
pub proof fn law_grouping_shape(n: nat)
    ensures
        n < 1000 ==> grouped_digits(n) == dec_digits(n),
        n >= 1000 ==> grouped_digits(n) == grouped_digits(n / 1000) + seq![','] + three_digits(n % 1000),
{
}

} // verus!
