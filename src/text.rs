use vstd::prelude::*;

use crate::name_restriction::{has_newline, lemma_concat_newline_free};

verus! {

/// Relies on `String::push`: appends one character.
#[verifier::external_body]
pub(crate) fn push_char(s: &mut String, c: char)
    ensures
        final(s)@ == old(s)@.push(c),
{
    s.push(c)
}

/// Appends the characters of `t`.
pub(crate) fn push_str(s: &mut String, t: &str)
    ensures
        final(s)@ == old(s)@ + t@,
{
    s.append(t)
}

pub open spec fn digit(d: int) -> char {
    if d == 0 { '0' }
    else if d == 1 { '1' }
    else if d == 2 { '2' }
    else if d == 3 { '3' }
    else if d == 4 { '4' }
    else if d == 5 { '5' }
    else if d == 6 { '6' }
    else if d == 7 { '7' }
    else if d == 8 { '8' }
    else { '9' }
}

/// Decimal digits of `n`, most significant first, without leading zeros.
pub open spec fn nat_text(n: nat) -> Seq<char>
    decreases n,
{
    if n < 10 {
        seq![digit(n as int)]
    } else {
        nat_text(n / 10).push(digit((n % 10) as int))
    }
}

/// Decimal text of `i`, with a leading `-` where it is negative.
pub open spec fn int_text(i: int) -> Seq<char> {
    if i < 0 {
        seq!['-'] + nat_text((-i) as nat)
    } else {
        nat_text(i as nat)
    }
}

/// Decimal text holds no line feed.
pub proof fn lemma_int_text_newline_free(i: int)
    ensures
        !has_newline(int_text(i)),
{
    if i < 0 {
        lemma_nat_text_newline_free((-i) as nat);
        lemma_concat_newline_free(seq!['-'], nat_text((-i) as nat));
    } else {
        lemma_nat_text_newline_free(i as nat);
    }
}

proof fn lemma_nat_text_newline_free(n: nat)
    ensures
        !has_newline(nat_text(n)),
    decreases n,
{
    if n >= 10 {
        lemma_nat_text_newline_free(n / 10);
        lemma_concat_newline_free(nat_text(n / 10), seq![digit((n % 10) as int)]);
        assert(nat_text(n / 10).push(digit((n % 10) as int)) =~= nat_text(n / 10) + seq![digit(
            (n % 10) as int,
        )]);
    }
}

fn digit_char(d: u64) -> (r: char)
    requires
        d < 10,
    ensures
        r == digit(d as int),
{
    match d {
        0 => '0',
        1 => '1',
        2 => '2',
        3 => '3',
        4 => '4',
        5 => '5',
        6 => '6',
        7 => '7',
        8 => '8',
        _ => '9',
    }
}

/// Appends the decimal digits of `n`.
pub(crate) fn push_unsigned(s: &mut String, n: u64)
    ensures
        final(s)@ == old(s)@ + nat_text(n as nat),
    decreases n,
{
    if n >= 10 {
        push_unsigned(s, n / 10);
    }
    push_char(s, digit_char(n % 10));
    proof {
        if n >= 10 {
            assert(old(s)@ + nat_text((n / 10) as nat) + seq![digit((n % 10) as int)] =~= old(s)@
                + nat_text(n as nat));
        } else {
            assert(old(s)@.push(digit(n as int)) =~= old(s)@ + nat_text(n as nat));
        }
    }
}

/// Appends the decimal text of `v`.
pub(crate) fn push_signed(s: &mut String, v: i64)
    ensures
        final(s)@ == old(s)@ + int_text(v as int),
{
    if v < 0 {
        push_char(s, '-');
        let m = (0i128 - v as i128) as u64;
        push_unsigned(s, m);
        assert(old(s)@.push('-') + nat_text(m as nat) =~= old(s)@ + int_text(v as int));
    } else {
        push_unsigned(s, v as u64);
    }
}

} // verus!
