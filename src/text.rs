//! Decimal text of numbers and solving times.

use vstd::prelude::*;

use crate::models::NytScore;
use crate::stats::div_toward_zero;

verus! {

/// The decimal digit for `k` in `0..10`.
pub open spec fn digit_char(k: int) -> char {
    seq!['0', '1', '2', '3', '4', '5', '6', '7', '8', '9'][k]
}

/// Decimal digits of `n`, without leading zeros (`0` for zero).
pub open spec fn decimal_digits(n: nat) -> Seq<char>
    decreases n,
{
    if n < 10 {
        seq![digit_char(n as int)]
    } else {
        decimal_digits(n / 10).push(digit_char((n % 10) as int))
    }
}

/// Decimal digits of `n`, with leading zeros up to `width` characters.
pub open spec fn zero_padded(n: nat, width: nat) -> Seq<char> {
    let digits = decimal_digits(n);
    if digits.len() >= width {
        digits
    } else {
        Seq::new((width - digits.len()) as nat, |i: int| '0') + digits
    }
}

/// A signed number written at least two characters wide, zero-padded after the sign.
pub open spec fn two_wide(v: int) -> Seq<char> {
    if v < 0 {
        seq!['-'] + decimal_digits((-v) as nat)
    } else {
        zero_padded(v as nat, 2)
    }
}

/// Remainder of `a` by a positive `b`, with the sign of `a`.
pub open spec fn rem_toward_zero(a: int, b: int) -> int {
    a - b * div_toward_zero(a, b)
}

/// `seconds` as minutes and seconds, `mm:ss`.
pub open spec fn mm_ss_text(seconds: int) -> Seq<char> {
    two_wide(div_toward_zero(seconds, 60)) + seq![':'] + two_wide(rem_toward_zero(seconds, 60))
}

/// Relies on `String::push`: appends one character.
#[verifier::external_body]
pub(crate) fn push_char(s: &mut String, c: char)
    ensures
        final(s)@ == old(s)@.push(c),
{
    s.push(c)
}

/// The decimal digit for `k`.
pub(crate) fn digit(k: u64) -> (c: char)
    requires
        k < 10,
    ensures
        c == digit_char(k as int),
{
    match k {
        0 => '0',
        1 => '1',
        2 => '2',
        3 => '3',
        4 => '4',
        5 => '5',
        6 => '6',
        7 => '7',
        8 => '8',
        _ => '9',
    }
}

/// Appends the decimal digits of `n`.
pub fn push_decimal(out: &mut String, n: u64)
    ensures
        final(out)@ == old(out)@ + decimal_digits(n as nat),
    decreases n,
{
    if n >= 10 {
        push_decimal(out, n / 10);
    }
    push_char(out, digit(n % 10));
}

proof fn lemma_decimal_digits_len(n: nat)
    ensures
        decimal_digits(n).len() >= 1,
        n < 10 ==> decimal_digits(n).len() == 1,
        n >= 10 ==> decimal_digits(n).len() >= 2,
        n >= 100 ==> decimal_digits(n).len() >= 3,
        n >= 1000 ==> decimal_digits(n).len() >= 4,
        n < 100 ==> decimal_digits(n).len() <= 2,
        n < 1000 ==> decimal_digits(n).len() <= 3,
        n < 10000 ==> decimal_digits(n).len() <= 4,
    decreases n,
{
    if n >= 10 {
        lemma_decimal_digits_len(n / 10);
    }
}

/// Appends the decimal digits of `n` with leading zeros up to `width` characters.
pub fn push_zero_padded(out: &mut String, n: u64, width: u64)
    requires
        width <= 4,
    ensures
        final(out)@ == old(out)@ + zero_padded(n as nat, width as nat),
{
    proof {
        lemma_decimal_digits_len(n as nat);
    }
    let digits: u64 = if n < 10 {
        1
    } else if n < 100 {
        2
    } else if n < 1000 {
        3
    } else {
        4
    };
    let ghost start = out@;
    let mut k: u64 = digits;
    while k < width
        invariant
            digits <= k,
            k <= width || k == digits,
            out@ == start + Seq::new((k - digits) as nat, |i: int| '0'),
        decreases width - k,
    {
        push_char(out, '0');
        k = k + 1;
        assert(out@ =~= start + Seq::new((k - digits) as nat, |i: int| '0'));
    }
    push_decimal(out, n);
    proof {
        let d = decimal_digits(n as nat);
        if d.len() >= width {
            assert(out@ =~= start + d);
        } else {
            assert(d.len() == digits);
            assert(out@ =~= start + (Seq::new((width - d.len()) as nat, |i: int| '0') + d));
        }
    }
}

/// Appends `v` at least two characters wide, zero-padded after the sign.
fn push_two_wide(out: &mut String, v: i64)
    requires
        -0x1_0000_0000 < v < 0x1_0000_0000,
    ensures
        final(out)@ == old(out)@ + two_wide(v as int),
{
    if v < 0 {
        push_char(out, '-');
        push_decimal(out, (-v) as u64);
        assert(final(out)@ =~= old(out)@ + two_wide(v as int));
    } else {
        push_zero_padded(out, v as u64, 2);
    }
}

/// A solving time in seconds as `mm:ss`.
pub fn convert_time_to_mm_ss(seconds: &i32) -> (r: String)
    ensures
        r@ == mm_ss_text(*seconds as int),
{
    let s: i64 = *seconds as i64;
    let (minutes, rest): (i64, i64) = if s >= 0 {
        (s / 60, s % 60)
    } else {
        (-((-s) / 60), -((-s) % 60))
    };
    assert(minutes == div_toward_zero(s as int, 60));
    assert(rest == rem_toward_zero(s as int, 60));
    let mut out = String::new();
    push_two_wide(&mut out, minutes);
    push_char(&mut out, ':');
    push_two_wide(&mut out, rest);
    assert(out@ =~= mm_ss_text(s as int));
    out
}

/// The solving time of a live-feed score as `mm:ss`, or `--` where there is none.
pub fn unpack_time(score: &Option<NytScore>) -> (r: String)
    ensures
        score is None ==> r@ == seq!['-', '-'],
        score matches Some(sc) ==> r@ == mm_ss_text(sc.seconds_spent_solving as int),
{
    match score {
        Some(sc) => convert_time_to_mm_ss(&sc.seconds_spent_solving),
        None => {
            let mut out = String::new();
            push_char(&mut out, '-');
            push_char(&mut out, '-');
            assert(out@ =~= seq!['-', '-']);
            out
        },
    }
}

} // verus!
