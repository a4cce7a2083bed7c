//! Decimal ASCII digits of a byte value.
use vstd::prelude::*;

verus! {

/// The ASCII byte of the decimal digit `d` (0 to 9).
pub open spec fn digit_byte(d: u8) -> u8 {
    (48 + d) as u8
}

/// The decimal digits of `n`, most significant first, without leading zeros.
pub open spec fn decimal(n: u8) -> Seq<u8> {
    if n < 10 {
        seq![digit_byte(n)]
    } else if n < 100 {
        seq![digit_byte(n / 10), digit_byte(n % 10)]
    } else {
        seq![digit_byte(n / 100), digit_byte((n / 10) % 10), digit_byte(n % 10)]
    }
}

/// The number of decimal digits of `n`.
pub open spec fn digit_count(n: u8) -> nat {
    if n < 10 {
        1
    } else if n < 100 {
        2
    } else {
        3
    }
}

/// The value of a string of ASCII decimal digits.
pub open spec fn parse_decimal(s: Seq<u8>) -> int
    decreases s.len(),
{
    if s.len() == 0 {
        0
    } else {
        parse_decimal(s.drop_last()) * 10 + (s.last() - 48)
    }
}

/// Whether every byte of `s` is an ASCII decimal digit.
pub open spec fn all_digits(s: Seq<u8>) -> bool {
    forall|i: int| 0 <= i < s.len() ==> 48 <= #[trigger] s[i] <= 57
}

/// Appends the decimal digits of `n` to `out`.
pub fn to_num(n: u8, out: &mut Vec<u8>)
    ensures
        final(out)@ == old(out)@ + decimal(n),
{
    let ghost start = out@;
    if n >= 100 {
        out.push(48u8 + n / 100);
    }
    if n >= 10 {
        out.push(48u8 + (n / 10) % 10);
    }
    out.push(48u8 + n % 10);
    assert(out@ =~= start + decimal(n));
}

/// Reading the digits of `n` back as a decimal number gives `n`; there are as
/// many of them as `n` has decimal digits, and the first is no zero unless `n`
/// is zero.
pub proof fn lemma_decimal_round_trip(n: u8)
    ensures
        parse_decimal(decimal(n)) == n as int,
        decimal(n).len() == digit_count(n),
        all_digits(decimal(n)),
        decimal(n)[0] != 48u8 || n == 0,
{
    let s = decimal(n);
    reveal_with_fuel(parse_decimal, 4);
    if n < 10 {
        assert(s.drop_last() =~= Seq::<u8>::empty());
    } else if n < 100 {
        assert(s.drop_last() =~= seq![digit_byte(n / 10)]);
        assert(s.drop_last().drop_last() =~= Seq::<u8>::empty());
    } else {
        assert(s.drop_last() =~= seq![digit_byte(n / 100), digit_byte((n / 10) % 10)]);
        assert(s.drop_last().drop_last() =~= seq![digit_byte(n / 100)]);
        assert(s.drop_last().drop_last().drop_last() =~= Seq::<u8>::empty());
        assert(n as int == (n / 100) * 100 + ((n / 10) % 10) * 10 + n % 10);
    }
}

} // verus!
