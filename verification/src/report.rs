//! Rendering of monetary amounts: minor units as `integer.fractional` text
//! with exactly two fractional digits, zero-padded.
use vstd::prelude::*;

verus! {

pub open spec fn spec_digit_char(d: int) -> char {
    if d == 0 {
        '0'
    } else if d == 1 {
        '1'
    } else if d == 2 {
        '2'
    } else if d == 3 {
        '3'
    } else if d == 4 {
        '4'
    } else if d == 5 {
        '5'
    } else if d == 6 {
        '6'
    } else if d == 7 {
        '7'
    } else if d == 8 {
        '8'
    } else {
        '9'
    }
}

/// Decimal digits of `n`, most significant first, no leading zeros (a lone
/// zero for zero).
pub open spec fn spec_decimal_digits(n: nat) -> Seq<char>
    decreases n,
{
    if n < 10 {
        seq![spec_digit_char(n as int)]
    } else {
        spec_decimal_digits(n / 10) + seq![spec_digit_char((n % 10) as int)]
    }
}

/// `cents` rendered as currency text: optional minus sign, the whole units
/// in decimal, a point, and exactly two zero-padded fractional digits.
pub open spec fn spec_currency(cents: int) -> Seq<char> {
    let n = if cents < 0 {
        -cents
    } else {
        cents
    };
    let sign: Seq<char> = if cents < 0 {
        seq!['-']
    } else {
        Seq::empty()
    };
    sign + spec_decimal_digits((n / 100) as nat) + seq!['.'] + seq![
        spec_digit_char(n % 100 / 10),
        spec_digit_char(n % 100 % 10),
    ]
}

fn digit_str(d: u64) -> (r: &'static str)
    requires
        d < 10,
    ensures
        r@ == seq![spec_digit_char(d as int)],
{
    proof {
        reveal_strlit("0");
        reveal_strlit("1");
        reveal_strlit("2");
        reveal_strlit("3");
        reveal_strlit("4");
        reveal_strlit("5");
        reveal_strlit("6");
        reveal_strlit("7");
        reveal_strlit("8");
        reveal_strlit("9");
    }
    let r = if d == 0 {
        "0"
    } else if d == 1 {
        "1"
    } else if d == 2 {
        "2"
    } else if d == 3 {
        "3"
    } else if d == 4 {
        "4"
    } else if d == 5 {
        "5"
    } else if d == 6 {
        "6"
    } else if d == 7 {
        "7"
    } else if d == 8 {
        "8"
    } else {
        "9"
    };
    proof {
        assert(r@ =~= seq![spec_digit_char(d as int)]);
    }
    r
}

fn push_decimal_digits(n: u64, out: &mut String)
    ensures
        final(out)@ == old(out)@ + spec_decimal_digits(n as nat),
    decreases n,
{
    if n >= 10 {
        push_decimal_digits(n / 10, out);
    }
    let d = digit_str(n % 10);
    out.append(d);
    proof {
        if n < 10 {
            assert(out@ =~= old(out)@ + spec_decimal_digits(n as nat));
        } else {
            assert(out@ =~= old(out)@ + spec_decimal_digits(n as nat));
        }
    }
}

/// `cents` as `integer.fractional` text with exactly two fractional digits,
/// zero-padded, with a leading minus sign for negative amounts.
pub fn format_currency(cents: i64) -> (r: String)
    requires
        cents > i64::MIN,
    ensures
        r@ == spec_currency(cents as int),
{
    proof {
        reveal_strlit("-");
        reveal_strlit(".");
    }
    let mut s = String::new();
    let n: u64;
    if cents < 0 {
        s.append("-");
        n = (-cents) as u64;
    } else {
        n = cents as u64;
    }
    let dollars = n / 100;
    let frac = n % 100;
    push_decimal_digits(dollars, &mut s);
    s.append(".");
    let d1 = digit_str(frac / 10);
    s.append(d1);
    let d2 = digit_str(frac % 10);
    s.append(d2);
    proof {
        assert(s@ =~= spec_currency(cents as int));
    }
    s
}

} // verus!
