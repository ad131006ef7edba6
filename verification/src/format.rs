//! Number rendering: decimal strings and the human-readable byte sizes with
//! binary units (b, kB, MB, ... at a 1024 divisor).
use vstd::prelude::*;

verus! {

use vstd::arithmetic::div_mod::lemma_div_denominator;
use vstd::arithmetic::div_mod::lemma_fundamental_div_mod;

pub open spec fn dec_digit_char(d: int) -> char {
    if d == 0 {
        '0'
    } else if d == 1 {
        '1'
    } else if d == 2 {
        '2'
    } else if d == 3 {
        '3'
    } else if d == 4 {
        '4'
    } else if d == 5 {
        '5'
    } else if d == 6 {
        '6'
    } else if d == 7 {
        '7'
    } else if d == 8 {
        '8'
    } else {
        '9'
    }
}

/// The decimal digits of a non-negative integer, most significant first.
pub open spec fn dec_str(n: int) -> Seq<char>
    recommends
        n >= 0,
    decreases n,
{
    if n < 10 {
        seq![dec_digit_char(n)]
    } else {
        dec_str(n / 10).push(dec_digit_char(n % 10))
    }
}

/// Render an integer in decimal.
pub fn u64_to_string(n: u64) -> (r: String)
    ensures
        r@ == dec_str(n as int),
    decreases n,
{
    let d: u64 = n % 10;
    let ds: &str = match d {
        0 => "0",
        1 => "1",
        2 => "2",
        3 => "3",
        4 => "4",
        5 => "5",
        6 => "6",
        7 => "7",
        8 => "8",
        _ => "9",
    };
    proof {
        reveal_strlit("0");
        reveal_strlit("1");
        reveal_strlit("2");
        reveal_strlit("3");
        reveal_strlit("4");
        reveal_strlit("5");
        reveal_strlit("6");
        reveal_strlit("7");
        reveal_strlit("8");
        reveal_strlit("9");
        assert(ds@ =~= seq![dec_digit_char(d as int)]);
    }
    if n < 10 {
        String::from_str(ds)
    } else {
        let mut s = u64_to_string(n / 10);
        s.append(ds);
        proof {
            assert(s@ =~= dec_str((n / 10) as int).push(dec_digit_char((n % 10) as int)));
        }
        s
    }
}

/// 1024 raised to the power `i`.
pub open spec fn pow1024(i: nat) -> int
    decreases i,
{
    if i == 0 {
        1
    } else {
        1024 * pow1024((i - 1) as nat)
    }
}

/// How many times 1024 divides into `size` before the quotient drops below
/// 1024: the index of the displayed unit.
pub open spec fn unit_index(size: int) -> nat
    decreases size,
{
    if size < 1024 {
        0
    } else {
        1 + unit_index(size / 1024)
    }
}

pub open spec fn unit_suffix(i: nat) -> Seq<char> {
    if i == 0 {
        "b"@
    } else if i == 1 {
        "kB"@
    } else if i == 2 {
        "MB"@
    } else if i == 3 {
        "GB"@
    } else if i == 4 {
        "TB"@
    } else if i == 5 {
        "PB"@
    } else if i == 6 {
        "EB"@
    } else if i == 7 {
        "ZB"@
    } else {
        "YB"@
    }
}

/// Round `w + r/d` to the nearest integer, ties to the even neighbour.
pub open spec fn round_half_even(w: int, r: int, d: int) -> int {
    if 2 * r > d {
        w + 1
    } else if 2 * r == d && w % 2 == 1 {
        w + 1
    } else {
        w
    }
}

/// The displayed text for a byte count: the count scaled into the largest
/// unit that keeps it below 1024, shown with no decimals when the scaled
/// value reaches 10 or is exactly integral, and with one decimal otherwise.
pub open spec fn format_size_spec(size: int) -> Seq<char> {
    let i = unit_index(size);
    let d = pow1024(i);
    let whole = size / d;
    let rem = size % d;
    if whole >= 10 || rem == 0 {
        dec_str(round_half_even(whole, rem, d)) + unit_suffix(i)
    } else {
        let t = rem * 10;
        let digit2 = round_half_even(t / d, t % d, d);
        if digit2 == 10 {
            dec_str(whole + 1) + seq!['.'] + seq![dec_digit_char(0)] + unit_suffix(i)
        } else {
            dec_str(whole) + seq!['.'] + seq![dec_digit_char(digit2)] + unit_suffix(i)
        }
    }
}

fn unit_suffix_str(i: u64) -> (r: &'static str)
    ensures
        r@ == unit_suffix(i as nat),
{
    match i {
        0 => "b",
        1 => "kB",
        2 => "MB",
        3 => "GB",
        4 => "TB",
        5 => "PB",
        6 => "EB",
        7 => "ZB",
        _ => "YB",
    }
}

/// Render a byte count for display, as the original size column shows it.
#[verifier::loop_isolation(false)]
pub fn format_file_size(size: u64) -> (r: String)
    ensures
        r@ == format_size_spec(size as int),
{
    let mut whole: u64 = size;
    let mut d: u64 = 1;
    let mut index: u64 = 0;
    while whole >= 1024
        invariant
            1 <= d,
            index + 1 <= d,
            d as int == pow1024(index as nat),
            whole as int == size as int / d as int,
            unit_index(size as int) == index + unit_index(whole as int),
        decreases whole,
    {
        proof {
            lemma_fundamental_div_mod(size as int, d as int);
            assert(size as int >= d as int * 1024) by (nonlinear_arith)
                requires
                    size as int == d as int * (whole as int) + (size as int % d as int),
                    whole >= 1024,
                    size as int % d as int >= 0,
                    d >= 1,
            ;
            lemma_div_denominator(size as int, d as int, 1024);
        }
        whole = whole / 1024;
        d = d * 1024;
        index = index + 1;
    }
    let rem: u64 = size % d;
    proof {
        lemma_fundamental_div_mod(size as int, d as int);
    }
    let ghost di: int = d as int;
    let unit = unit_suffix_str(index);
    if whole >= 10 || rem == 0 {
        let carry: u64 = if (rem as u128) * 2 > d as u128 {
            1
        } else if (rem as u128) * 2 == d as u128 && whole % 2 == 1 {
            1
        } else {
            0
        };
        proof {
            assert(whole + carry == round_half_even(whole as int, rem as int, di));
        }
        let mut s = u64_to_string(whole + carry);
        s.append(unit);
        s
    } else {
        let t: u128 = (rem as u128) * 10;
        let digit: u128 = t / (d as u128);
        let drem: u128 = t % (d as u128);
        proof {
            assert(t as int == rem as int * 10);
            assert(digit as int == (rem as int * 10) / di);
            assert(drem as int == (rem as int * 10) % di);
            assert(rem as int * 10 < di * 10) by (nonlinear_arith)
                requires
                    rem < d,
                    di == d as int,
            ;
            assert(digit < 10) by (nonlinear_arith)
                requires
                    digit as int == (rem as int * 10) / di,
                    rem as int * 10 < di * 10,
                    rem >= 0,
                    di >= 1,
            ;
        }
        let carry: u128 = if drem * 2 > d as u128 {
            1
        } else if drem * 2 == d as u128 && digit % 2 == 1 {
            1
        } else {
            0
        };
        let digit2: u64 = (digit + carry) as u64;
        proof {
            assert(digit2 as int == round_half_even(
                (rem as int * 10) / di,
                (rem as int * 10) % di,
                di,
            ));
        }
        let mut s = if digit2 == 10 {
            u64_to_string(whole + 1)
        } else {
            u64_to_string(whole)
        };
        let dot_digit: &str = match digit2 {
            10 => ".0",
            0 => ".0",
            1 => ".1",
            2 => ".2",
            3 => ".3",
            4 => ".4",
            5 => ".5",
            6 => ".6",
            7 => ".7",
            8 => ".8",
            _ => ".9",
        };
        proof {
            reveal_strlit(".0");
            reveal_strlit(".1");
            reveal_strlit(".2");
            reveal_strlit(".3");
            reveal_strlit(".4");
            reveal_strlit(".5");
            reveal_strlit(".6");
            reveal_strlit(".7");
            reveal_strlit(".8");
            reveal_strlit(".9");
            if digit2 == 10 {
                assert(dot_digit@ =~= seq!['.'] + seq![dec_digit_char(0)]);
            } else {
                assert(dot_digit@ =~= seq!['.'] + seq![dec_digit_char(digit2 as int)]);
            }
        }
        s.append(dot_digit);
        s.append(unit);
        proof {
            assert(s@ =~= format_size_spec(size as int));
        }
        s
    }
}

} // verus!
