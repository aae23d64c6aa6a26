//! Decimal rendering of unsigned integers.
use vstd::prelude::*;
use vstd::string::*;

verus! {

/// The decimal digit character for `d < 10`.
pub open spec fn digit_char(d: nat) -> char {
    if d == 0 {
        '0'
    } else if d == 1 {
        '1'
    } else if d == 2 {
        '2'
    } else if d == 3 {
        '3'
    } else if d == 4 {
        '4'
    } else if d == 5 {
        '5'
    } else if d == 6 {
        '6'
    } else if d == 7 {
        '7'
    } else if d == 8 {
        '8'
    } else {
        '9'
    }
}

/// The decimal notation of `n`, without leading zeros ("0" for zero).
pub open spec fn decimal(n: nat) -> Seq<char>
    decreases n,
{
    if n < 10 {
        seq![digit_char(n)]
    } else {
        decimal(n / 10).push(digit_char(n % 10))
    }
}

fn digit_text(d: u64) -> (s: String)
    requires
        d < 10,
    ensures
        s@ == seq![digit_char(d as nat)],
{
    proof {
        reveal_strlit("0");
        reveal_strlit("1");
        reveal_strlit("2");
        reveal_strlit("3");
        reveal_strlit("4");
        reveal_strlit("5");
        reveal_strlit("6");
        reveal_strlit("7");
        reveal_strlit("8");
        reveal_strlit("9");
    }
    match d {
        0 => String::from_str("0"),
        1 => String::from_str("1"),
        2 => String::from_str("2"),
        3 => String::from_str("3"),
        4 => String::from_str("4"),
        5 => String::from_str("5"),
        6 => String::from_str("6"),
        7 => String::from_str("7"),
        8 => String::from_str("8"),
        _ => String::from_str("9"),
    }
}

/// The decimal notation of `n`.
pub fn to_decimal(n: u64) -> (s: String)
    ensures
        s@ == decimal(n as nat),
    decreases n,
{
    if n < 10 {
        digit_text(n)
    } else {
        let mut s = to_decimal(n / 10);
        let last = digit_text(n % 10);
        s.append(last.as_str());
        s
    }
}

/// The decimal notation of a 128-bit `n`.
pub fn to_decimal_wide(n: u128) -> (s: String)
    ensures
        s@ == decimal(n as nat),
    decreases n,
{
    if n < 10 {
        digit_text(n as u64)
    } else {
        let mut s = to_decimal_wide(n / 10);
        let last = digit_text((n % 10) as u64);
        s.append(last.as_str());
        s
    }
}

/// Thousandths `f < 1000` written after a decimal point, without trailing zeros.
pub open spec fn thousandths(f: nat) -> Seq<char> {
    if f % 100 == 0 {
        seq![digit_char(f / 100)]
    } else if f % 10 == 0 {
        seq![digit_char(f / 100), digit_char((f / 10) % 10)]
    } else {
        seq![digit_char(f / 100), digit_char((f / 10) % 10), digit_char(f % 10)]
    }
}

/// A ratio given in thousandths, in its shortest decimal notation: `1.5` for
/// 1500, `2` for 2000, `0.125` for 125.
pub open spec fn ratio_decimal(p: nat) -> Seq<char> {
    if p % 1000 == 0 {
        decimal(p / 1000)
    } else {
        decimal(p / 1000) + "."@ + thousandths(p % 1000)
    }
}

/// The shortest decimal notation of a ratio given in thousandths.
pub fn to_ratio_decimal(p: u64) -> (s: String)
    ensures
        s@ == ratio_decimal(p as nat),
{
    proof {
        reveal_strlit(".");
    }
    let mut s = to_decimal(p / 1000);
    let f = p % 1000;
    if f != 0 {
        s.append(".");
        let a = digit_text(f / 100);
        s.append(a.as_str());
        if f % 100 != 0 {
            let b = digit_text((f / 10) % 10);
            s.append(b.as_str());
            if f % 10 != 0 {
                let c = digit_text(f % 10);
                s.append(c.as_str());
            }
        }
    }
    s
}

} // verus!

verus! {

/// The decimal notation of a signed value, with a leading `-` when negative.
pub open spec fn signed_decimal(n: int) -> Seq<char> {
    if n < 0 {
        seq!['-'] + decimal((-n) as nat)
    } else {
        decimal(n as nat)
    }
}

/// The decimal notation of `n`, with a leading `-` when negative.
pub fn to_signed_decimal(n: i64) -> (s: String)
    ensures
        s@ == signed_decimal(n as int),
{
    if n < 0 {
        let magnitude: u64 = if n == i64::MIN {
            9_223_372_036_854_775_808u64
        } else {
            (-n) as u64
        };
        let mut s = String::from_str("-");
        proof {
            reveal_strlit("-");
        }
        let digits = to_decimal(magnitude);
        s.append(digits.as_str());
        s
    } else {
        to_decimal(n as u64)
    }
}

} // verus!
