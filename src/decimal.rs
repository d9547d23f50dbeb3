//! Decimal text of integers and of fixed-point numbers.
use vstd::prelude::*;
use vstd::string::*;

verus! {

/// The character of a decimal digit.
pub open spec fn digit_char(d: nat) -> char {
    seq!['0', '1', '2', '3', '4', '5', '6', '7', '8', '9'][d as int]
}

/// The decimal digits of `n`, most significant first, with no leading zero.
pub open spec fn decimal(n: nat) -> Seq<char>
    decreases n,
{
    if n < 10 {
        seq![digit_char(n)]
    } else {
        decimal(n / 10).push(digit_char(n % 10))
    }
}

/// The last `k` decimal digits of `f`, zeros in front where `f` is shorter.
pub open spec fn padded(f: nat, k: nat) -> Seq<char>
    decreases k,
{
    if k == 0 {
        Seq::empty()
    } else {
        padded(f / 10, (k - 1) as nat).push(digit_char(f % 10))
    }
}

/// The last `k` decimal digits of `f` with the zeros at their end dropped.
pub open spec fn trimmed(f: nat, k: nat) -> Seq<char>
    decreases k,
{
    if k > 0 && f % 10 == 0 {
        trimmed(f / 10, (k - 1) as nat)
    } else {
        padded(f, k)
    }
}

/// How many units of a fixed-point number make one.
pub const FIXED_ONE: i64 = 1000000;

/// Decimal places of a fixed-point number.
pub const FIXED_PLACES: u64 = 6;

/// The decimal text of the fixed-point number `v / FIXED_ONE`: a minus sign
/// when it is negative, the whole part, and, when there is a fraction, a point
/// and its digits without trailing zeros.
pub open spec fn fixed_text(v: int) -> Seq<char> {
    let a: nat = if v < 0 { (-v) as nat } else { v as nat };
    let whole = a / (FIXED_ONE as nat);
    let frac = a % (FIXED_ONE as nat);
    let sign = if v < 0 { seq!['-'] } else { Seq::<char>::empty() };
    if frac == 0 {
        sign + decimal(whole)
    } else {
        sign + decimal(whole) + seq!['.'] + trimmed(frac, FIXED_PLACES as nat)
    }
}

fn digit_str(d: u64) -> (r: &'static str)
    requires
        d < 10,
    ensures
        r@ == seq![digit_char(d as nat)],
{
    proof {
        reveal_strlit("0");
        reveal_strlit("1");
        reveal_strlit("2");
        reveal_strlit("3");
        reveal_strlit("4");
        reveal_strlit("5");
        reveal_strlit("6");
        reveal_strlit("7");
        reveal_strlit("8");
        reveal_strlit("9");
    }
    match d {
        0 => "0",
        1 => "1",
        2 => "2",
        3 => "3",
        4 => "4",
        5 => "5",
        6 => "6",
        7 => "7",
        8 => "8",
        _ => "9",
    }
}

/// Appends the decimal digits of `n` to `out`.
pub fn write_decimal(out: &mut String, n: u64)
    ensures
        final(out)@ == old(out)@ + decimal(n as nat),
    decreases n,
{
    if n >= 10 {
        write_decimal(out, n / 10);
    }
    out.append(digit_str(n % 10));
    proof {
        if n >= 10 {
            assert(final(out)@ =~= old(out)@ + decimal(n as nat));
        } else {
            assert(final(out)@ =~= old(out)@ + decimal(n as nat));
        }
    }
}

fn write_padded(out: &mut String, f: u64, k: u64)
    ensures
        final(out)@ == old(out)@ + padded(f as nat, k as nat),
    decreases k,
{
    if k > 0 {
        write_padded(out, f / 10, k - 1);
        out.append(digit_str(f % 10));
        assert(final(out)@ =~= old(out)@ + padded(f as nat, k as nat));
    } else {
        assert(final(out)@ =~= old(out)@ + padded(f as nat, k as nat));
    }
}

fn write_trimmed(out: &mut String, f: u64, k: u64)
    ensures
        final(out)@ == old(out)@ + trimmed(f as nat, k as nat),
    decreases k,
{
    if k > 0 && f % 10 == 0 {
        write_trimmed(out, f / 10, k - 1);
    } else {
        write_padded(out, f, k);
    }
}

/// Appends the decimal text of the fixed-point number `v / FIXED_ONE` to `out`.
pub fn write_fixed(out: &mut String, v: i64)
    ensures
        final(out)@ == old(out)@ + fixed_text(v as int),
{
    let a: u64 = if v < 0 {
        out.append("-");
        (0i128 - v as i128) as u64
    } else {
        v as u64
    };
    let ghost mid = out@;
    let whole: u64 = a / (FIXED_ONE as u64);
    let frac: u64 = a % (FIXED_ONE as u64);
    write_decimal(out, whole);
    if frac != 0 {
        out.append(".");
        write_trimmed(out, frac, FIXED_PLACES);
    }
    proof {
        reveal_strlit("-");
        reveal_strlit(".");
        if v < 0 {
            assert(mid =~= old(out)@ + seq!['-']);
        } else {
            assert(mid =~= old(out)@);
        }
        assert(final(out)@ =~= old(out)@ + fixed_text(v as int));
    }
}

} // verus!
