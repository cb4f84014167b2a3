//! Decimal rendering of coordinates. Lengths and ratios are carried as
//! fixed-point integers in thousandths (millipoints for lengths, milliunits
//! for ratios) and printed with exactly three decimal places.

use vstd::prelude::*;

verus! {

/// The digit character for `d % 10`.
pub open spec fn digit_char(d: nat) -> char {
    ((48 + d % 10) as u8) as char
}

/// Decimal digits of `n`, most significant first.
pub open spec fn spec_digits(n: nat) -> Seq<char>
    decreases n,
{
    if n < 10 {
        seq![digit_char(n)]
    } else {
        spec_digits(n / 10) + seq![digit_char(n % 10)]
    }
}

/// Decimal rendering of the fixed-point value `n` thousandths: an optional
/// sign, the whole part, a point, and exactly three fractional digits.
pub open spec fn spec_fixed3(n: int) -> Seq<char> {
    let a = if n < 0 { -n } else { n };
    let sign: Seq<char> = if n < 0 { seq!['-'] } else { Seq::empty() };
    sign + spec_digits((a / 1000) as nat) + seq!['.'] + seq![
        digit_char((a / 100) as nat),
        digit_char((a / 10) as nat),
        digit_char(a as nat),
    ]
}

/// Append the decimal digits of `n` to `out`.
pub fn push_digits(out: &mut Vec<char>, n: u64)
    ensures
        final(out)@ == old(out)@ + spec_digits(n as nat),
    decreases n,
{
    if n < 10 {
        out.push(((48 + n) as u8) as char);
        proof {
            assert(n as nat % 10 == n as nat);
            assert(out@ =~= old(out)@ + spec_digits(n as nat));
        }
    } else {
        push_digits(out, n / 10);
        out.push(((48 + n % 10) as u8) as char);
        proof {
            assert(out@ =~= old(out)@ + (spec_digits((n / 10) as nat) + seq![
                digit_char(n as nat % 10),
            ]));
            assert(spec_digits(n as nat) == spec_digits(n as nat / 10) + seq![
                digit_char(n as nat % 10),
            ]);
        }
    }
}

/// Append the three-decimal rendering of the fixed-point value `n` to `out`.
pub fn push_fixed3(out: &mut Vec<char>, n: i64)
    requires
        n != i64::MIN,
    ensures
        final(out)@ == old(out)@ + spec_fixed3(n as int),
{
    let ghost base = out@;
    if n < 0 {
        out.push('-');
    }
    let a: u64 = if n < 0 {
        (-n) as u64
    } else {
        n as u64
    };
    push_digits(out, a / 1000);
    out.push('.');
    out.push(((48 + (a / 100) % 10) as u8) as char);
    out.push(((48 + (a / 10) % 10) as u8) as char);
    out.push(((48 + a % 10) as u8) as char);
    proof {
        let ni = n as int;
        let ai = if ni < 0 { -ni } else { ni };
        assert(a as nat == ai as nat);
        assert((a / 1000) as nat == (ai / 1000) as nat);
        assert((48 + (a / 100) % 10) as u8 as char == digit_char((ai / 100) as nat));
        assert((48 + (a / 10) % 10) as u8 as char == digit_char((ai / 10) as nat));
        assert((48 + a % 10) as u8 as char == digit_char(ai as nat));
        assert(out@ =~= base + spec_fixed3(n as int));
    }
}

} // verus!
