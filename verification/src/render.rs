//! Verified text rendering: decimal digits and fixed-point numbers.
//!
//! Transactions are serialized to JSON text by the library itself, so
//! the exact bytes that go on the wire are covered by contracts.  A
//! fixed-point value prints as its integer part, a point, and the
//! seven-digit fraction with trailing zeros removed (one digit kept:
//! 50.0 prints as `50.0`, half as `0.5`).

use vstd::prelude::*;

verus! {

/// The character of one decimal digit.
pub open spec fn digit_char(d: int) -> char {
    if d == 0 {
        '0'
    } else if d == 1 {
        '1'
    } else if d == 2 {
        '2'
    } else if d == 3 {
        '3'
    } else if d == 4 {
        '4'
    } else if d == 5 {
        '5'
    } else if d == 6 {
        '6'
    } else if d == 7 {
        '7'
    } else if d == 8 {
        '8'
    } else {
        '9'
    }
}

/// Decimal digits of a nonnegative integer, most significant first.
pub open spec fn spec_digits(n: int) -> Seq<char>
    recommends
        n >= 0,
    decreases n,
{
    if n < 10 {
        seq![digit_char(n)]
    } else {
        spec_digits(n / 10) + seq![digit_char(n % 10)]
    }
}

/// Exactly `d` decimal digits of `f`, zero-padded on the left.
pub open spec fn spec_padded(f: int, d: int) -> Seq<char>
    recommends
        f >= 0,
    decreases d,
{
    if d <= 0 {
        Seq::empty()
    } else {
        spec_padded(f / 10, d - 1) + seq![digit_char(f % 10)]
    }
}

/// Remove trailing zero digits from a `d`-digit fraction, keeping at
/// least one digit: the remaining value and its digit count.
pub open spec fn spec_trim(f: int, d: int) -> (int, int)
    decreases d,
{
    if d <= 1 || f % 10 != 0 {
        (f, d)
    } else {
        spec_trim(f / 10, d - 1)
    }
}

/// Decimal rendering of a fixed-point value (seven decimal places):
/// optional sign, integer part, point, trimmed fraction.
pub open spec fn spec_dec(n: int) -> Seq<char> {
    let sign: Seq<char> = if n < 0 {
        seq!['-']
    } else {
        Seq::empty()
    };
    let m: int = if n < 0 {
        -n
    } else {
        n
    };
    let t: (int, int) = spec_trim(m % 10_000_000, 7);
    sign + spec_digits(m / 10_000_000) + seq!['.'] + spec_padded(t.0, t.1)
}

/// Append one digit character.
fn push_digit(s: &mut String, d: u64)
    requires
        d < 10,
    ensures
        final(s)@ == old(s)@ + seq![digit_char(d as int)],
{
    if d == 0 {
        s.append("0");
        proof {
            reveal_strlit("0");
            assert(old(s)@ + "0"@ =~= old(s)@ + seq![digit_char(0)]);
        }
    } else if d == 1 {
        s.append("1");
        proof {
            reveal_strlit("1");
            assert(old(s)@ + "1"@ =~= old(s)@ + seq![digit_char(1)]);
        }
    } else if d == 2 {
        s.append("2");
        proof {
            reveal_strlit("2");
            assert(old(s)@ + "2"@ =~= old(s)@ + seq![digit_char(2)]);
        }
    } else if d == 3 {
        s.append("3");
        proof {
            reveal_strlit("3");
            assert(old(s)@ + "3"@ =~= old(s)@ + seq![digit_char(3)]);
        }
    } else if d == 4 {
        s.append("4");
        proof {
            reveal_strlit("4");
            assert(old(s)@ + "4"@ =~= old(s)@ + seq![digit_char(4)]);
        }
    } else if d == 5 {
        s.append("5");
        proof {
            reveal_strlit("5");
            assert(old(s)@ + "5"@ =~= old(s)@ + seq![digit_char(5)]);
        }
    } else if d == 6 {
        s.append("6");
        proof {
            reveal_strlit("6");
            assert(old(s)@ + "6"@ =~= old(s)@ + seq![digit_char(6)]);
        }
    } else if d == 7 {
        s.append("7");
        proof {
            reveal_strlit("7");
            assert(old(s)@ + "7"@ =~= old(s)@ + seq![digit_char(7)]);
        }
    } else if d == 8 {
        s.append("8");
        proof {
            reveal_strlit("8");
            assert(old(s)@ + "8"@ =~= old(s)@ + seq![digit_char(8)]);
        }
    } else {
        s.append("9");
        proof {
            reveal_strlit("9");
            assert(old(s)@ + "9"@ =~= old(s)@ + seq![digit_char(9)]);
        }
    }
}

/// The decimal digits of `n`, as a string.
pub fn udec_string(n: u64) -> (s: String)
    ensures
        s@ == spec_digits(n as int),
    decreases n,
{
    if n < 10 {
        let mut s = String::new();
        push_digit(&mut s, n);
        proof {
            assert(Seq::<char>::empty() + seq![digit_char(n as int)] =~= seq![
                digit_char(n as int),
            ]);
        }
        s
    } else {
        let mut s = udec_string(n / 10);
        push_digit(&mut s, n % 10);
        s
    }
}

/// Exactly `d` digits of `f`, zero-padded, as a string.
fn padded_string(f: u64, d: u64) -> (s: String)
    ensures
        s@ == spec_padded(f as int, d as int),
    decreases d,
{
    if d == 0 {
        String::new()
    } else {
        let mut s = padded_string(f / 10, d - 1);
        push_digit(&mut s, f % 10);
        s
    }
}

/// Render a fixed-point value as decimal text.
pub fn dec_string(n: i64) -> (s: String)
    requires
        -1_000_000_000_000_000_000 <= n <= 1_000_000_000_000_000_000,
    ensures
        s@ == spec_dec(n as int),
{
    let m: u64 = if n >= 0 {
        n as u64
    } else {
        (-n) as u64
    };
    let whole: u64 = m / 10_000_000;
    let mut frac: u64 = m % 10_000_000;
    let mut d: u64 = 7;
    proof {
        assert(spec_trim(m as int % 10_000_000, 7) == spec_trim(frac as int, d as int));
    }
    while frac % 10 == 0 && d > 1
        invariant
            1 <= d <= 7,
            spec_trim(m as int % 10_000_000, 7) == spec_trim(frac as int, d as int),
        decreases d,
    {
        frac = frac / 10;
        d = d - 1;
    }
    let mut out: String = String::new();
    if n < 0 {
        out.append("-");
        proof {
            reveal_strlit("-");
        }
    }
    let whole_str: String = udec_string(whole);
    out.append(whole_str.as_str());
    out.append(".");
    let frac_str: String = padded_string(frac, d);
    out.append(frac_str.as_str());
    proof {
        reveal_strlit(".");
        if n < 0 {
            assert(out@ =~= seq!['-'] + spec_digits(whole as int) + seq!['.'] + spec_padded(
                frac as int,
                d as int,
            ));
        } else {
            assert(out@ =~= Seq::<char>::empty() + spec_digits(whole as int) + seq!['.']
                + spec_padded(frac as int, d as int));
        }
    }
    out
}

} // verus!
