//! Rendering the resolved lineage as the ten fixed report lines. All
//! formatting is integer-based: amounts are converted from satoshis to
//! whole-coin decimal text, and the fee to signed scientific notation,
//! without any floating-point accumulation.

use vstd::prelude::*;
use vstd::string::StringExecFns;
use crate::types::Hash32;
use crate::resolve::LineageReport;

verus! {

/// The decimal digit character for one digit value (values above nine all
/// map to the last digit; callers never pass them).
pub open spec fn spec_digit(d: nat) -> char {
    if d == 0 {
        '0'
    } else if d == 1 {
        '1'
    } else if d == 2 {
        '2'
    } else if d == 3 {
        '3'
    } else if d == 4 {
        '4'
    } else if d == 5 {
        '5'
    } else if d == 6 {
        '6'
    } else if d == 7 {
        '7'
    } else if d == 8 {
        '8'
    } else {
        '9'
    }
}

/// The decimal digits of a number, most significant first, with no leading
/// zeros (zero itself renders as one digit).
pub open spec fn spec_digits(n: nat) -> Seq<char>
    decreases n,
{
    if n < 10 {
        seq![spec_digit(n)]
    } else {
        spec_digits(n / 10).push(spec_digit(n % 10))
    }
}

/// Powers of ten.
pub open spec fn spec_pow10(e: nat) -> nat
    decreases e,
{
    if e == 0 {
        1
    } else {
        10 * spec_pow10((e - 1) as nat)
    }
}

proof fn lemma_pow10_monotone(a: nat, b: nat)
    requires
        a <= b,
    ensures
        spec_pow10(a) <= spec_pow10(b),
        spec_pow10(a) >= 1,
    decreases b,
{
    if a < b {
        lemma_pow10_monotone(a, (b - 1) as nat);
    } else if a > 0 {
        lemma_pow10_monotone((a - 1) as nat, (b - 1) as nat);
    }
}

/// Every positive number lies between the powers of ten its digit count
/// names: with `d` digits, `10^(d-1) <= n < 10^d`.
proof fn lemma_digits_bounds(n: nat)
    requires
        n >= 1,
    ensures
        spec_digits(n).len() >= 1,
        spec_pow10((spec_digits(n).len() - 1) as nat) <= n,
        n < spec_pow10(spec_digits(n).len()),
    decreases n,
{
    if n < 10 {
    } else {
        lemma_digits_bounds(n / 10);
        let l = spec_digits(n / 10).len();
        assert(spec_digits(n).len() == l + 1);
        assert(n == 10 * (n / 10) + n % 10);
        assert(spec_pow10((l + 1) as nat) == 10 * spec_pow10(l));
        assert(spec_pow10(l) == 10 * spec_pow10((l - 1) as nat));
    }
}

/// One decimal digit as a string slice.
fn digit_str(d: u64) -> (r: &'static str)
    requires
        d < 10,
    ensures
        r@ == seq![spec_digit(d as nat)],
{
    proof {
        reveal_strlit("0");
        reveal_strlit("1");
        reveal_strlit("2");
        reveal_strlit("3");
        reveal_strlit("4");
        reveal_strlit("5");
        reveal_strlit("6");
        reveal_strlit("7");
        reveal_strlit("8");
        reveal_strlit("9");
    }
    let s = if d == 0 {
        "0"
    } else if d == 1 {
        "1"
    } else if d == 2 {
        "2"
    } else if d == 3 {
        "3"
    } else if d == 4 {
        "4"
    } else if d == 5 {
        "5"
    } else if d == 6 {
        "6"
    } else if d == 7 {
        "7"
    } else if d == 8 {
        "8"
    } else {
        "9"
    };
    proof {
        assert(s@ =~= seq![spec_digit(d as nat)]);
    }
    s
}

/// Render a number in decimal, as `spec_digits` states.
pub fn format_u64(n: u64) -> (r: String)
    ensures
        r@ == spec_digits(n as nat),
    decreases n,
{
    if n < 10 {
        String::from_str(digit_str(n))
    } else {
        let prefix = format_u64(n / 10);
        let r = prefix.concat(digit_str(n % 10));
        proof {
            assert(r@ =~= spec_digits(n as nat));
        }
        r
    }
}

/// Exactly `width` decimal digits of `n mod 10^width`, zero-padded on the
/// left, most significant first.
pub open spec fn spec_padded(n: nat, width: nat) -> Seq<char>
    decreases width,
{
    if width == 0 {
        Seq::empty()
    } else {
        spec_padded(n / 10, (width - 1) as nat).push(spec_digit(n % 10))
    }
}

fn format_padded(n: u64, width: u64) -> (r: String)
    ensures
        r@ == spec_padded(n as nat, width as nat),
    decreases width,
{
    if width == 0 {
        let r = String::new();
        proof {
            assert(r@ =~= spec_padded(n as nat, 0));
        }
        r
    } else {
        let prefix = format_padded(n / 10, width - 1);
        let r = prefix.concat(digit_str(n % 10));
        proof {
            assert(r@ =~= spec_padded(n as nat, width as nat));
        }
        r
    }
}

/// Strip trailing `'0'` characters.
pub open spec fn spec_trim_zeros(s: Seq<char>) -> Seq<char>
    decreases s.len(),
{
    if s.len() > 0 && s.last() == '0' {
        spec_trim_zeros(s.drop_last())
    } else {
        s
    }
}

/// An amount of satoshis in whole-coin decimal text: the whole-coin part,
/// then — only when the amount is no whole number of coins — a point and
/// the fractional part with trailing zeros trimmed.
pub open spec fn spec_btc(sats: u64) -> Seq<char> {
    let whole = sats as nat / 100_000_000;
    let frac = sats as nat % 100_000_000;
    if frac == 0 {
        spec_digits(whole)
    } else {
        spec_digits(whole) + seq!['.'] + spec_trim_zeros(spec_padded(frac, 8))
    }
}

/// Render an amount of satoshis in whole-coin units, as `spec_btc` states.
pub fn format_btc(sats: u64) -> (r: String)
    ensures
        r@ == spec_btc(sats),
{
    let whole = sats / 100_000_000;
    let frac = sats % 100_000_000;
    let whole_s = format_u64(whole);
    if frac == 0 {
        whole_s
    } else {
        let mut f = frac;
        let mut width: u64 = 8;
        proof {
            reveal_with_fuel(spec_pow10, 9);
            assert((f as nat) < spec_pow10(8));
        }
        while f % 10 == 0
            invariant
                1 <= f,
                width <= 8,
                (f as nat) < spec_pow10(width as nat),
                spec_trim_zeros(spec_padded(frac as nat, 8)) == spec_trim_zeros(
                    spec_padded(f as nat, width as nat),
                ),
            decreases width,
        {
            proof {
                if width == 0 {
                    assert((f as nat) < 1);
                }
                let s = spec_padded(f as nat / 10, (width - 1) as nat);
                assert(spec_padded(f as nat, width as nat) == s.push(spec_digit(f as nat % 10)));
                assert(spec_digit(f as nat % 10) == '0');
                assert(s.push('0').drop_last() =~= s);
                assert((f as nat) == 10 * ((f as nat) / 10) + (f as nat) % 10);
                assert(spec_pow10(width as nat) == 10 * spec_pow10((width - 1) as nat));
            }
            f = f / 10;
            width = width - 1;
        }
        proof {
            if width == 0 {
                assert((f as nat) < 1);
            }
            let s = spec_padded(f as nat, width as nat);
            assert(s.last() == spec_digit(f as nat % 10));
            assert(spec_digit(f as nat % 10) != '0');
            assert(spec_trim_zeros(s) == s);
        }
        let frac_s = format_padded(f, width);
        let with_dot = whole_s.concat(".");
        let r = with_dot.concat(frac_s.as_str());
        proof {
            reveal_strlit(".");
            assert(r@ =~= spec_btc(sats));
        }
        r
    }
}

/// The hex digit character for one value below sixteen (lower case).
pub open spec fn spec_hex_digit(d: nat) -> char {
    if d < 10 {
        spec_digit(d)
    } else if d == 10 {
        'a'
    } else if d == 11 {
        'b'
    } else if d == 12 {
        'c'
    } else if d == 13 {
        'd'
    } else if d == 14 {
        'e'
    } else {
        'f'
    }
}

/// Lower-case hex text of a byte sequence: two digits per byte, in order.
pub open spec fn spec_hex(s: Seq<u8>) -> Seq<char>
    decreases s.len(),
{
    if s.len() == 0 {
        Seq::empty()
    } else {
        spec_hex(s.drop_last()) + seq![
            spec_hex_digit(s.last() as nat / 16),
            spec_hex_digit(s.last() as nat % 16),
        ]
    }
}

fn hex_digit_str(d: u64) -> (r: &'static str)
    requires
        d < 16,
    ensures
        r@ == seq![spec_hex_digit(d as nat)],
{
    if d < 10 {
        digit_str(d)
    } else {
        proof {
            reveal_strlit("a");
            reveal_strlit("b");
            reveal_strlit("c");
            reveal_strlit("d");
            reveal_strlit("e");
            reveal_strlit("f");
        }
        let s = if d == 10 {
            "a"
        } else if d == 11 {
            "b"
        } else if d == 12 {
            "c"
        } else if d == 13 {
            "d"
        } else if d == 14 {
            "e"
        } else {
            "f"
        };
        proof {
            assert(s@ =~= seq![spec_hex_digit(d as nat)]);
        }
        s
    }
}

/// Render a 32-byte identifier as lower-case hex, as `spec_hex` states.
pub fn format_hex(id: &Hash32) -> (r: String)
    ensures
        r@ == spec_hex(id@),
{
    let mut r = String::new();
    let n = id.bytes.len();
    let mut i: usize = 0;
    proof {
        assert(id.bytes@.take(0) =~= Seq::<u8>::empty());
        assert(r@ =~= spec_hex(id.bytes@.take(0)));
    }
    while i < n
        invariant
            n == id.bytes@.len(),
            i <= n,
            r@ == spec_hex(id.bytes@.take(i as int)),
        decreases n - i,
    {
        let b = id.bytes[i];
        r.append(hex_digit_str((b / 16) as u64));
        r.append(hex_digit_str((b % 16) as u64));
        proof {
            let t1 = id.bytes@.take(i + 1);
            assert(t1.drop_last() =~= id.bytes@.take(i as int));
            assert(t1.last() == id.bytes@[i as int]);
            assert(r@ =~= spec_hex(t1));
        }
        i = i + 1;
    }
    proof {
        assert(id.bytes@.take(n as int) =~= id.bytes@);
    }
    r
}

proof fn lemma_pow10_add(a: nat, b: nat)
    ensures
        spec_pow10((a + b) as nat) == spec_pow10(a) * spec_pow10(b),
    decreases a,
{
    if a == 0 {
        assert(spec_pow10((a + b) as nat) == spec_pow10(b));
        assert(spec_pow10(a) == 1);
        assert(1 * spec_pow10(b) == spec_pow10(b)) by (nonlinear_arith);
    } else {
        lemma_pow10_add((a - 1) as nat, b);
        let x = spec_pow10((a - 1) as nat);
        let y = spec_pow10(b);
        assert(spec_pow10(((a - 1) + b) as nat) == x * y);
        assert((a + b - 1) as nat == ((a - 1) + b) as nat);
        assert(spec_pow10((a + b) as nat) == 10 * spec_pow10((a + b - 1) as nat));
        assert(spec_pow10((a + b) as nat) == 10 * (x * y));
        assert((10 * x) * y == 10 * (x * y)) by (nonlinear_arith);
        assert(spec_pow10(a) == 10 * x);
        assert(spec_pow10(a) * spec_pow10(b) == (10 * x) * y);
        assert(spec_pow10((a + b) as nat) == spec_pow10(a) * spec_pow10(b));
    }
}

/// Number of decimal digits.
fn num_digits(n: u64) -> (d: u64)
    ensures
        d == spec_digits(n as nat).len(),
        1 <= d <= 20,
    decreases n,
{
    if n < 10 {
        1
    } else {
        let rest = num_digits(n / 10);
        proof {
            lemma_digits_bounds((n / 10) as nat);
            reveal_with_fuel(spec_pow10, 21);
            if rest >= 20 {
                lemma_pow10_monotone(20, (rest - 1) as nat);
                assert((n / 10) as nat >= spec_pow10(20));
            }
        }
        rest + 1
    }
}

/// Powers of ten as machine integers, up to the largest that fits.
fn pow10(e: u64) -> (r: u64)
    requires
        e <= 19,
    ensures
        r == spec_pow10(e as nat),
        r >= 1,
    decreases e,
{
    if e == 0 {
        1
    } else {
        let p = pow10(e - 1);
        proof {
            lemma_pow10_monotone((e - 1) as nat, 18);
            reveal_with_fuel(spec_pow10, 19);
            assert(spec_pow10(18) == 1_000_000_000_000_000_000);
        }
        10 * p
    }
}

/// A positive fee in scientific notation, negated: a leading minus, one
/// significant digit, a point, two more significant digits (the value
/// rounded half up at the third significant digit), `e`, and the decimal
/// exponent of coins (eight less than of satoshis). Rounding that carries
/// into a fourth digit renormalizes: `999.5 => 1.00` with the exponent one
/// higher.
pub open spec fn spec_sci(fee: nat) -> Seq<char> {
    let d = spec_digits(fee).len();
    let q1 = if d <= 3 {
        fee * spec_pow10((3 - d) as nat)
    } else {
        let p = spec_pow10((d - 3) as nat);
        if 2 * (fee % p) >= p {
            fee / p + 1
        } else {
            fee / p
        }
    };
    let q = if q1 == 1000 {
        100 as nat
    } else {
        q1
    };
    let e: int = if q1 == 1000 {
        d as int - 8
    } else {
        d as int - 9
    };
    let mantissa = seq![spec_digit(q / 100), '.', spec_digit((q / 10) % 10), spec_digit(q % 10)];
    let expo = if e < 0 {
        seq!['-'] + spec_digits((-e) as nat)
    } else {
        spec_digits(e as nat)
    };
    seq!['-'] + mantissa + seq!['e'] + expo
}

/// The fee report line: the fee rendered as a negative value in
/// scientific notation (the report convention signals net cost to the
/// payer), a zero fee included.
pub open spec fn spec_fee_line(fee_sats: u64) -> Seq<char> {
    if fee_sats == 0 {
        seq!['-', '0', '.', '0', '0', 'e', '0']
    } else {
        spec_sci(fee_sats as nat)
    }
}

/// Render the fee line, as `spec_fee_line` states.
#[verifier::rlimit(60)]
pub fn format_fee_line(fee_sats: u64) -> (r: String)
    ensures
        r@ == spec_fee_line(fee_sats),
{
    if fee_sats == 0 {
        let r = String::from_str("-0.00e0");
        proof {
            reveal_strlit("-0.00e0");
            assert(r@ =~= spec_fee_line(0));
        }
        return r;
    }
    let d = num_digits(fee_sats);
    proof {
        lemma_digits_bounds(fee_sats as nat);
    }
    let q1: u64;
    if d <= 3 {
        let m = pow10(3 - d);
        proof {
            reveal_with_fuel(spec_pow10, 4);
            lemma_pow10_add((d - 1) as nat, (3 - d) as nat);
            lemma_pow10_add(d as nat, (3 - d) as nat);
            let dp = spec_pow10(d as nat);
            let lp = spec_pow10((d - 1) as nat);
            assert(dp * (m as nat) == 1000);
            assert(lp * (m as nat) == 100);
            assert((fee_sats as nat) * (m as nat) + m as nat <= 1000) by (nonlinear_arith)
                requires
                    (fee_sats as nat) < dp,
                    dp * (m as nat) == 1000,
            ;
            assert((fee_sats as nat) * (m as nat) >= 100) by (nonlinear_arith)
                requires
                    (fee_sats as nat) >= lp,
                    lp * (m as nat) == 100,
            ;
        }
        q1 = fee_sats * m;
    } else {
        let p = pow10(d - 3);
        let q0 = fee_sats / p;
        let rem = fee_sats % p;
        proof {
            lemma_pow10_monotone((d - 3) as nat, 17);
            reveal_with_fuel(spec_pow10, 18);
            assert(spec_pow10(17) == 100_000_000_000_000_000);
            lemma_pow10_add(3, (d - 3) as nat);
            lemma_pow10_add(2, (d - 3) as nat);
            reveal_with_fuel(spec_pow10, 4);
            assert(spec_pow10(d as nat) == 1000 * (p as nat));
            assert(spec_pow10((d - 1) as nat) == 100 * (p as nat));
            vstd::arithmetic::div_mod::lemma_fundamental_div_mod(fee_sats as int, p as int);
            assert((q0 as int) < 1000) by (nonlinear_arith)
                requires
                    (p as int) * (q0 as int) + (rem as int) < 1000 * (p as int),
                    rem >= 0,
                    p >= 1,
            ;
            assert((q0 as int) >= 100) by (nonlinear_arith)
                requires
                    (p as int) * (q0 as int) + (rem as int) >= 100 * (p as int),
                    (rem as int) < (p as int),
                    p >= 1,
            ;
        }
        q1 = if 2 * rem >= p {
            q0 + 1
        } else {
            q0
        };
    }
    let q2 = if q1 == 1000 {
        100
    } else {
        q1
    };
    let bias: u64 = if q1 == 1000 {
        8
    } else {
        9
    };
    let neg = d < bias;
    let mag = if neg {
        bias - d
    } else {
        d - bias
    };
    let mut r = String::from_str("-");
    r.append(digit_str(q2 / 100));
    r.append(".");
    r.append(digit_str(q2 / 10 % 10));
    r.append(digit_str(q2 % 10));
    r.append("e");
    if neg {
        r.append("-");
    }
    let mag_s = format_u64(mag);
    r.append(mag_s.as_str());
    proof {
        reveal_strlit("-");
        reveal_strlit(".");
        reveal_strlit("e");
        assert(r@ =~= spec_fee_line(fee_sats));
    }
    r
}

/// Render the resolved lineage as the ten report lines, in the fixed
/// order: transaction id (hex), funding address, funding amount (whole
/// coins), payment address, payment amount, change address, change
/// amount, fee (negated, scientific notation), block height, block hash
/// (hex).
pub fn render_report(rep: &LineageReport) -> (lines: Vec<String>)
    ensures
        lines@.len() == 10,
        lines@[0]@ == spec_hex(rep.txid@),
        lines@[1]@ == rep.funding_address@,
        lines@[2]@ == spec_btc(rep.funding_sats),
        lines@[3]@ == rep.payment_address@,
        lines@[4]@ == spec_btc(rep.payment_sats),
        lines@[5]@ == rep.change_address@,
        lines@[6]@ == spec_btc(rep.change_sats),
        lines@[7]@ == spec_fee_line(rep.fee_sats),
        lines@[8]@ == spec_digits(rep.block_height as nat),
        lines@[9]@ == spec_hex(rep.block_hash@),
{
    let mut lines: Vec<String> = Vec::new();
    lines.push(format_hex(&rep.txid));
    lines.push(rep.funding_address.clone());
    lines.push(format_btc(rep.funding_sats));
    lines.push(rep.payment_address.clone());
    lines.push(format_btc(rep.payment_sats));
    lines.push(rep.change_address.clone());
    lines.push(format_btc(rep.change_sats));
    lines.push(format_fee_line(rep.fee_sats));
    lines.push(format_u64(rep.block_height));
    lines.push(format_hex(&rep.block_hash));
    lines
}

} // verus!
