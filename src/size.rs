use crate::errors::BackupServiceError;
use vstd::prelude::*;

verus! {

/// The decimal digit `d` (below ten).
pub open spec fn digit_char(d: nat) -> char {
    if d == 0 {
        '0'
    } else if d == 1 {
        '1'
    } else if d == 2 {
        '2'
    } else if d == 3 {
        '3'
    } else if d == 4 {
        '4'
    } else if d == 5 {
        '5'
    } else if d == 6 {
        '6'
    } else if d == 7 {
        '7'
    } else if d == 8 {
        '8'
    } else {
        '9'
    }
}

/// `n` written in decimal, without leading zeros.
pub open spec fn decimal(n: nat) -> Seq<char>
    decreases n,
{
    if n < 10 {
        seq![digit_char(n)]
    } else {
        decimal(n / 10).push(digit_char(n % 10))
    }
}

/// The gap between neighbouring `f64` values near `b`: 1 below 2^53, and
/// doubling with each further bit.
pub open spec fn grain(b: nat) -> nat
    decreases b,
{
    if b < 0x20_0000_0000_0000 {
        1
    } else {
        2 * grain(b / 2)
    }
}

/// `b` converted to `f64` (rounded to the nearest multiple of its grain, ties
/// to the even multiple), as an integer.
pub open spec fn as_f64_value(b: nat) -> nat {
    let g = grain(b);
    let q = b / g;
    let r = b % g;
    if g > 1 && (2 * r > g || (2 * r == g && q % 2 == 1)) {
        (q + 1) * g
    } else {
        q * g
    }
}

/// The unit that a size of `b` bytes is shown in: 0 for B up to 4 for TB.
pub open spec fn unit_of(b: nat) -> nat {
    if b < 1024 {
        0
    } else if b < 1048576 {
        1
    } else if b < 1073741824 {
        2
    } else if b < 1099511627776 {
        3
    } else {
        4
    }
}

/// The number of bytes in unit `k`.
pub open spec fn unit_bytes(k: nat) -> nat {
    if k == 0 {
        1
    } else if k == 1 {
        1024
    } else if k == 2 {
        1048576
    } else if k == 3 {
        1073741824
    } else {
        1099511627776
    }
}

/// The name of unit `k`.
pub open spec fn unit_name(k: nat) -> Seq<char> {
    if k == 0 {
        "B"@
    } else if k == 1 {
        "KB"@
    } else if k == 2 {
        "MB"@
    } else if k == 3 {
        "GB"@
    } else {
        "TB"@
    }
}

/// `v / d` in hundredths, rounded to the nearest, ties to even.
pub open spec fn hundredths(v: nat, d: nat) -> nat
    recommends
        d > 0,
{
    let n = v * 100 / d;
    let r = v * 100 % d;
    if 2 * r > d || (2 * r == d && n % 2 == 1) {
        n + 1
    } else {
        n
    }
}

/// A size in bytes as people read it: whole bytes below 1 KB, else the value
/// in the largest unit up to TB that it reaches, with two decimals. This is
/// what dividing the size as an `f64` by 1024 and printing it with `{:.2}`
/// shows.
pub open spec fn format_bytes_spec(b: nat) -> Seq<char> {
    if b < 1024 {
        decimal(b) + " B"@
    } else {
        let k = unit_of(b);
        let n = hundredths(as_f64_value(b), unit_bytes(k));
        decimal(n / 100) + "."@ + seq![digit_char((n % 100) / 10), digit_char(n % 10)] + " "@
            + unit_name(k)
    }
}

/// The decimal digit `d`.
fn digit_str(d: u128) -> (r: &'static str)
    requires
        d < 10,
    ensures
        r@ == seq![digit_char(d as nat)],
{
    proof {
        reveal_strlit("0");
        reveal_strlit("1");
        reveal_strlit("2");
        reveal_strlit("3");
        reveal_strlit("4");
        reveal_strlit("5");
        reveal_strlit("6");
        reveal_strlit("7");
        reveal_strlit("8");
        reveal_strlit("9");
    }
    let r = if d == 0 {
        "0"
    } else if d == 1 {
        "1"
    } else if d == 2 {
        "2"
    } else if d == 3 {
        "3"
    } else if d == 4 {
        "4"
    } else if d == 5 {
        "5"
    } else if d == 6 {
        "6"
    } else if d == 7 {
        "7"
    } else if d == 8 {
        "8"
    } else {
        "9"
    };
    proof {
        assert(r@ =~= seq![digit_char(d as nat)]);
    }
    r
}

/// Appends `n` in decimal to `out`.
pub fn push_decimal(out: &mut String, n: u128)
    ensures
        final(out)@ == old(out)@ + decimal(n as nat),
    decreases n,
{
    if n >= 10 {
        push_decimal(out, n / 10);
    }
    out.append(digit_str(n % 10));
    proof {
        if n >= 10 {
            assert(final(out)@ =~= old(out)@ + decimal(n as nat));
        } else {
            assert(final(out)@ =~= old(out)@ + decimal(n as nat));
        }
    }
}

/// The grain of `b` (see `grain`).
fn grain_of(b: u64) -> (g: u64)
    ensures
        g == grain(b as nat),
        1 <= g <= 4096,
{
    let mut x = b;
    let mut g: u64 = 1;
    while x >= 0x20_0000_0000_0000
        invariant
            grain(b as nat) == g * grain(x as nat),
            g as nat * x as nat <= b as nat,
            1 <= g <= 4096,
        decreases x,
    {
        assert(g <= 2047) by (nonlinear_arith)
            requires
                g as nat * x as nat <= b as nat,
                x >= 0x20_0000_0000_0000,
                b <= u64::MAX,
        ;
        assert((2 * g) as nat * (x / 2) as nat <= g as nat * x as nat) by (nonlinear_arith)
            requires
                g >= 1,
        ;
        assert(grain(x as nat) == 2 * grain((x / 2) as nat));
        assert(g * grain(x as nat) == (2 * g) * grain((x / 2) as nat)) by (nonlinear_arith)
            requires
                grain(x as nat) == 2 * grain((x / 2) as nat),
        ;
        x = x / 2;
        g = g * 2;
    }
    assert(grain(x as nat) == 1);
    assert(g * grain(x as nat) == g) by (nonlinear_arith)
        requires
            grain(x as nat) == 1,
    ;
    g
}

/// `bytes` converted to `f64`, as an integer.
fn as_f64_exact(bytes: u64) -> (v: u128)
    ensures
        v == as_f64_value(bytes as nat),
        v <= 0x1_0000_0000_0000_0000 + 4096,
{
    let g = grain_of(bytes) as u128;
    let b = bytes as u128;
    let q = b / g;
    let rem = b % g;
    proof {
        assert(q * g <= b) by (nonlinear_arith)
            requires
                q == b / g,
                g >= 1,
        ;
        assert((q + 1) * g <= b + g) by (nonlinear_arith)
            requires
                q * g <= b,
        ;
    }
    if g > 1 && (2 * rem > g || (2 * rem == g && q % 2 == 1)) {
        (q + 1) * g
    } else {
        q * g
    }
}

/// `v / d` in hundredths, rounded to the nearest, ties to even.
fn hundredths_of(v: u128, d: u128) -> (n: u128)
    requires
        0 < d <= 1099511627776,
        v <= 0x1_0000_0000_0000_0000 + 4096,
    ensures
        n == hundredths(v as nat, d as nat),
{
    let scaled = v * 100;
    let n = scaled / d;
    let r = scaled % d;
    proof {
        assert(n <= scaled) by (nonlinear_arith)
            requires
                n == scaled / d,
                d >= 1,
        ;
    }
    if 2 * r > d || (2 * r == d && n % 2 == 1) {
        n + 1
    } else {
        n
    }
}

/// A size in bytes as people read it, e.g. `512 B`, `1.50 KB`, `16777216.00 TB`.
pub fn format_bytes(bytes: u64) -> (r: Result<String, BackupServiceError>)
    ensures
        r matches Ok(s) && s@ == format_bytes_spec(bytes as nat),
{
    let mut out = String::new();
    if bytes < 1024 {
        push_decimal(&mut out, bytes as u128);
        out.append(" B");
        return Ok(out);
    }
    let (k, unit, name): (u128, u128, &str) = if bytes < 1048576 {
        (1, 1024, "KB")
    } else if bytes < 1073741824 {
        (2, 1048576, "MB")
    } else if bytes < 1099511627776 {
        (3, 1073741824, "GB")
    } else {
        (4, 1099511627776, "TB")
    };
    let v = as_f64_exact(bytes);
    let n = hundredths_of(v, unit);
    push_decimal(&mut out, n / 100);
    out.append(".");
    let h = n % 100;
    out.append(digit_str(h / 10));
    out.append(digit_str(h % 10));
    out.append(" ");
    out.append(name);
    proof {
        assert(k as nat == unit_of(bytes as nat));
        assert(unit as nat == unit_bytes(k as nat));
        assert(name@ == unit_name(k as nat));
        assert(out@ =~= format_bytes_spec(bytes as nat));
    }
    Ok(out)
}

} // verus!
