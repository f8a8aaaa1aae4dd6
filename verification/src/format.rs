use vstd::prelude::*;
use vstd::arithmetic::div_mod::lemma_div_denominator;
use vstd::string::*;

use crate::text::string_from_chars;

verus! {

/// The decimal digit character for `d` (`d` below ten).
pub open spec fn digit(d: nat) -> char {
    (d + 48) as char
}

/// `n` written in decimal, without leading zeros.
pub open spec fn decimal(n: nat) -> Seq<char>
    decreases n,
{
    if n < 10 {
        seq![digit(n)]
    } else {
        decimal(n / 10).push(digit(n % 10))
    }
}

/// Appends `n` in decimal.
pub fn push_decimal(out: &mut Vec<char>, n: u64)
    ensures
        final(out)@ == old(out)@ + decimal(n as nat),
    decreases n,
{
    if n >= 10 {
        push_decimal(out, n / 10);
    }
    let d = (n % 10) as u8;
    out.push((d + 48) as char);
    proof {
        if n >= 10 {
            assert(decimal(n as nat) == decimal((n / 10) as nat).push(digit((n % 10) as nat)));
        }
    }
    assert(final(out)@ =~= old(out)@ + decimal(n as nat));
}

/// Two to the power `e`.
pub open spec fn pow2(e: nat) -> nat
    decreases e,
{
    if e == 0 {
        1
    } else {
        2 * pow2((e - 1) as nat)
    }
}

/// How many low bits `b as f64` cannot keep: the halvings that bring `b`
/// below 2^53.
pub open spec fn f64_shift(b: nat) -> nat
    decreases b,
{
    if b < 0x20_0000_0000_0000 {
        0
    } else {
        1 + f64_shift(b / 2)
    }
}

/// `n / d` rounded to the nearest whole number, a tie going to the even one.
pub open spec fn round_half_even(n: nat, d: nat) -> nat {
    let q = n / d;
    let r = n % d;
    if 2 * r > d || (2 * r == d && q % 2 == 1) {
        q + 1
    } else {
        q
    }
}

/// The value of `b as f64`: `b` rounded to 53 significant bits, ties to even.
pub open spec fn as_f64(b: nat) -> nat {
    let d = pow2(f64_shift(b));
    round_half_even(b, d) * d
}

/// The unit that a byte count is shown in: the largest power of 1024 (up to
/// 1024^4) that it reaches.
pub open spec fn unit_index(v: nat) -> nat {
    if v >= 1_099_511_627_776 {
        4
    } else if v >= 1_073_741_824 {
        3
    } else if v >= 1_048_576 {
        2
    } else if v >= 1024 {
        1
    } else {
        0
    }
}

pub open spec fn unit_size(i: nat) -> nat {
    if i == 4 {
        1_099_511_627_776
    } else if i == 3 {
        1_073_741_824
    } else if i == 2 {
        1_048_576
    } else if i == 1 {
        1024
    } else {
        1
    }
}

pub open spec fn unit_name(i: nat) -> Seq<char> {
    if i == 4 {
        seq!['T', 'B']
    } else if i == 3 {
        seq!['G', 'B']
    } else if i == 2 {
        seq!['M', 'B']
    } else if i == 1 {
        seq!['K', 'B']
    } else {
        seq!['B']
    }
}

/// `b` bytes as shown on screen: the value of `b as f64` in its unit, to one
/// decimal place (a tie rounds to the even digit), then the unit.
pub open spec fn spec_human_bytes(b: nat) -> Seq<char> {
    let v = as_f64(b);
    let i = unit_index(v);
    let tenths = round_half_even(10 * v, unit_size(i));
    decimal(tenths / 10) + seq!['.', digit(tenths % 10), ' '] + unit_name(i)
}

/// `b as f64`, as an exact whole number.
fn f64_value(b: u64) -> (r: u128)
    ensures
        r == as_f64(b as nat),
        r <= 0x1_0000_0000_0000_1000,
{
    let mut x: u64 = b;
    let mut s: u64 = 0;
    let mut d: u128 = 1;
    while x >= 0x20_0000_0000_0000
        invariant
            d == pow2(s as nat),
            x == b as nat / d as nat,
            f64_shift(b as nat) == s + f64_shift(x as nat),
            (x as int) * (d as int) <= b as int,
            1 <= d <= 4096,
            s < d,
        decreases x,
    {
        proof {
            lemma_div_denominator(b as int, d as int, 2);
            assert(((x / 2) as int) * ((d * 2) as int) <= (x as int) * (d as int)) by (nonlinear_arith)
                requires
                    x >= 0,
                    d >= 1,
            ;
            assert(d < 2048) by (nonlinear_arith)
                requires
                    (x as int) * (d as int) <= b as int,
                    x >= 0x20_0000_0000_0000,
                    b <= 0xffff_ffff_ffff_ffff,
            ;
        }
        x = x / 2;
        s = s + 1;
        d = d * 2;
    }
    let q: u128 = (b as u128) / d;
    let r: u128 = (b as u128) % d;
    let rounded: u128 = if 2 * r > d || (2 * r == d && q % 2 == 1) {
        q + 1
    } else {
        q
    };
    assert(q * d <= b) by (nonlinear_arith)
        requires
            q == b as nat / d as nat,
            d >= 1,
    ;
    assert(rounded * d <= 0x1_0000_0000_0000_1000) by (nonlinear_arith)
        requires
            rounded <= q + 1,
            q * d <= b,
            1 <= d <= 4096,
            b <= 0xffff_ffff_ffff_ffff,
    ;
    rounded * d
}

/// Renders a byte count with a binary unit (B, KB, MB, GB, TB) and one decimal.
pub fn human_bytes(b: u64) -> (r: String)
    ensures
        r@ == spec_human_bytes(b as nat),
{
    let v = f64_value(b);
    let (i, size): (u8, u128) = if v >= 1_099_511_627_776 {
        (4, 1_099_511_627_776)
    } else if v >= 1_073_741_824 {
        (3, 1_073_741_824)
    } else if v >= 1_048_576 {
        (2, 1_048_576)
    } else if v >= 1024 {
        (1, 1024)
    } else {
        (0, 1)
    };
    let n = 10 * v;
    let q = n / size;
    let rem = n % size;
    let tenths: u128 = if 2 * rem > size || (2 * rem == size && q % 2 == 1) {
        q + 1
    } else {
        q
    };
    assert(q <= 0xffff_ffff_ffff_ffff) by (nonlinear_arith)
        requires
            q == n as nat / size as nat,
            n == 10 * v,
            v <= 0x1_0000_0000_0000_1000,
            size >= 1024 || v < 1024,
            size >= 1,
    ;
    let whole = tenths / 10;
    let mut out: Vec<char> = Vec::new();
    push_decimal(&mut out, whole as u64);
    out.push('.');
    out.push((((tenths % 10) as u8) + 48) as char);
    out.push(' ');
    if i == 4 {
        out.push('T');
        out.push('B');
    } else if i == 3 {
        out.push('G');
        out.push('B');
    } else if i == 2 {
        out.push('M');
        out.push('B');
    } else if i == 1 {
        out.push('K');
        out.push('B');
    } else {
        out.push('B');
    }
    assert(out@ =~= spec_human_bytes(b as nat));
    string_from_chars(&out)
}

/// A transfer rate: the byte count followed by `/s`.
pub fn format_speed(bps: u64) -> (r: String)
    ensures
        r@ == spec_human_bytes(bps as nat) + seq!['/', 's'],
{
    let s = human_bytes(bps);
    proof {
        reveal_strlit("/s");
    }
    s.concat("/s")
}

/// An uptime as days, hours and minutes, leaving out leading zero units.
pub open spec fn spec_format_uptime(secs: nat) -> Seq<char> {
    let d = secs / 86400;
    let h = (secs % 86400) / 3600;
    let m = (secs % 3600) / 60;
    if d > 0 {
        decimal(d) + seq!['d', ' '] + decimal(h) + seq!['h', ' '] + decimal(m) + seq!['m']
    } else if h > 0 {
        decimal(h) + seq!['h', ' '] + decimal(m) + seq!['m']
    } else {
        decimal(m) + seq!['m']
    }
}

pub fn format_uptime(secs: u64) -> (r: String)
    ensures
        r@ == spec_format_uptime(secs as nat),
{
    let d = secs / 86400;
    let h = (secs % 86400) / 3600;
    let m = (secs % 3600) / 60;
    let mut out: Vec<char> = Vec::new();
    if d > 0 {
        push_decimal(&mut out, d);
        out.push('d');
        out.push(' ');
        push_decimal(&mut out, h);
        out.push('h');
        out.push(' ');
    } else if h > 0 {
        push_decimal(&mut out, h);
        out.push('h');
        out.push(' ');
    }
    push_decimal(&mut out, m);
    out.push('m');
    assert(out@ =~= spec_format_uptime(secs as nat));
    string_from_chars(&out)
}

/// `s` cut to at most `max` characters; a cut string ends in `…`.
pub open spec fn spec_truncate(s: Seq<char>, max: nat) -> Seq<char> {
    if s.len() <= max {
        s
    } else {
        s.take(if max >= 1 { max - 1 } else { 0 }).push('…')
    }
}

pub fn truncate(s: &str, max: usize) -> (r: String)
    ensures
        r@ == spec_truncate(s@, max as nat),
{
    let n = s.unicode_len();
    if n <= max {
        String::from_str(s)
    } else {
        let keep = if max >= 1 {
            max - 1
        } else {
            0
        };
        let cut = s.substring_char(0, keep);
        proof {
            reveal_strlit("…");
        }
        let r = String::from_str(cut).concat("…");
        assert(r@ =~= spec_truncate(s@, max as nat));
        r
    }
}

} // verus!
