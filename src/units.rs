//! Binary unit scaling and clock-style time rendering for the status line.
use vstd::prelude::*;
use crate::text::{decimal, decimal2, push_decimal, push_decimal2};

verus! {

/// The power of 1024 that a unit stands for: `b`, `Kb`, `Mb`, `Gb`, `Tb`.
pub open spec fn unit_scale(k: nat) -> nat {
    if k == 0 { 1 }
    else if k == 1 { 1024 }
    else if k == 2 { 1024 * 1024 }
    else if k == 3 { 1024 * 1024 * 1024 }
    else { 1024 * 1024 * 1024 * 1024 }
}

/// The largest unit whose scale `n` strictly exceeds (the plain byte unit when none).
pub open spec fn unit_index(n: nat) -> nat {
    if n > unit_scale(4) { 4 }
    else if n > unit_scale(3) { 3 }
    else if n > unit_scale(2) { 2 }
    else if n > unit_scale(1) { 1 }
    else { 0 }
}

/// The name of a unit.
pub open spec fn unit_name(k: nat) -> Seq<char> {
    if k == 0 { seq!['b'] }
    else if k == 1 { seq!['K', 'b'] }
    else if k == 2 { seq!['M', 'b'] }
    else if k == 3 { seq!['G', 'b'] }
    else { seq!['T', 'b'] }
}

/// `n` expressed in its unit, rounded down.
pub open spec fn scaled(n: nat) -> nat {
    n / unit_scale(unit_index(n))
}

/// `H:MM:SS` for a count of whole seconds.
pub open spec fn clock_text(secs: nat) -> Seq<char> {
    decimal(secs / 3600) + seq![':'] + decimal2((secs % 3600) / 60) + seq![':']
        + decimal2(secs % 60)
}

/// The byte part of the status line: `<scaled> <unit> `.
pub open spec fn bytes_text(n: nat) -> Seq<char> {
    decimal(scaled(n)) + seq![' '] + unit_name(unit_index(n)) + seq![' ']
}

/// The unit for a rate of `num / den` bytes per second: the largest whose
/// scale the rate strictly exceeds (the plain byte unit when none).
pub open spec fn rate_unit_index(num: nat, den: nat) -> nat {
    if num > unit_scale(4) * den { 4 }
    else if num > unit_scale(3) * den { 3 }
    else if num > unit_scale(2) * den { 2 }
    else if num > unit_scale(1) * den { 1 }
    else { 0 }
}

/// A rate of `num / den` bytes per second expressed in its unit, rounded to
/// the nearest integer, halves up.
pub open spec fn rounded_rate(num: nat, den: nat) -> nat {
    let s = unit_scale(rate_unit_index(num, den));
    (2 * num + s * den) / (2 * s * den)
}

/// The rate part of the status line for `num / den` bytes per second:
/// ` [<rounded> <unit>/s]`.
pub open spec fn rate_text(num: nat, den: nat) -> Seq<char> {
    seq![' ', '['] + decimal(rounded_rate(num, den)) + seq![' '] + unit_name(
        rate_unit_index(num, den),
    ) + seq!['/', 's', ']']
}

/// The unit chosen for `n` is the largest of the five whose scale `n`
/// strictly exceeds: `n` is above its scale (unless it is the plain byte
/// unit), and at or below the scale of every larger unit.
pub proof fn lemma_unit_is_largest_exceeded(n: nat)
    ensures
        unit_index(n) <= 4,
        unit_index(n) == 0 || n > unit_scale(unit_index(n)),
        forall|k: nat| unit_index(n) < k <= 4 ==> n <= #[trigger] unit_scale(k),
{
}

/// Picks the unit for `n` and divides `n` down to it.
pub fn scale_bytes(n: u128) -> (r: (u128, &'static str))
    ensures
        r.0 == scaled(n as nat),
        r.1@ == unit_name(unit_index(n as nat)),
{
    proof {
        reveal_strlit("b");
        reveal_strlit("Kb");
        reveal_strlit("Mb");
        reveal_strlit("Gb");
        reveal_strlit("Tb");
    }
    let k: u8 = if n > 1099511627776 {
        4
    } else if n > 1073741824 {
        3
    } else if n > 1048576 {
        2
    } else if n > 1024 {
        1
    } else {
        0
    };
    assert(k as nat == unit_index(n as nat));
    match k {
        4 => (n / 1099511627776, "Tb"),
        3 => (n / 1073741824, "Gb"),
        2 => (n / 1048576, "Mb"),
        1 => (n / 1024, "Kb"),
        _ => (n, "b"),
    }
}

/// Renders a count of bytes as `<scaled> <unit> `.
pub fn format_bytes(n: u128) -> (r: String)
    ensures
        r@ == bytes_text(n as nat),
{
    proof {
        reveal_strlit(" ");
    }
    let (v, unit) = scale_bytes(n);
    let mut s = String::new();
    push_decimal(&mut s, v);
    s.append(" ");
    s.append(unit);
    s.append(" ");
    assert(s@ =~= bytes_text(n as nat));
    s
}

/// Renders the rate of `bytes` bytes in `ms` milliseconds as
/// ` [<rounded> <unit>/s]`.
pub fn format_rate(bytes: u64, ms: u64) -> (out: String)
    requires
        ms > 0,
    ensures
        out@ == rate_text(bytes as nat * 1000, ms as nat),
{
    proof {
        reveal_strlit(" [");
        reveal_strlit(" ");
        reveal_strlit("/s]");
        reveal_strlit("b");
        reveal_strlit("Kb");
        reveal_strlit("Mb");
        reveal_strlit("Gb");
        reveal_strlit("Tb");
    }
    let num: u128 = bytes as u128 * 1000;
    let den: u128 = ms as u128;
    let (scale, unit): (u128, &str) = if num > 1099511627776 * den {
        (1099511627776, "Tb")
    } else if num > 1073741824 * den {
        (1073741824, "Gb")
    } else if num > 1048576 * den {
        (1048576, "Mb")
    } else if num > 1024 * den {
        (1024, "Kb")
    } else {
        (1, "b")
    };
    assert(scale == unit_scale(rate_unit_index(num as nat, den as nat)));
    assert(unit@ == unit_name(rate_unit_index(num as nat, den as nat)));
    assert(scale * den <= 1099511627776 * den) by (nonlinear_arith)
        requires
            scale <= 1099511627776,
    ;
    assert(scale * den >= 1) by (nonlinear_arith)
        requires
            scale >= 1,
            den >= 1,
    ;
    let sd: u128 = scale * den;
    let v = (2 * num + sd) / (2 * sd);
    assert(2 * scale * den == 2 * sd) by (nonlinear_arith)
        requires
            sd == scale * den,
    ;
    assert(v == rounded_rate(num as nat, den as nat));
    let mut s = String::from_str(" [");
    push_decimal(&mut s, v);
    s.append(" ");
    s.append(unit);
    s.append("/s]");
    assert(s@ =~= rate_text(bytes as nat * 1000, ms as nat));
    s
}

/// Renders a count of whole seconds as `H:MM:SS`.
pub fn format_clock(secs: u64) -> (r: String)
    ensures
        r@ == clock_text(secs as nat),
{
    proof {
        reveal_strlit(":");
    }
    let mut s = String::new();
    push_decimal(&mut s, (secs / 3600) as u128);
    s.append(":");
    push_decimal2(&mut s, ((secs % 3600) / 60) as u128);
    s.append(":");
    push_decimal2(&mut s, (secs % 60) as u128);
    assert(s@ =~= clock_text(secs as nat));
    s
}

/// Rendering of a count of seconds as a clock time.
pub trait TimeOutput {
    fn as_time(&self) -> String;
}

impl TimeOutput for u64 {
    /// `H:MM:SS`: hours unpadded, minutes and seconds on two digits.
    fn as_time(&self) -> (r: String)
        ensures
            r@ == clock_text(*self as nat),
    {
        format_clock(*self)
    }
}

} // verus!
