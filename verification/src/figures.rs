//! Figures as the display shows them.
//!
//! Quotients are shown with a fixed number of decimals. They pass through binary
//! floating point of double or single precision, to which they are rounded first; ties
//! go to the even neighbour.

use crate::text;
use vstd::prelude::*;

verus! {

/// Two to the power of 53: integers from here on may not fit a double.
pub const DOUBLE_LIMIT: u128 = 0x20_0000_0000_0000;

/// Two to the power of 24: integers from here on may not fit a single.
pub const SINGLE_LIMIT: u128 = 0x100_0000;

/// A quotient rounded to the nearest integer, ties to the even one.
pub open spec fn half_even(n: int, d: int) -> int {
    let q = n / d;
    let r = n % d;
    if 2 * r < d || (2 * r == d && q % 2 == 0) {
        q
    } else {
        q + 1
    }
}

/// Round a quotient to the nearest integer.
pub fn round_half_even(n: u128, d: u128) -> (r: u128)
    requires
        0 < d <= u128::MAX / 2,
        n < u128::MAX,
    ensures
        r == half_even(n as int, d as int),
        r <= n + 1,
{
    let q: u128 = n / d;
    let rest: u128 = n % d;
    assert(q <= n) by (nonlinear_arith)
        requires
            q == n / d,
            d > 0,
    ;
    if 2 * rest < d || (2 * rest == d && q % 2 == 0) {
        q
    } else {
        q + 1
    }
}

/// The distance of the floats around an integer, for floats that hold every integer up
/// to `limit`.
pub open spec fn float_step(n: int, limit: int) -> int
    decreases n,
{
    if n < limit || limit < 2 {
        1
    } else {
        2 * float_step(n / 2, limit)
    }
}

/// The float that is nearest to a quotient, for integers and for quotients that are
/// not below half of `limit`.
pub open spec fn nearest_float(n: int, d: int, limit: int) -> int {
    half_even(n, d * float_step(n / d, limit)) * float_step(n / d, limit)
}

/// The distance of the floats around an integer is small beside it.
proof fn lemma_float_step(n: int, limit: int)
    requires
        0 <= n,
        2 <= limit,
    ensures
        1 <= float_step(n, limit),
        n < limit ==> float_step(n, limit) == 1,
        n >= limit ==> float_step(n, limit) * limit <= 2 * n,
    decreases n,
{
    if n >= limit {
        lemma_float_step(n / 2, limit);
        let s = float_step(n / 2, limit);
        assert((2 * s) * limit == 2 * (s * limit)) by (nonlinear_arith);
    }
}

/// The nearest float is off by half the distance of the floats at most.
pub proof fn lemma_nearest_float(n: int, d: int, limit: int)
    requires
        0 <= n,
        0 < d,
        4 <= limit,
    ensures
        ({
            let step = float_step(n / d, limit);
            let r = nearest_float(n, d, limit);
            &&& step >= 1
            &&& n / d < limit ==> step == 1
            &&& n / d >= limit ==> step * limit <= 2 * (n / d)
            &&& 2 * (r * d - n) <= d * step
            &&& 2 * (n - r * d) <= d * step
            &&& 0 <= r <= 2 * (n / d) + 1
        }),
{
    vstd::arithmetic::div_mod::lemma_div_pos_is_pos(n, d);
    vstd::arithmetic::div_mod::lemma_fundamental_div_mod(n, d);
    vstd::arithmetic::div_mod::lemma_mod_bound(n, d);
    let q = n / d;
    lemma_float_step(q, limit);
    let step = float_step(q, limit);
    let unit = d * step;
    let r = nearest_float(n, d, limit);
    assert(unit > 0) by (nonlinear_arith)
        requires
            unit == d * step,
            d > 0,
            step >= 1,
    ;
    vstd::arithmetic::div_mod::lemma_div_pos_is_pos(n, unit);
    vstd::arithmetic::div_mod::lemma_fundamental_div_mod(n, unit);
    vstd::arithmetic::div_mod::lemma_mod_bound(n, unit);
    let count = half_even(n, unit);
    let m = n / unit;
    assert(unit * (m + 1) == unit * m + unit) by (nonlinear_arith);
    assert(2 * (unit * count - n) <= unit && 2 * (n - unit * count) <= unit);
    assert(r * d == unit * count) by (nonlinear_arith)
        requires
            r == count * step,
            unit == d * step,
    ;
    assert(0 <= r) by (nonlinear_arith)
        requires
            r == count * step,
            count >= 0,
            step >= 1,
    ;
    assert(r <= q + step) by (nonlinear_arith)
        requires
            2 * (r * d - n) <= d * step,
            n < d * q + d,
            d > 0,
            step >= 1,
    ;
    assert(q >= limit ==> step <= q) by (nonlinear_arith)
        requires
            q >= limit ==> step * limit <= 2 * q,
            limit >= 4,
            step >= 1,
    ;
}

/// Find the distance of the floats around an integer.
fn find_float_step(n: u128, limit: u128) -> (r: u128)
    requires
        4 <= limit,
        n <= u128::MAX / 4,
    ensures
        r == float_step(n as int, limit as int),
        r >= 1,
        r == 1 || r * limit <= 2 * n,
        n < limit ==> r == 1,
{
    let mut half: u128 = n;
    let mut step: u128 = 1;
    while half >= limit
        invariant
            4 <= limit,
            n <= u128::MAX / 4,
            step >= 1,
            step == 1 || step * limit <= 2 * n,
            step * float_step(half as int, limit as int) == float_step(n as int, limit as int),
            half * step <= n,
            n < limit ==> step == 1 && half == n,
        decreases half,
    {
        assert(half / 2 * (2 * step) <= n) by (nonlinear_arith)
            requires
                half * step <= n,
                step >= 0,
        ;
        assert(step * limit <= n && step <= n) by (nonlinear_arith)
            requires
                half * step <= n,
                half >= limit,
                limit >= 4,
                step >= 1,
        ;
        assert((2 * step) * limit == 2 * (step * limit)) by (nonlinear_arith);
        assert(2 * step * float_step(half as int / 2, limit as int) == step * float_step(
            half as int,
            limit as int,
        )) by (nonlinear_arith)
            requires
                float_step(half as int, limit as int) == 2 * float_step(
                    half as int / 2,
                    limit as int,
                ),
        ;
        half = half / 2;
        step = 2 * step;
    }
    step
}

/// Round a quotient to the nearest float.
pub fn round_to_float(n: u128, d: u128, limit: u128) -> (r: u128)
    requires
        0 < d <= u128::MAX / 2,
        n < u128::MAX,
        n / d <= u128::MAX / 4,
        4 <= limit,
    ensures
        r == nearest_float(n as int, d as int, limit as int),
        r <= 2 * (n / d) + 1,
{
    let q: u128 = n / d;
    let step: u128 = find_float_step(q, limit);
    assert(0 < d * step <= u128::MAX / 2) by {
        assert(0 < d * step) by (nonlinear_arith)
            requires
                d > 0,
                step >= 1,
        ;
        if step > 1 {
            assert(d * step <= n / 2) by (nonlinear_arith)
                requires
                    step * limit <= 2 * q,
                    limit >= 4,
                    q == n / d,
                    d > 0,
            ;
        } else {
            assert(d * step == d) by (nonlinear_arith)
                requires
                    step == 1,
            ;
        }
    }
    let count: u128 = round_half_even(n, d * step);
    proof {
        lemma_nearest_float(n as int, d as int, limit as int);
    }
    count * step
}

/// Number of times that a byte count can be divided by 1024, four at most.
pub open spec fn unit_index(bytes: int) -> int {
    if bytes < 0x400 {
        0
    } else if bytes < 0x10_0000 {
        1
    } else if bytes < 0x4000_0000 {
        2
    } else if bytes < 0x100_0000_0000 {
        3
    } else {
        4
    }
}

/// Number of bytes in a unit.
pub open spec fn unit_bytes(index: int) -> int {
    if index == 0 {
        1
    } else if index == 1 {
        0x400
    } else if index == 2 {
        0x10_0000
    } else if index == 3 {
        0x4000_0000
    } else {
        0x100_0000_0000
    }
}

/// Letter of a unit.
pub open spec fn unit_name(index: int) -> Seq<char> {
    if index == 0 {
        "B"@
    } else if index == 1 {
        "K"@
    } else if index == 2 {
        "M"@
    } else if index == 3 {
        "G"@
    } else {
        "T"@
    }
}

/// A count of tenths as a decimal with one place.
pub open spec fn tenths(n: int) -> Seq<char> {
    text::dec(n / 10) + "."@ + text::padded(n % 10, 10, 1)
}

/// Append a count of tenths as a decimal with one place.
pub fn push_tenths(out: &mut String, n: u128)
    ensures
        final(out)@ == old(out)@ + tenths(n as int),
{
    text::push_dec(out, n / 10);
    out.append(".");
    text::push_padded(out, (n % 10) as u64, 10, 1);
    assert(out@ == old(out)@ + tenths(n as int));
}

/// A byte count in the largest unit that it reaches: bytes as they are, larger units
/// with one decimal.
pub open spec fn human_bytes(bytes: int) -> Seq<char> {
    let index = unit_index(bytes);
    if index == 0 {
        text::dec(bytes) + unit_name(0)
    } else {
        tenths(
            half_even(10 * nearest_float(bytes, 1, DOUBLE_LIMIT as int), unit_bytes(index)),
        ) + unit_name(index)
    }
}

/// Write a byte count in the largest unit that it reaches.
pub fn format_human_bytes(bytes: u64) -> (r: String)
    ensures
        r@ == human_bytes(bytes as int),
{
    let mut out = String::new();
    if bytes < 0x400 {
        text::push_dec(&mut out, bytes as u128);
        out.append("B");
        assert(out@ == human_bytes(bytes as int));
        return out;
    }
    let (unit, name): (u128, &str) = if bytes < 0x10_0000 {
        (0x400, "K")
    } else if bytes < 0x4000_0000 {
        (0x10_0000, "M")
    } else if bytes < 0x100_0000_0000 {
        (0x4000_0000, "G")
    } else {
        (0x100_0000_0000, "T")
    };
    let nearest: u128 = round_to_float(bytes as u128, 1, DOUBLE_LIMIT);
    push_tenths(&mut out, round_half_even(10 * nearest, unit));
    out.append(name);
    assert(out@ == human_bytes(bytes as int));
    out
}

/// Thousandths behind a decimal point, without trailing zeros; nothing if there are
/// none.
pub open spec fn short_fraction(n: int) -> Seq<char> {
    if n == 0 {
        Seq::empty()
    } else if n % 100 == 0 {
        "."@ + text::padded(n / 100, 10, 1)
    } else if n % 10 == 0 {
        "."@ + text::padded(n / 10, 10, 2)
    } else {
        "."@ + text::padded(n, 10, 3)
    }
}

/// Append thousandths behind a decimal point, without trailing zeros.
fn push_short_fraction(out: &mut String, n: u64)
    requires
        n < 1000,
    ensures
        final(out)@ == old(out)@ + short_fraction(n as int),
{
    if n == 0 {
        assert(out@ == old(out)@ + short_fraction(n as int));
        return;
    }
    out.append(".");
    if n % 100 == 0 {
        text::push_padded(out, n / 100, 10, 1);
    } else if n % 10 == 0 {
        text::push_padded(out, n / 10, 10, 2);
    } else {
        text::push_padded(out, n, 10, 3);
    }
    assert(out@ == old(out)@ + short_fraction(n as int));
}

/// A duration: microseconds below a millisecond, else milliseconds.
pub open spec fn duration(us: int) -> Seq<char> {
    if us < 1000 {
        text::dec(us) + "us"@
    } else {
        text::dec(us / 1000) + short_fraction(us % 1000) + "ms"@
    }
}

/// Append a duration.
fn push_duration(out: &mut String, us: u64)
    ensures
        final(out)@ == old(out)@ + duration(us as int),
{
    if us < 1000 {
        text::push_dec(out, us as u128);
        out.append("us");
    } else {
        text::push_dec(out, (us / 1000) as u128);
        push_short_fraction(out, us % 1000);
        out.append("ms");
    }
    assert(out@ == old(out)@ + duration(us as int));
}

/// Write a duration.
pub fn format_unsigned_us(value_us: u32) -> (r: String)
    ensures
        r@ == duration(value_us as int),
{
    let mut out = String::new();
    push_duration(&mut out, value_us as u64);
    assert(out@ == duration(value_us as int));
    out
}

/// The sign of a number, also of zero.
pub open spec fn sign(n: int) -> Seq<char> {
    if n < 0 {
        "-"@
    } else {
        "+"@
    }
}

/// The size of a number.
pub open spec fn size(n: int) -> int {
    if n < 0 {
        -n
    } else {
        n
    }
}

/// Write an offset with its sign.
pub(crate) fn format_signed_offset_us(offset_us: i64) -> (r: String)
    requires
        -0x1_0000_0000 < offset_us < 0x1_0000_0000,
    ensures
        r@ == sign(offset_us as int) + duration(size(offset_us as int)),
{
    if offset_us < 0 {
        let mut out = "-".to_owned();
        push_duration(&mut out, (-offset_us) as u64);
        out
    } else {
        let mut out = "+".to_owned();
        push_duration(&mut out, offset_us as u64);
        out
    }
}

/// Append a number with its sign.
pub fn push_signed(out: &mut String, n: i64)
    ensures
        final(out)@ == old(out)@ + (sign(n as int) + text::dec(size(n as int))),
{
    if n < 0 {
        out.append("-");
        text::push_dec(out, (-(n as i128)) as u128);
    } else {
        out.append("+");
        text::push_dec(out, n as u128);
    }
    assert(out@ == old(out)@ + (sign(n as int) + text::dec(size(n as int))));
}

/// Append a signed count of thousandths as a decimal with its sign.
pub fn push_signed_places(out: &mut String, n: i64)
    ensures
        final(out)@ == old(out)@ + (sign(n as int) + text::thousandths(size(n as int))),
{
    if n < 0 {
        out.append("-");
        text::push_thousandths(out, (-(n as i128)) as u128);
    } else {
        out.append("+");
        text::push_thousandths(out, n as u128);
    }
    assert(out@ == old(out)@ + (sign(n as int) + text::thousandths(size(n as int))));
}

/// Number of times that a positive quotient has to be doubled to fill the precision of
/// a double.
pub open spec fn doublings(n: int, d: int) -> nat
    decreases 2 * d * 0x10_0000_0000_0000 - n,
{
    if n <= 0 || n >= d * 0x10_0000_0000_0000 {
        0
    } else {
        (1 + doublings(2 * n, d)) as nat
    }
}

/// What is shown of a quotient in steps of one part in `places`: the nearest of them to
/// the double that is nearest to the quotient.
pub open spec fn double_places(n: int, d: int, places: int) -> int {
    let scale = vstd::arithmetic::power2::pow2(doublings(n, d)) as int;
    half_even(places * nearest_float(n * scale, d, DOUBLE_LIMIT as int), scale)
}

/// Doubling a quotient as often as it takes fills the precision of a double.
proof fn lemma_doublings(n: int, d: int)
    requires
        0 < n,
        0 < d,
    ensures
        n * vstd::arithmetic::power2::pow2(doublings(n, d)) >= d * 0x10_0000_0000_0000,
        n < d * 0x20_0000_0000_0000 ==> n * vstd::arithmetic::power2::pow2(doublings(n, d)) < d
            * 0x20_0000_0000_0000,
    decreases 2 * d * 0x10_0000_0000_0000 - n,
{
    vstd::arithmetic::power2::lemma2_to64();
    if n < d * 0x10_0000_0000_0000 {
        lemma_doublings(2 * n, d);
        let more = doublings(2 * n, d);
        vstd::arithmetic::power2::lemma_pow2_unfold(more + 1);
        let p = vstd::arithmetic::power2::pow2(more) as int;
        let all = vstd::arithmetic::power2::pow2(doublings(n, d)) as int;
        assert(doublings(n, d) == more + 1);
        assert(n * all == (2 * n) * p) by (nonlinear_arith)
            requires
                all == 2 * p,
        ;
    } else {
        assert(doublings(n, d) == 0);
    }
}

/// A number within bounds stays within them when all are scaled.
proof fn lemma_scaled(factor: int, n: int, bound: int)
    requires
        0 <= factor,
        -bound <= n <= bound,
    ensures
        -(factor * bound) <= factor * n <= factor * bound,
{
    assert(factor * n <= factor * bound) by (nonlinear_arith)
        requires
            0 <= factor,
            n <= bound,
    ;
    assert(-(factor * bound) <= factor * n) by (nonlinear_arith)
        requires
            0 <= factor,
            -bound <= n,
    ;
}

/// What is shown of a quotient is the nearest to it, but for the precision of a double.
pub proof fn lemma_double_places(n: int, d: int, places: int)
    requires
        0 < n,
        0 < d,
        0 <= places,
    ensures
        double_places(n, d, places) >= 0,
        n < d * 0x20_0000_0000_0000 ==> ({
            let scale = vstd::arithmetic::power2::pow2(doublings(n, d)) as int;
            let off = double_places(n, d, places) * d - places * n;
            &&& scale >= 1
            &&& n * scale >= d * 0x10_0000_0000_0000
            &&& 2 * scale * off <= d * (scale + places)
            &&& -2 * scale * off <= d * (scale + places)
        }),
{
    let scale = vstd::arithmetic::power2::pow2(doublings(n, d)) as int;
    vstd::arithmetic::power2::lemma_pow2_pos(doublings(n, d));
    lemma_doublings(n, d);
    assert(n * scale >= 0) by (nonlinear_arith)
        requires
            n >= 0,
            scale > 0,
    ;
    lemma_nearest_float(n * scale, d, DOUBLE_LIMIT as int);
    let nearest = nearest_float(n * scale, d, DOUBLE_LIMIT as int);
    let top = places * nearest;
    assert(top >= 0) by (nonlinear_arith)
        requires
            top == places * nearest,
            places >= 0,
            nearest >= 0,
    ;
    vstd::arithmetic::div_mod::lemma_div_pos_is_pos(top, scale);
    vstd::arithmetic::div_mod::lemma_fundamental_div_mod(top, scale);
    vstd::arithmetic::div_mod::lemma_mod_bound(top, scale);
    let shown = double_places(n, d, places);
    let m = top / scale;
    assert(scale * (m + 1) == scale * m + scale) by (nonlinear_arith);
    assert(2 * (scale * shown - top) <= scale && 2 * (top - scale * shown) <= scale);
    if n < d * 0x20_0000_0000_0000 {
        assert((n * scale) / d < 0x20_0000_0000_0000) by (nonlinear_arith)
            requires
                n * scale < d * 0x20_0000_0000_0000,
                d > 0,
        ;
        let off = shown * d - places * n;
        let rounding = scale * shown - top;
        let inexact = nearest * d - n * scale;
        assert(scale * off == d * rounding + places * inexact) by (nonlinear_arith)
            requires
                off == shown * d - places * n,
                top == places * nearest,
                rounding == scale * shown - top,
                inexact == nearest * d - n * scale,
        ;
        lemma_scaled(d, 2 * rounding, scale);
        lemma_scaled(places, 2 * inexact, d);
        assert(d * (2 * rounding) == 2 * (d * rounding)) by (nonlinear_arith);
        assert(places * (2 * inexact) == 2 * (places * inexact)) by (nonlinear_arith);
        assert(d * (scale + places) == d * scale + places * d) by (nonlinear_arith);
        assert(2 * scale * off == 2 * (scale * off)) by (nonlinear_arith);
        assert(-2 * scale * off == -2 * (scale * off)) by (nonlinear_arith);
    }
}

/// Find what is shown of a quotient.
pub fn round_double(n: u128, d: u128, places: u128) -> (r: u128)
    requires
        0 < d <= 0x100_0000_0000,
        n < u128::MAX,
        n / d <= u128::MAX / 0x1_0000,
        places <= 1000,
    ensures
        r == double_places(n as int, d as int, places as int),
{
    let limit: u128 = d * 0x10_0000_0000_0000;
    let mut scaled: u128 = n;
    let mut scale: u128 = 1;
    let ghost mut done: nat = 0;
    proof {
        vstd::arithmetic::power2::lemma2_to64();
    }
    while 0 < scaled && scaled < limit
        invariant
            0 < d <= 0x100_0000_0000,
            limit == d * 0x10_0000_0000_0000,
            scale == vstd::arithmetic::power2::pow2(done),
            scaled == n * scale,
            scaled < 2 * limit || (scaled == n && scale == 1),
            scale >= 1,
            0 < n ==> scale < 2 * limit,
            n == 0 ==> done == 0,
            done + doublings(scaled as int, d as int) == doublings(n as int, d as int),
        decreases 2 * limit - scaled,
    {
        proof {
            vstd::arithmetic::power2::lemma_pow2_unfold(done + 1);
            assert(2 * scaled == n * (2 * scale)) by (nonlinear_arith)
                requires
                    scaled == n * scale,
            ;
            assert(scale <= scaled) by (nonlinear_arith)
                requires
                    scaled == n * scale,
                    n >= 1,
            ;
            done = done + 1;
        }
        scaled = 2 * scaled;
        scale = 2 * scale;
    }
    assert(scaled / d <= u128::MAX / 0x1_0000) by {
        if scaled < 2 * limit {
            assert(scaled / d <= 2 * 0x10_0000_0000_0000) by (nonlinear_arith)
                requires
                    scaled < 2 * (d * 0x10_0000_0000_0000),
                    d > 0,
            ;
        }
    }
    let nearest: u128 = round_to_float(scaled, d, DOUBLE_LIMIT);
    assert(places * nearest <= 1000 * nearest) by (nonlinear_arith)
        requires
            places <= 1000,
    ;
    round_half_even(places * nearest, scale)
}

/// Append a number of microseconds as milliseconds with one decimal.
pub fn push_milliseconds(out: &mut String, us: u32)
    ensures
        final(out)@ == old(out)@ + tenths(double_places(us as int, 1000, 10)),
{
    push_tenths(out, round_double(us as u128, 1000, 10));
}

/// A rounded quotient is off by half at most, and even if it is off by half.
pub proof fn law_nearest_integer(n: int, d: int)
    requires
        0 <= n,
        0 < d,
    ensures
        -d <= 2 * (half_even(n, d) * d - n) <= d,
        2 * (half_even(n, d) * d - n) == d || 2 * (n - half_even(n, d) * d) == d ==> half_even(n, d)
            % 2 == 0,
        half_even(n, d) >= 0,
{
    vstd::arithmetic::div_mod::lemma_fundamental_div_mod(n, d);
    vstd::arithmetic::div_mod::lemma_mod_bound(n, d);
    vstd::arithmetic::div_mod::lemma_div_pos_is_pos(n, d);
    let q = n / d;
    assert((q + 1) * d == q * d + d) by (nonlinear_arith);
    assert(q * d == d * q) by (nonlinear_arith);
}

/// The number of tenths that a decimal with one place stands for.
pub open spec fn decimal_tenths(s: Seq<char>) -> Option<int> {
    let whole = s.take(s.len() - 2);
    if s.len() >= 3 && s[s.len() - 2] == '.' && text::all_digits(whole) && text::is_digit(s.last()) {
        Some(10 * text::digits_value(whole) + (s.last() as int - 48))
    } else {
        None
    }
}

/// Tenths that were written are read back.
pub proof fn law_tenths_are_read_back(n: int)
    requires
        0 <= n,
    ensures
        decimal_tenths(tenths(n)) == Some(n),
{
    reveal_strlit(".");
    reveal_with_fuel(text::padded, 2);
    text::law_decimal(n / 10);
    let s = tenths(n);
    assert(s.take(s.len() - 2) == text::dec(n / 10));
    assert(s.last() == text::digit_char(n % 10));
}

/// A byte count is shown in bytes below 1024, and else to the nearest tenth of the
/// largest of 2^10, 2^20, 2^30 and 2^40 bytes that it reaches, but for the precision of
/// a double from 2^53 on.
pub proof fn law_byte_counts(bytes: u64)
    ensures
        ({
            let s = human_bytes(bytes as int);
            let unit = if s.last() == 'K' {
                0x400int
            } else if s.last() == 'M' {
                0x10_0000
            } else if s.last() == 'G' {
                0x4000_0000
            } else {
                0x100_0000_0000
            };
            let shown = decimal_tenths(s.drop_last())->0;
            &&& s.last() == 'B' <==> bytes < 0x400
            &&& s.last() == 'K' <==> 0x400 <= bytes < 0x10_0000
            &&& s.last() == 'M' <==> 0x10_0000 <= bytes < 0x4000_0000
            &&& s.last() == 'G' <==> 0x4000_0000 <= bytes < 0x100_0000_0000
            &&& s.last() == 'T' <==> 0x100_0000_0000 <= bytes
            &&& bytes < 0x400 ==> text::unsigned_number(s.drop_last(), 0x3ff) == Some(bytes as int)
            &&& 0x400 <= bytes ==> decimal_tenths(s.drop_last()) is Some
            &&& 0x400 <= bytes < 0x20_0000_0000_0000 ==> -unit <= 2 * (shown * unit - 10 * bytes)
                <= unit
            &&& 0x20_0000_0000_0000 <= bytes ==> -unit - 0x1_0000 <= 2 * (shown * unit - 10
                * bytes) <= unit + 0x1_0000
        }),
{
    let n = bytes as int;
    let s = human_bytes(n);
    let index = unit_index(n);
    let unit = unit_bytes(index);
    let name = unit_name(index);
    assert(name.len() == 1 && name[0] == (if index == 0 {
        'B'
    } else if index == 1 {
        'K'
    } else if index == 2 {
        'M'
    } else if index == 3 {
        'G'
    } else {
        'T'
    })) by {
        reveal_strlit("B");
        reveal_strlit("K");
        reveal_strlit("M");
        reveal_strlit("G");
        reveal_strlit("T");
    }
    assert(s.last() == name[0]);
    if index == 0 {
        assert(s.drop_last() == text::dec(n));
        text::law_number_is_read_back(n, 0x3ff);
    } else {
        assert(n / 1 == n);
        lemma_nearest_float(n, 1, DOUBLE_LIMIT as int);
        let nearest = nearest_float(n, 1, DOUBLE_LIMIT as int);
        law_nearest_integer(10 * nearest, unit);
        let shown = half_even(10 * nearest, unit);
        law_tenths_are_read_back(shown);
        assert(s.drop_last() == tenths(shown));
        let step = float_step(n, 0x20_0000_0000_0000);
        assert(step * 0x20_0000_0000_0000 <= 2 * n || step == 1);
        assert(n < 0x20_0000_0000_0000 ==> nearest == n);
    }
}

/// The number of microseconds that a decimal with up to three places stands for as
/// milliseconds.
pub open spec fn milliseconds_us(s: Seq<char>) -> Option<int> {
    let point = text::first_index(s, '.');
    let whole = s.take(point);
    let places = s.skip(point + 1);
    let us = 1000 * text::digits_value(whole);
    if point == 0 || !text::all_digits(whole) {
        None
    } else if point == s.len() {
        Some(us)
    } else if !text::all_digits(places) {
        None
    } else if places.len() == 1 {
        Some(us + 100 * text::digits_value(places))
    } else if places.len() == 2 {
        Some(us + 10 * text::digits_value(places))
    } else if places.len() == 3 {
        Some(us + text::digits_value(places))
    } else {
        None
    }
}

/// The number of microseconds that a duration with its unit stands for.
pub open spec fn duration_us(s: Seq<char>) -> Option<int> {
    let figure = s.take(s.len() - 2);
    if s.len() < 3 || s.last() != 's' {
        None
    } else if s[s.len() - 2] == 'u' {
        text::plain_number(figure, u64::MAX as int)
    } else if s[s.len() - 2] == 'm' {
        milliseconds_us(figure)
    } else {
        None
    }
}

/// Thousandths behind a number of milliseconds are read back.
proof fn lemma_milliseconds(us: int)
    requires
        0 <= us,
    ensures
        milliseconds_us(text::dec(us / 1000) + short_fraction(us % 1000)) == Some(us),
        us % 1000 != 0 ==> (text::dec(us / 1000) + short_fraction(us % 1000)).last() != '0',
        us % 1000 == 0 ==> text::all_digits(text::dec(us / 1000) + short_fraction(us % 1000)),
{
    reveal_strlit(".");
    let whole = text::dec(us / 1000);
    let rest = us % 1000;
    let s = whole + short_fraction(rest);
    let n = whole.len() as int;
    text::law_decimal(us / 1000);
    assert forall|j: int| 0 <= j < n implies s[j] != '.' by {
        assert(s[j] == whole[j] && text::is_digit(whole[j]));
    }
    assert(s.take(n) == whole);
    if rest == 0 {
        assert(s == whole);
        text::lemma_at_first_index(s, '.');
    } else {
        assert(s[n] == '.');
        text::lemma_first_index(s, '.', n);
        assert(vstd::arithmetic::power::pow(10, 3) == 1000 && vstd::arithmetic::power::pow(10, 2)
            == 100 && vstd::arithmetic::power::pow(10, 1) == 10) by {
            reveal_with_fuel(vstd::arithmetic::power::pow, 4);
        }
        let (value, width) = if rest % 100 == 0 {
            (rest / 100, 1nat)
        } else if rest % 10 == 0 {
            (rest / 10, 2nat)
        } else {
            (rest, 3nat)
        };
        text::law_fixed_width(value, width);
        let places = text::padded(value, 10, width);
        assert(s.skip(n + 1) == places);
        assert(places.last() == text::digit_char(value % 10));
        assert(value % 10 != 0);
        assert(s.last() == places.last());
    }
}

/// A duration that was written is read back. Below a millisecond it stands in
/// microseconds, else in milliseconds with no zeros at the end of its places.
pub proof fn law_duration_is_read_back(us: int)
    requires
        0 <= us <= u64::MAX,
    ensures
        ({
            let s = duration(us);
            &&& duration_us(s) == Some(us)
            &&& us < 1000 <==> s[s.len() - 2] == 'u'
            &&& us % 1000 == 0 ==> !s.contains('.')
            &&& us >= 1000 && us % 1000 != 0 ==> s[s.len() - 3] != '0'
        }),
{
    let s = duration(us);
    assert("us"@.len() == 2 && "us"@[0] == 'u' && "us"@[1] == 's' && "ms"@.len() == 2 && "ms"@[0]
        == 'm' && "ms"@[1] == 's') by {
        reveal_strlit("us");
        reveal_strlit("ms");
    }
    text::law_decimal(us);
    if us < 1000 {
        assert(s.take(s.len() - 2) == text::dec(us));
        if s.contains('.') {
            let i = s.index_of('.');
            assert(text::dec(us)[i] == s[i]);
        }
    } else {
        let figure = text::dec(us / 1000) + short_fraction(us % 1000);
        text::law_decimal(us / 1000);
        lemma_milliseconds(us);
        assert(s.take(s.len() - 2) == figure);
        assert(us % 1000 != 0 ==> s[s.len() - 3] == figure.last());
        if us % 1000 == 0 && s.contains('.') {
            let i = s.index_of('.');
            assert(figure[i] == s[i]);
        }
    }
}

/// The sign and the size of a number make up the number; nothing has a plus.
pub proof fn law_sign_and_size(n: int)
    ensures
        size(n) >= 0,
        n < 0 ==> sign(n) == seq!['-'] && n == -size(n),
        n >= 0 ==> sign(n) == seq!['+'] && n == size(n),
{
    reveal_strlit("-");
    reveal_strlit("+");
}

/// Microseconds are shown to the nearest tenth of a millisecond.
pub proof fn law_nearest_tenth_of_a_millisecond(us: u32)
    ensures
        -1000 <= 2 * (1000 * double_places(us as int, 1000, 10) - 10 * us) <= 1000,
{
    let n = us as int;
    if n == 0 {
        vstd::arithmetic::power2::lemma2_to64();
        assert(doublings(0, 1000) == 0);
        assert(nearest_float(0, 1000, DOUBLE_LIMIT as int) == 0);
    } else {
        lemma_double_places(n, 1000, 10);
        let scale = vstd::arithmetic::power2::pow2(doublings(n, 1000)) as int;
        let off = double_places(n, 1000, 10) * 1000 - 10 * n;
        assert(scale > 10_000) by (nonlinear_arith)
            requires
                n * scale >= 1000 * 0x10_0000_0000_0000,
                0 < n <= 0xffff_ffff,
                scale >= 1,
        ;
        assert(-1000 <= 2 * off <= 1000) by (nonlinear_arith)
            requires
                2 * scale * off <= 1000 * (scale + 10),
                -2 * scale * off <= 1000 * (scale + 10),
                scale > 10_000,
        ;
    }
}

/// Floats hold every integer below 2^24 in single and below 2^53 in double precision.
/// From there on they are two apart, and twice as far apart at twice the number.
pub proof fn law_distance_of_floats(n: int)
    requires
        0 <= n,
    ensures
        float_step(n, SINGLE_LIMIT as int) == 1 <==> n < 0x100_0000,
        float_step(n, DOUBLE_LIMIT as int) == 1 <==> n < 0x20_0000_0000_0000,
        n >= 0x80_0000 ==> float_step(2 * n, SINGLE_LIMIT as int) == 2 * float_step(
            n,
            SINGLE_LIMIT as int,
        ),
        n >= 0x10_0000_0000_0000 ==> float_step(2 * n, DOUBLE_LIMIT as int) == 2 * float_step(
            n,
            DOUBLE_LIMIT as int,
        ),
{
    lemma_float_step(n / 2, SINGLE_LIMIT as int);
    lemma_float_step(n / 2, DOUBLE_LIMIT as int);
    assert(2 * n / 2 == n);
}

} // verus!
