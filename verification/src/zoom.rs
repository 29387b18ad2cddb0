//! The zoom engine's arithmetic, kept exact. One zoom step scales the
//! display by 6/5, so after `z` inward steps the scale factor — the divisor
//! taking source pixels to displayed pixels — is the rational
//! `5^z / 6^z` (and `6^m / 5^m` after `m` outward steps). The factor must
//! stay within the band greater than 1/256 and at most 32; a request whose
//! resulting factor would leave the band is rejected outright. Display
//! lengths round the quotient `source / factor` to the nearest integer,
//! halves away from zero.

use vstd::prelude::*;
use vstd::arithmetic::div_mod::lemma_multiply_divide_lt;

verus! {

/// Outermost zoom step: one more outward step would push the scale factor
/// over 32.
pub const ZOOM_MIN: i32 = -19;

/// Innermost zoom step: one more inward step would push the scale factor
/// to 1/256 or under.
pub const ZOOM_MAX: i32 = 30;

pub open spec fn pow5(n: nat) -> nat
    decreases n,
{
    if n == 0 {
        1
    } else {
        5 * pow5((n - 1) as nat)
    }
}

pub open spec fn pow6(n: nat) -> nat
    decreases n,
{
    if n == 0 {
        1
    } else {
        6 * pow6((n - 1) as nat)
    }
}

/// Numerator of the scale factor at zoom level `z`.
pub open spec fn scale_num(z: int) -> nat {
    if z >= 0 {
        pow5(z as nat)
    } else {
        pow6((-z) as nat)
    }
}

/// Denominator of the scale factor at zoom level `z`.
pub open spec fn scale_den(z: int) -> nat {
    if z >= 0 {
        pow6(z as nat)
    } else {
        pow5((-z) as nat)
    }
}

/// The scale factor at `z` lies in the band: above 1/256, at most 32.
pub open spec fn scale_in_band(z: int) -> bool {
    &&& 256 * scale_num(z) > scale_den(z)
    &&& scale_num(z) <= 32 * scale_den(z)
}

proof fn lemma_pow_pos(n: nat)
    ensures
        pow5(n) >= 1,
        pow6(n) >= 1,
    decreases n,
{
    if n > 0 {
        lemma_pow_pos((n - 1) as nat);
    }
}

proof fn lemma_pow5_le_pow6(n: nat)
    ensures
        pow5(n) <= pow6(n),
    decreases n,
{
    if n > 0 {
        lemma_pow5_le_pow6((n - 1) as nat);
    }
}

proof fn lemma_pow_mono(a: nat, b: nat)
    requires
        a <= b,
    ensures
        pow5(a) <= pow5(b),
        pow6(a) <= pow6(b),
    decreases b,
{
    if a < b {
        lemma_pow_mono(a, (b - 1) as nat);
        lemma_pow_pos((b - 1) as nat);
    }
}

/// Up to 30 inward steps the factor stays above 1/256.
proof fn lemma_gate_in(n: nat)
    requires
        n <= 30,
    ensures
        256 * pow5(n) > pow6(n),
    decreases 30 - n,
{
    if n == 30 {
        assert(256 * pow5(30) > pow6(30)) by {
            reveal_with_fuel(pow5, 31);
            reveal_with_fuel(pow6, 31);
        }
    } else {
        lemma_gate_in(n + 1);
        lemma_pow_pos(n);
        assert(pow5(n + 1) == 5 * pow5(n));
        assert(pow6(n + 1) == 6 * pow6(n));
    }
}

/// From the 31st inward step on the factor is 1/256 or under.
proof fn lemma_gate_in_out(n: nat)
    requires
        n >= 31,
    ensures
        256 * pow5(n) <= pow6(n),
    decreases n,
{
    if n == 31 {
        assert(256 * pow5(31) <= pow6(31)) by {
            reveal_with_fuel(pow5, 32);
            reveal_with_fuel(pow6, 32);
        }
    } else {
        lemma_gate_in_out((n - 1) as nat);
        lemma_pow_pos((n - 1) as nat);
        assert(pow5(n) == 5 * pow5((n - 1) as nat));
        assert(pow6(n) == 6 * pow6((n - 1) as nat));
    }
}

/// Up to 19 outward steps the factor stays at or under 32.
proof fn lemma_gate_out(m: nat)
    requires
        m <= 19,
    ensures
        pow6(m) <= 32 * pow5(m),
    decreases 19 - m,
{
    if m == 19 {
        assert(pow6(19) <= 32 * pow5(19)) by {
            reveal_with_fuel(pow5, 20);
            reveal_with_fuel(pow6, 20);
        }
    } else {
        lemma_gate_out(m + 1);
        lemma_pow_pos(m);
        assert(pow5(m + 1) == 5 * pow5(m));
        assert(pow6(m + 1) == 6 * pow6(m));
    }
}

/// From the 20th outward step on the factor is over 32.
proof fn lemma_gate_out_out(m: nat)
    requires
        m >= 20,
    ensures
        pow6(m) > 32 * pow5(m),
    decreases m,
{
    if m == 20 {
        assert(pow6(20) > 32 * pow5(20)) by {
            reveal_with_fuel(pow5, 21);
            reveal_with_fuel(pow6, 21);
        }
    } else {
        lemma_gate_out_out((m - 1) as nat);
        lemma_pow_pos((m - 1) as nat);
        assert(pow5(m) == 5 * pow5((m - 1) as nat));
        assert(pow6(m) == 6 * pow6((m - 1) as nat));
    }
}

/// The band holds at exactly the zoom levels from ZOOM_MIN to ZOOM_MAX.
pub proof fn lemma_band_range(z: int)
    ensures
        scale_in_band(z) <==> ZOOM_MIN <= z <= ZOOM_MAX,
{
    if z >= 0 {
        lemma_pow5_le_pow6(z as nat);
        lemma_pow_pos(z as nat);
        if z <= 30 {
            lemma_gate_in(z as nat);
        } else {
            lemma_gate_in_out(z as nat);
        }
    } else {
        let m = (-z) as nat;
        lemma_pow5_le_pow6(m);
        lemma_pow_pos(m);
        if m <= 19 {
            lemma_gate_out(m);
        } else {
            lemma_gate_out_out(m);
        }
    }
}

/// Numerator and denominator of the scale factor are positive and small
/// enough to compute with, on the whole band.
pub proof fn lemma_scale_bounds(z: int)
    requires
        ZOOM_MIN <= z <= ZOOM_MAX,
    ensures
        1 <= scale_num(z) < 0x100000000000000000000,
        1 <= scale_den(z) < 0x100000000000000000000,
{
    assert(pow5(30) < 0x100000000000000000000 && pow6(30) < 0x100000000000000000000) by {
        reveal_with_fuel(pow5, 31);
        reveal_with_fuel(pow6, 31);
    }
    if z >= 0 {
        lemma_pow_mono(z as nat, 30);
        lemma_pow_pos(z as nat);
    } else {
        lemma_pow_mono((-z) as nat, 30);
        lemma_pow_pos((-z) as nat);
    }
}

/// One inward step strictly shrinks the scale factor, as rationals:
/// num(z+1)/den(z+1) < num(z)/den(z), cross-multiplied.
proof fn lemma_scale_step(z: int)
    ensures
        scale_num(z + 1) * scale_den(z) < scale_num(z) * scale_den(z + 1),
{
    if z >= 0 {
        lemma_pow_pos(z as nat);
        let a = pow5(z as nat);
        let b = pow6(z as nat);
        assert(scale_num(z + 1) == 5 * a);
        assert(scale_den(z + 1) == 6 * b);
        assert((5 * a) * b < a * (6 * b)) by (nonlinear_arith)
            requires
                a >= 1,
                b >= 1,
        ;
    } else if z == -1 {
        assert(pow5(1) == 5 && pow6(1) == 6) by {
            reveal_with_fuel(pow5, 2);
            reveal_with_fuel(pow6, 2);
        }
        assert(scale_num(z + 1) == 1);
        assert(scale_den(z + 1) == 1);
        assert(scale_num(z) == 6);
        assert(scale_den(z) == 5);
        assert(scale_num(z + 1) * scale_den(z) == 5) by (nonlinear_arith)
            requires
                scale_num(z + 1) == 1,
                scale_den(z) == 5,
        ;
        assert(scale_num(z) * scale_den(z + 1) == 6) by (nonlinear_arith)
            requires
                scale_num(z) == 6,
                scale_den(z + 1) == 1,
        ;
    } else {
        let m = (-z) as nat;
        lemma_pow_pos((m - 1) as nat);
        let a = pow6((m - 1) as nat);
        let b = pow5((m - 1) as nat);
        assert(scale_num(z + 1) == a);
        assert(scale_den(z) == 5 * b);
        assert(scale_num(z) == 6 * a);
        assert(scale_den(z + 1) == b);
        assert(a * (5 * b) < (6 * a) * b) by (nonlinear_arith)
            requires
                a >= 1,
                b >= 1,
        ;
    }
}

/// The scale factor strictly decreases as the zoom level increases:
/// for z1 < z2, num(z2)/den(z2) < num(z1)/den(z1), cross-multiplied.
pub proof fn lemma_scale_strictly_decreasing(z1: int, z2: int)
    requires
        z1 < z2,
    ensures
        scale_num(z2) * scale_den(z1) < scale_num(z1) * scale_den(z2),
    decreases z2 - z1,
{
    if z2 == z1 + 1 {
        lemma_scale_step(z1);
    } else {
        lemma_scale_strictly_decreasing(z1, z2 - 1);
        lemma_scale_step(z2 - 1);
        lemma_scale_pos(z1);
        lemma_scale_pos(z2 - 1);
        lemma_scale_pos(z2);
        let n1 = scale_num(z1);
        let d1 = scale_den(z1);
        let nm = scale_num(z2 - 1);
        let dm = scale_den(z2 - 1);
        let n2 = scale_num(z2);
        let d2 = scale_den(z2);
        assert(n2 * d1 < n1 * d2) by (nonlinear_arith)
            requires
                nm * d1 < n1 * dm,
                n2 * dm < nm * d2,
                n1 >= 1,
                d1 >= 1,
                nm >= 1,
                dm >= 1,
                n2 >= 1,
                d2 >= 1,
        ;
    }
}

/// Numerator and denominator of the scale factor are positive at every
/// zoom level.
pub proof fn lemma_scale_pos(z: int)
    ensures
        scale_num(z) >= 1,
        scale_den(z) >= 1,
{
    if z >= 0 {
        lemma_pow_pos(z as nat);
    } else {
        lemma_pow_pos((-z) as nat);
    }
}

/// Numerator and denominator of the scale factor at zoom level `z`, as
/// machine integers.
pub fn scale_parts(z: i32) -> (r: (u128, u128))
    requires
        ZOOM_MIN <= z <= ZOOM_MAX,
    ensures
        r.0 == scale_num(z as int),
        r.1 == scale_den(z as int),
{
    let m: u32 = if z >= 0 {
        z as u32
    } else {
        (-z) as u32
    };
    let mut n5: u128 = 1;
    let mut n6: u128 = 1;
    let mut k: u32 = 0;
    while k < m
        invariant
            k <= m <= 30,
            n5 == pow5(k as nat),
            n6 == pow6(k as nat),
        decreases m - k,
    {
        proof {
            lemma_pow_mono((k + 1) as nat, 30);
            assert(pow5(30) < 0x100000000000000000000 && pow6(30)
                < 0x100000000000000000000) by {
                reveal_with_fuel(pow5, 31);
                reveal_with_fuel(pow6, 31);
            }
        }
        n5 = n5 * 5;
        n6 = n6 * 6;
        k = k + 1;
    }
    if z >= 0 {
        (n5, n6)
    } else {
        (n6, n5)
    }
}

/// Display length of one axis at zoom level `z`: the source length divided
/// by the scale factor, rounded to the nearest integer with halves rounded
/// up.
pub open spec fn view_len(src: int, z: int) -> int {
    (2 * src * (scale_den(z) as int) + (scale_num(z) as int)) / (2 * (scale_num(z) as int))
}

/// At the neutral zoom level the display length is the source length.
pub proof fn lemma_view_len_neutral(src: int)
    requires
        src >= 0,
    ensures
        view_len(src, 0) == src,
{
    assert(scale_num(0) == 1 && scale_den(0) == 1);
    assert((2 * src + 1) / 2 == src);
}

/// Display length of one axis at zoom level `z`.
pub fn scaled_len(src: u32, z: i32) -> (r: u64)
    requires
        ZOOM_MIN <= z <= ZOOM_MAX,
    ensures
        r == view_len(src as int, z as int),
{
    let parts = scale_parts(z);
    let num = parts.0;
    let den = parts.1;
    proof {
        lemma_scale_bounds(z as int);
        lemma_band_range(z as int);
        let x = 2 * (src as int) * (den as int) + num;
        assert(x < (2 * (num as int)) * 0x8000000000000000) by (nonlinear_arith)
            requires
                num >= 1,
                den < 256 * num,
                src < 0x100000000,
                x == 2 * (src as int) * (den as int) + num,
        ;
        lemma_multiply_divide_lt(x, 2 * (num as int), 0x8000000000000000);
        assert(2 * (src as int) * (den as int) + (num as int) < 0x100000000000000000000000000000000)
            by (nonlinear_arith)
            requires
                src < 0x100000000,
                den < 0x100000000000000000000,
                num < 0x100000000000000000000,
        ;
    }
    let q: u128 = (2 * (src as u128) * den + num) / (2 * num);
    q as u64
}

/// Anchor correction of one inward zoom step along one axis: the anchor
/// coordinate shrunk by the step's magnification 6/5, plus half the
/// shrunken viewport extent; the view moves by this amount.
pub open spec fn zoom_in_delta(coord: int, vd: int) -> int {
    5 * coord / 6 + 5 * vd / 12
}

/// Half the scaled viewport extent used by the outward anchor correction.
pub open spec fn zoom_out_half(vd: int) -> int {
    5 * vd / 12
}

/// Anchor correction of one outward zoom step along one axis: the anchor
/// coordinate less half the scaled viewport extent, divided by one more
/// than the step's magnification, taken negative; clamped to zero when the
/// coordinate is under that half extent. Never positive.
pub open spec fn zoom_out_delta(coord: int, vd: int) -> int {
    if coord < zoom_out_half(vd) {
        0
    } else {
        -(5 * (coord - zoom_out_half(vd)) / 11)
    }
}

/// Anchor correction of one inward zoom step along one axis.
pub fn zoom_in_delta_exec(coord: u32, vd: u32) -> (r: i64)
    ensures
        r == zoom_in_delta(coord as int, vd as int),
{
    let a: u64 = 5 * (coord as u64) / 6;
    let b: u64 = 5 * (vd as u64) / 12;
    (a + b) as i64
}

/// Anchor correction of one outward zoom step along one axis.
pub fn zoom_out_delta_exec(coord: u32, vd: u32) -> (r: i64)
    ensures
        r == zoom_out_delta(coord as int, vd as int),
{
    let half: u64 = 5 * (vd as u64) / 12;
    if (coord as u64) < half {
        0
    } else {
        -((5 * ((coord as u64) - half) / 11) as i64)
    }
}

/// Sum of `a` and `b` held within the range of 64-bit pan offsets.
pub open spec fn sat_add_i64(a: int, b: int) -> int {
    if a + b > i64::MAX {
        i64::MAX as int
    } else if a + b < i64::MIN {
        i64::MIN as int
    } else {
        a + b
    }
}

/// Sum of `a` and `b` held within the range of 64-bit pan offsets.
pub fn sat_add(a: i64, b: i64) -> (r: i64)
    ensures
        r == sat_add_i64(a as int, b as int),
{
    let s: i128 = a as i128 + b as i128;
    if s > i64::MAX as i128 {
        i64::MAX
    } else if s < i64::MIN as i128 {
        i64::MIN
    } else {
        s as i64
    }
}

} // verus!
