//! The procedural noise stack: deterministic pseudo-random scalar fields over
//! three-dimensional space, in fixed-point arithmetic.
//!
//! Coordinates and results are Q16.16 fixed-point values: the `i64` value `v`
//! stands for the real number `v / SCALE` with `SCALE == 65536`. The field is
//! a pure function of the coordinates — no state, no external randomness — so
//! identical inputs give identical outputs across calls and across runs, and
//! every result of the two noise primitives lies in `[0, SCALE]`, that is, in
//! `[0, 1]` of real range.
//!
//! The stack is the classic one: an integer hash of the lattice corner
//! coordinates selects a gradient per corner; the gradient dot-products at the
//! fractional offset are tri-linearly interpolated under the smoothed fade
//! curve `6t^5 - 15t^4 + 10t^3`; a cheaper two-tap blend approximates
//! higher-frequency detail; and turbulence sums octaves at doubling frequency
//! and halving amplitude.

use vstd::arithmetic::div_mod::lemma_div_is_ordered;
use vstd::arithmetic::div_mod::lemma_div_multiples_vanish;
use vstd::arithmetic::div_mod::lemma_div_pos_is_pos;
use vstd::arithmetic::div_mod::lemma_hoist_over_denominator;
use vstd::arithmetic::div_mod::lemma_mod_multiples_vanish;
use vstd::prelude::*;

verus! {

/// The fixed-point unit: this many code units stand for the real value one.
pub const SCALE: i64 = 65536;

/// Largest coordinate magnitude the lattice noise accepts: 16384 real units
/// either way, so a lattice cell index always fits comfortably in an `i32`.
pub const COORD_LIMIT: i64 = 0x4000_0000;

/// Largest coordinate magnitude the two-tap blend accepts: its second tap
/// doubles the coordinate and adds a fixed offset, and must stay within
/// `COORD_LIMIT`.
pub const BLEND_LIMIT: i64 = 0x1FF0_0000;

/// Largest coordinate magnitude turbulence accepts: its highest octave scales
/// the coordinate by up to 128, and must stay within `BLEND_LIMIT`.
pub const TURB_LIMIT: i64 = 0x3F_0000;

/// Most octaves a turbulence sum may take.
pub const MAX_OCTAVES: u32 = 8;

/// Fixed offset of the blend's second tap, roughly (5.2, 1.3, 8.1) in real
/// units.
pub const BLEND_OFFSET_X: i64 = 340787;

pub const BLEND_OFFSET_Y: i64 = 85197;

pub const BLEND_OFFSET_Z: i64 = 530842;

/// The mixed lattice hash as a mathematical function: three wrapping
/// multiplications by fixed odd constants folded together with wrapping
/// additions, one xor-shift stir, one more wrapping multiplication, and a mask
/// to the low eight bits.
pub open spec fn hash_spec(x: i32, y: i32, z: i32) -> i32 {
    let mixed = vstd::wrapping::i32_specs::wrapping_add(
        vstd::wrapping::i32_specs::wrapping_add(
            vstd::wrapping::i32_specs::wrapping_mul(x, 374761393),
            vstd::wrapping::i32_specs::wrapping_mul(y, 668265263),
        ),
        vstd::wrapping::i32_specs::wrapping_mul(z, 1274126177),
    );
    let stirred = vstd::wrapping::i32_specs::wrapping_mul(mixed ^ (mixed >> 13), 1274126177);
    stirred & 0xff
}

/// Hashes one lattice corner to a gradient selector in `[0, 255]`. Identical
/// coordinates give the identical selector on every call and on every run:
/// the result is exactly `hash_spec` of the inputs.
pub fn hash(x: i32, y: i32, z: i32) -> (r: i32)
    ensures
        r == hash_spec(x, y, z),
        0 <= r <= 255,
{
    let mixed = x.wrapping_mul(374761393).wrapping_add(y.wrapping_mul(668265263)).wrapping_add(
        z.wrapping_mul(1274126177),
    );
    let stirred = (mixed ^ (mixed >> 13)).wrapping_mul(1274126177);
    let r = stirred & 0xff;
    proof {
        assert(stirred & 0xff >= 0 && stirred & 0xff <= 255) by (bit_vector);
    }
    r
}

/// The fade polynomial `6t^5 - 15t^4 + 10t^3` over fixed-point `t`.
pub open spec fn fade_spec(t: int) -> int {
    let t2 = t * t;
    let t3 = t2 * t;
    let poly = 6 * t2 - 15 * t * 65536 + 10 * 65536 * 65536;
    (t3 * poly) / (65536int * 65536 * 65536 * 65536)
}

/// The smoothed fade curve on one interpolation axis: `0` at `0`, `SCALE` at
/// `SCALE`, flat at both ends.
fn fade(t: i64) -> (r: i64)
    requires
        0 <= t <= SCALE,
    ensures
        r == fade_spec(t as int),
        0 <= r <= SCALE,
{
    proof {
        let ti = t as int;
        let t2i = ti * ti;
        let t3i = t2i * ti;
        let t4i = t3i * ti;
        let t5i = t4i * ti;
        let pi = 6 * t2i - 15 * ti * 65536 + 10 * 65536 * 65536;
        assert(0 <= t2i <= 0x1_0000_0000) by (nonlinear_arith)
            requires
                0 <= ti <= 65536,
                t2i == ti * ti,
        ;
        assert(0 <= t3i <= 0x1_0000_0000_0000) by (nonlinear_arith)
            requires
                0 <= ti <= 65536,
                0 <= t2i <= 0x1_0000_0000,
                t3i == t2i * ti,
        ;
        assert((12 * ti - 983040) * (12 * ti - 983040) + 64424509440 == 24 * pi)
            by (nonlinear_arith)
            requires
                t2i == ti * ti,
                pi == 6 * t2i - 15 * ti * 65536 + 10 * 65536 * 65536,
        ;
        assert((12 * ti - 983040) * (12 * ti - 983040) >= 0) by (nonlinear_arith);
        assert(0 <= t3i * pi <= 0x1_0000_0000_0000 * 0x11_0000_0000) by (nonlinear_arith)
            requires
                0 <= t3i <= 0x1_0000_0000_0000,
                0 <= pi <= 0x11_0000_0000,
        ;
        assert(t3i * pi == 6 * t5i - 983040 * t4i + 42949672960 * t3i) by (nonlinear_arith)
            requires
                t2i == ti * ti,
                t3i == t2i * ti,
                t4i == t3i * ti,
                t5i == t4i * ti,
                pi == 6 * t2i - 15 * ti * 65536 + 10 * 65536 * 65536,
        ;
        assert((65536 - ti) * (65536 - ti) * (65536 - ti) * (4294967296 + 3 * ti * 65536 + 6 * t2i)
            == 0x1_0000_0000_0000_0000_0000 - 42949672960 * t3i + 983040 * t4i - 6 * t5i)
            by (nonlinear_arith)
            requires
                t2i == ti * ti,
                t3i == t2i * ti,
                t4i == t3i * ti,
                t5i == t4i * ti,
        ;
        assert((65536 - ti) * (65536 - ti) * (65536 - ti) * (4294967296 + 3 * ti * 65536 + 6 * t2i)
            >= 0) by (nonlinear_arith)
            requires
                0 <= ti <= 65536,
                t2i == ti * ti,
        ;
        lemma_div_pos_is_pos(t3i * pi, 0x1_0000_0000_0000_0000);
        lemma_div_is_ordered(
            t3i * pi,
            0x1_0000_0000_0000_0000_0000,
            0x1_0000_0000_0000_0000,
        );
        lemma_div_multiples_vanish(65536, 0x1_0000_0000_0000_0000);
    }
    let tw = t as i128;
    let t2 = tw * tw;
    let t3 = t2 * tw;
    let poly = 6 * t2 - 15 * tw * 65536 + 10 * 65536 * 65536;
    let num = t3 * poly;
    let e4: i128 = 65536 * 65536 * 65536 * 65536;
    let r128 = num / e4;
    r128 as i64
}

/// Linear interpolation from `a` to `b` by the fixed-point fraction `t`,
/// rounding the step toward zero.
pub open spec fn lerp_spec(a: int, b: int, t: int) -> int {
    if b >= a {
        a + (t * (b - a)) / 65536
    } else {
        a - (t * (a - b)) / 65536
    }
}

/// Interpolates between two fixed-point values; the result never leaves the
/// interval they span.
fn lerp(a: i64, b: i64, t: i64) -> (r: i64)
    requires
        -2 * SCALE <= a <= 2 * SCALE,
        -2 * SCALE <= b <= 2 * SCALE,
        0 <= t <= SCALE,
    ensures
        r == lerp_spec(a as int, b as int, t as int),
        a <= b ==> a <= r <= b,
        b <= a ==> b <= r <= a,
{
    if b >= a {
        let diff = b - a;
        proof {
            assert(0 <= (t as int) * (diff as int) <= 65536 * (diff as int)) by (nonlinear_arith)
                requires
                    0 <= t <= 65536,
                    diff >= 0,
            ;
            lemma_div_pos_is_pos(t as int * diff as int, 65536);
            lemma_div_is_ordered(t as int * diff as int, 65536 * diff as int, 65536);
            lemma_div_multiples_vanish(diff as int, 65536);
        }
        let step = (t * diff) / SCALE;
        a + step
    } else {
        let diff = a - b;
        proof {
            assert(0 <= (t as int) * (diff as int) <= 65536 * (diff as int)) by (nonlinear_arith)
                requires
                    0 <= t <= 65536,
                    diff >= 0,
            ;
            lemma_div_pos_is_pos(t as int * diff as int, 65536);
            lemma_div_is_ordered(t as int * diff as int, 65536 * diff as int, 65536);
            lemma_div_multiples_vanish(diff as int, 65536);
        }
        let step = (t * diff) / SCALE;
        a - step
    }
}

/// The gradient dot-product at one lattice corner: the low four selector bits
/// pick two of the three fractional offsets and their signs, exactly the
/// classic gradient table.
pub open spec fn grad_spec(h: i32, x: int, y: int, z: int) -> int {
    let hm = h & 15;
    let u = if hm < 8 {
        x
    } else {
        y
    };
    let v = if hm < 4 {
        y
    } else if hm == 12 || hm == 14 {
        x
    } else {
        z
    };
    (if hm & 1 == 0 {
        u
    } else {
        -u
    }) + (if hm & 2 == 0 {
        v
    } else {
        -v
    })
}

/// Evaluates the selected gradient at a fractional offset from a corner.
fn grad(h: i32, x: i64, y: i64, z: i64) -> (r: i64)
    requires
        -SCALE <= x <= SCALE,
        -SCALE <= y <= SCALE,
        -SCALE <= z <= SCALE,
    ensures
        r == grad_spec(h, x as int, y as int, z as int),
        -2 * SCALE <= r <= 2 * SCALE,
{
    let hm = h & 15;
    let u = if hm < 8 {
        x
    } else {
        y
    };
    let v = if hm < 4 {
        y
    } else if hm == 12 || hm == 14 {
        x
    } else {
        z
    };
    let us = if hm & 1 == 0 {
        u
    } else {
        -u
    };
    let vs = if hm & 2 == 0 {
        v
    } else {
        -v
    };
    us + vs
}

/// The lattice cell holding a fixed-point coordinate.
pub open spec fn cell_of(x: int) -> int {
    x / 65536
}

/// The fractional offset of a fixed-point coordinate within its lattice cell.
pub open spec fn frac_of(x: int) -> int {
    x % 65536
}

/// Splits a coordinate into its lattice cell and its fractional offset.
fn split_cell(x: i64) -> (res: (i32, i64))
    requires
        -COORD_LIMIT <= x <= COORD_LIMIT,
    ensures
        res.0 as int == cell_of(x as int),
        res.1 as int == frac_of(x as int),
        0 <= res.1 < SCALE,
        -16384 <= res.0 <= 16384,
{
    let shifted = x + COORD_LIMIT;
    let cell = shifted / SCALE;
    let frac = shifted % SCALE;
    proof {
        lemma_hoist_over_denominator(x as int, 16384, 65536nat);
        lemma_mod_multiples_vanish(16384, x as int, 65536);
        lemma_div_pos_is_pos(shifted as int, 65536);
        lemma_div_is_ordered(shifted as int, 0x8000_0000, 65536);
        lemma_div_multiples_vanish(0x8000, 65536);
        assert(0x8000 * 65536 == 0x8000_0000);
        assert(65536 * 16384 == 0x4000_0000);
        assert(16384 * 65536 == 0x4000_0000);
    }
    ((cell - 16384) as i32, frac)
}

/// The lattice noise as a mathematical function: hash the eight corners of the
/// containing cell, evaluate each corner's gradient at the fractional offset,
/// tri-linearly interpolate under the fade curve, rescale the raw result from
/// roughly `[-1, 1]` to `[0, 1]`, and clamp into `[0, 1]` exactly.
#[verifier::opaque]
pub open spec fn lattice_noise_spec(x: int, y: int, z: int) -> int {
    let xi = cell_of(x) as i32;
    let yi = cell_of(y) as i32;
    let zi = cell_of(z) as i32;
    let xf = frac_of(x);
    let yf = frac_of(y);
    let zf = frac_of(z);
    let u = fade_spec(xf);
    let v = fade_spec(yf);
    let w = fade_spec(zf);
    let x1 = lerp_spec(
        grad_spec(hash_spec(xi, yi, zi), xf, yf, zf),
        grad_spec(hash_spec((xi + 1) as i32, yi, zi), xf - 65536, yf, zf),
        u,
    );
    let x2 = lerp_spec(
        grad_spec(hash_spec(xi, (yi + 1) as i32, zi), xf, yf - 65536, zf),
        grad_spec(hash_spec((xi + 1) as i32, (yi + 1) as i32, zi), xf - 65536, yf - 65536, zf),
        u,
    );
    let y1 = lerp_spec(x1, x2, v);
    let x3 = lerp_spec(
        grad_spec(hash_spec(xi, yi, (zi + 1) as i32), xf, yf, zf - 65536),
        grad_spec(hash_spec((xi + 1) as i32, yi, (zi + 1) as i32), xf - 65536, yf, zf - 65536),
        u,
    );
    let x4 = lerp_spec(
        grad_spec(hash_spec(xi, (yi + 1) as i32, (zi + 1) as i32), xf, yf - 65536, zf - 65536),
        grad_spec(
            hash_spec((xi + 1) as i32, (yi + 1) as i32, (zi + 1) as i32),
            xf - 65536,
            yf - 65536,
            zf - 65536,
        ),
        u,
    );
    let y2 = lerp_spec(x3, x4, v);
    let raw = lerp_spec(y1, y2, w);
    let out = (raw + 65536) / 2;
    if out < 0 {
        0
    } else if out > 65536 {
        65536
    } else {
        out
    }
}

/// Classic lattice gradient noise. Deterministic — the result is exactly
/// `lattice_noise_spec` of the coordinates — and always within `[0, SCALE]`,
/// that is, within `[0, 1]` of real range.
pub fn lattice_noise(x: i64, y: i64, z: i64) -> (r: i64)
    requires
        -COORD_LIMIT <= x <= COORD_LIMIT,
        -COORD_LIMIT <= y <= COORD_LIMIT,
        -COORD_LIMIT <= z <= COORD_LIMIT,
    ensures
        r == lattice_noise_spec(x as int, y as int, z as int),
        0 <= r <= SCALE,
{
    proof {
        reveal(lattice_noise_spec);
    }
    let (xi, xf) = split_cell(x);
    let (yi, yf) = split_cell(y);
    let (zi, zf) = split_cell(z);
    let u = fade(xf);
    let v = fade(yf);
    let w = fade(zf);
    let aaa = hash(xi, yi, zi);
    let aba = hash(xi, yi + 1, zi);
    let aab = hash(xi, yi, zi + 1);
    let abb = hash(xi, yi + 1, zi + 1);
    let baa = hash(xi + 1, yi, zi);
    let bba = hash(xi + 1, yi + 1, zi);
    let bab = hash(xi + 1, yi, zi + 1);
    let bbb = hash(xi + 1, yi + 1, zi + 1);
    let x1 = lerp(grad(aaa, xf, yf, zf), grad(baa, xf - SCALE, yf, zf), u);
    let x2 = lerp(grad(aba, xf, yf - SCALE, zf), grad(bba, xf - SCALE, yf - SCALE, zf), u);
    let y1 = lerp(x1, x2, v);
    let x3 = lerp(grad(aab, xf, yf, zf - SCALE), grad(bab, xf - SCALE, yf, zf - SCALE), u);
    let x4 = lerp(
        grad(abb, xf, yf - SCALE, zf - SCALE),
        grad(bbb, xf - SCALE, yf - SCALE, zf - SCALE),
        u,
    );
    let y2 = lerp(x3, x4, v);
    let raw = lerp(y1, y2, w);
    let shifted = raw + 3 * SCALE;
    let out = shifted / 2 - SCALE;
    proof {
        lemma_hoist_over_denominator(raw as int + 65536, 65536, 2nat);
        lemma_div_pos_is_pos(shifted as int, 2);
        lemma_div_is_ordered(shifted as int, 5 * 65536int, 2);
    }
    if out < 0 {
        0
    } else if out > SCALE {
        SCALE
    } else {
        out
    }
}

/// The two-tap blend as a mathematical function: the lattice noise at the
/// coordinates, plus half the lattice noise at doubled frequency and a fixed
/// offset, renormalized into `[0, 1]`.
#[verifier::opaque]
pub open spec fn simplex_noise_spec(x: int, y: int, z: int) -> int {
    let n0 = lattice_noise_spec(x, y, z);
    let n1 = lattice_noise_spec(2 * x + 340787, 2 * y + 85197, 2 * z + 530842);
    (2 * n0 + n1) / 3
}

/// The cheap simplex-like noise: not a simplex lattice but a documented
/// approximation — two lattice-noise taps, the second at doubled frequency
/// behind a fixed offset, blended one to a half and renormalized. Deterministic
/// and within `[0, SCALE]`.
pub fn simplex_noise(x: i64, y: i64, z: i64) -> (r: i64)
    requires
        -BLEND_LIMIT <= x <= BLEND_LIMIT,
        -BLEND_LIMIT <= y <= BLEND_LIMIT,
        -BLEND_LIMIT <= z <= BLEND_LIMIT,
    ensures
        r == simplex_noise_spec(x as int, y as int, z as int),
        0 <= r <= SCALE,
{
    proof {
        reveal(simplex_noise_spec);
    }
    let n0 = lattice_noise(x, y, z);
    let n1 = lattice_noise(
        2 * x + BLEND_OFFSET_X,
        2 * y + BLEND_OFFSET_Y,
        2 * z + BLEND_OFFSET_Z,
    );
    let r = (2 * n0 + n1) / 3;
    proof {
        lemma_div_pos_is_pos(2 * n0 as int + n1 as int, 3);
        lemma_div_is_ordered(2 * n0 as int + n1 as int, 3 * 65536int, 3);
        lemma_div_multiples_vanish(65536, 3);
    }
    r
}

/// The noise primitive an octave sum draws from. The renderer's third
/// primitive, the cellular field, takes its feature points as an argument per
/// sample, so its octave sum is composed by the caller with the same scheme.
#[derive(Clone, Copy, Debug, PartialEq, Eq, Structural)]
pub enum NoiseKind {
    Lattice,
    SimplexLike,
}

/// Powers of two, for octave frequency and amplitude.
pub open spec fn pow2i(k: int) -> int
    decreases k,
{
    if k <= 0 {
        1
    } else {
        2 * pow2i(k - 1)
    }
}

/// One octave's noise value at the given coordinates.
pub open spec fn octave_noise_spec(kind: NoiseKind, x: int, y: int, z: int) -> int {
    match kind {
        NoiseKind::Lattice => lattice_noise_spec(x, y, z),
        NoiseKind::SimplexLike => simplex_noise_spec(x, y, z),
    }
}

/// The fractal octave sum: octave `k` samples the chosen noise at frequency
/// `2^k` and weighs it by `1 / 2^k`. No normalization — callers compensate.
pub open spec fn turbulence_spec(kind: NoiseKind, x: int, y: int, z: int, octaves: int) -> int
    decreases octaves,
{
    if octaves <= 0 {
        0
    } else {
        let k = octaves - 1;
        turbulence_spec(kind, x, y, z, k) + octave_noise_spec(
            kind,
            x * pow2i(k),
            y * pow2i(k),
            z * pow2i(k),
        ) / pow2i(k)
    }
}

/// Powers of two stay within `[1, 256]` for octave counts up to the maximum.
proof fn lemma_pow2i_bounds(k: int)
    requires
        0 <= k <= 8,
    ensures
        1 <= pow2i(k) <= 256,
        k <= 7 ==> pow2i(k) <= 128,
{
    reveal_with_fuel(pow2i, 10);
    assert(pow2i(0) == 1 && pow2i(1) == 2 && pow2i(2) == 4 && pow2i(3) == 8 && pow2i(4) == 16
        && pow2i(5) == 32 && pow2i(6) == 64 && pow2i(7) == 128 && pow2i(8) == 256);
}

/// Sums `octaves` layers of the chosen noise at doubling frequency and halving
/// amplitude. Deterministic — the result is exactly `turbulence_spec` — and
/// within `[0, octaves]` of real range.
#[verifier::rlimit(60)]
pub fn turbulence(kind: NoiseKind, x: i64, y: i64, z: i64, octaves: u32) -> (r: i64)
    requires
        -TURB_LIMIT <= x <= TURB_LIMIT,
        -TURB_LIMIT <= y <= TURB_LIMIT,
        -TURB_LIMIT <= z <= TURB_LIMIT,
        octaves <= MAX_OCTAVES,
    ensures
        r == turbulence_spec(kind, x as int, y as int, z as int, octaves as int),
        0 <= r <= octaves * SCALE,
{
    let mut sum: i64 = 0;
    let mut freq: i64 = 1;
    let mut k: u32 = 0;
    while k < octaves
        invariant
            k <= octaves <= 8,
            -TURB_LIMIT <= x <= TURB_LIMIT,
            -TURB_LIMIT <= y <= TURB_LIMIT,
            -TURB_LIMIT <= z <= TURB_LIMIT,
            freq == pow2i(k as int),
            sum == turbulence_spec(kind, x as int, y as int, z as int, k as int),
            0 <= sum <= k * SCALE,
        decreases octaves - k,
    {
        proof {
            lemma_pow2i_bounds(k as int);
            assert(x * (freq as int) <= 0x3F_0000 * 128 && x * (freq as int) >= -0x3F_0000 * 128)
                by (nonlinear_arith)
                requires
                    -0x3F_0000 <= x <= 0x3F_0000,
                    1 <= freq <= 128,
            ;
            assert(y * (freq as int) <= 0x3F_0000 * 128 && y * (freq as int) >= -0x3F_0000 * 128)
                by (nonlinear_arith)
                requires
                    -0x3F_0000 <= y <= 0x3F_0000,
                    1 <= freq <= 128,
            ;
            assert(z * (freq as int) <= 0x3F_0000 * 128 && z * (freq as int) >= -0x3F_0000 * 128)
                by (nonlinear_arith)
                requires
                    -0x3F_0000 <= z <= 0x3F_0000,
                    1 <= freq <= 128,
            ;
        }
        let n = match kind {
            NoiseKind::Lattice => lattice_noise(x * freq, y * freq, z * freq),
            NoiseKind::SimplexLike => simplex_noise(x * freq, y * freq, z * freq),
        };
        let term = n / freq;
        proof {
            lemma_div_pos_is_pos(n as int, freq as int);
            lemma_div_is_ordered(n as int, 65536, freq as int);
        }
        sum = sum + term;
        freq = freq * 2;
        k = k + 1;
    }
    sum
}

/// The "nothing nearby" sentinel of the cellular field: the squared
/// fixed-point distance of ten real units, farther than any feature point in
/// the 3x3x3 cell neighborhood can lie.
pub const FAR_DIST_SQ: i64 = 655360 * 655360;

/// How far from the sampled point a feature point may lie, per axis: four
/// real units, comfortably past the two the cell neighborhood allows.
pub const FEATURE_RANGE: i64 = 4 * 65536;

/// Whether a feature point lies within `FEATURE_RANGE` of the sampled point on
/// every axis.
pub open spec fn feature_near(x: int, y: int, z: int, f: (i64, i64, i64)) -> bool {
    &&& -FEATURE_RANGE <= x - f.0 <= FEATURE_RANGE
    &&& -FEATURE_RANGE <= y - f.1 <= FEATURE_RANGE
    &&& -FEATURE_RANGE <= z - f.2 <= FEATURE_RANGE
}

/// The squared Euclidean distance from the sampled point to a feature point,
/// in squared fixed-point units.
pub open spec fn dist_sq(x: int, y: int, z: int, f: (i64, i64, i64)) -> int {
    (x - f.0) * (x - f.0) + (y - f.1) * (y - f.1) + (z - f.2) * (z - f.2)
}

/// The smallest squared distance to any feature point, `FAR_DIST_SQ` when
/// there is none.
pub open spec fn min_dist_sq(x: int, y: int, z: int, fs: Seq<(i64, i64, i64)>) -> int
    decreases fs.len(),
{
    if fs.len() == 0 {
        FAR_DIST_SQ as int
    } else {
        let d = dist_sq(x, y, z, fs[0]);
        let rest = min_dist_sq(x, y, z, fs.drop_first());
        if d < rest {
            d
        } else {
            rest
        }
    }
}

/// The integer square root, rounded down.
pub open spec fn sqrt_floor(n: nat) -> nat
    decreases n,
{
    if n == 0 {
        0
    } else {
        let s = sqrt_floor((n - 1) as nat);
        if (s + 1) * (s + 1) <= n {
            s + 1
        } else {
            s
        }
    }
}

/// `sqrt_floor` is what its name says: its square is at most `n` and the next
/// square is beyond `n`.
pub proof fn lemma_sqrt_floor(n: nat)
    ensures
        sqrt_floor(n) * sqrt_floor(n) <= n,
        n < (sqrt_floor(n) + 1) * (sqrt_floor(n) + 1),
    decreases n,
{
    if n > 0 {
        let m = (n - 1) as nat;
        lemma_sqrt_floor(m);
        let s = sqrt_floor(m);
        if (s + 1) * (s + 1) <= n {
            assert(sqrt_floor(n) == s + 1);
            assert((s + 1) * (s + 1) < (s + 2) * (s + 2)) by (nonlinear_arith);
            assert(n < (s + 2) * (s + 2));
        } else {
            assert(sqrt_floor(n) == s);
        }
    } else {
        assert(sqrt_floor(n) == 0);
        assert(n < (sqrt_floor(n) + 1) * (sqrt_floor(n) + 1)) by (nonlinear_arith)
            requires
                n == 0,
                sqrt_floor(n) == 0,
        ;
    }
}

/// The minimum over any feature set never exceeds the sentinel.
proof fn lemma_min_dist_sq_le_far(x: int, y: int, z: int, fs: Seq<(i64, i64, i64)>)
    ensures
        min_dist_sq(x, y, z, fs) <= FAR_DIST_SQ,
    decreases fs.len(),
{
    if fs.len() > 0 {
        lemma_min_dist_sq_le_far(x, y, z, fs.drop_first());
    }
}

/// No other value satisfies the square-root characterization.
pub proof fn lemma_sqrt_floor_unique(n: nat, r: nat)
    requires
        r * r <= n,
        n < (r + 1) * (r + 1),
    ensures
        r == sqrt_floor(n),
{
    lemma_sqrt_floor(n);
    let s = sqrt_floor(n);
    if r < s {
        vstd::arithmetic::mul::lemma_mul_inequality(r as int + 1, s as int, r as int + 1);
        vstd::arithmetic::mul::lemma_mul_inequality(r as int + 1, s as int, s as int);
    }
    if s < r {
        vstd::arithmetic::mul::lemma_mul_inequality(s as int + 1, r as int, s as int + 1);
        vstd::arithmetic::mul::lemma_mul_inequality(s as int + 1, r as int, r as int);
    }
}

/// The integer square root, by binary search on the answer.
fn isqrt(n: u64) -> (r: u64)
    requires
        n < 0x100_0000_0000,
    ensures
        r as nat == sqrt_floor(n as nat),
        r * r <= n,
        n < (r + 1) * (r + 1),
        r <= 0x10_0000,
{
    let mut lo: u64 = 0;
    let mut hi: u64 = 0x10_0000;
    while lo + 1 < hi
        invariant
            lo < hi <= 0x10_0000,
            (lo as int) * (lo as int) <= n as int,
            (n as int) < (hi as int) * (hi as int),
        decreases hi - lo,
    {
        let mid = lo + (hi - lo) / 2;
        proof {
            assert(0 <= (mid as int) * (mid as int) <= 0x10_0000 * 0x10_0000) by (nonlinear_arith)
                requires
                    0 <= mid <= 0x10_0000,
            ;
        }
        if mid * mid <= n {
            lo = mid;
        } else {
            hi = mid;
        }
    }
    proof {
        lemma_sqrt_floor_unique(n as nat, lo as nat);
    }
    lo
}

/// The cellular field over given feature points: one minus the distance to the
/// nearest feature point, the distance capped at one, all in fixed point. High
/// near feature points, zero a full unit away or farther.
///
/// The feature points themselves are the one piece of the cellular noise that
/// lives outside this core: the renderer derives them from a sine-based hash
/// of the cell coordinates, and hands one per cell of the 3x3x3 neighborhood.
pub open spec fn cellular_noise_spec(x: int, y: int, z: int, fs: Seq<(i64, i64, i64)>) -> int {
    let d = sqrt_floor(min_dist_sq(x, y, z, fs) as nat) as int;
    if d > 65536 {
        0
    } else {
        65536 - d
    }
}

/// Worley-style cellular noise over the given feature points: keeps the
/// minimum distance across all of them and returns `SCALE - min(distance,
/// SCALE)`. Deterministic — exactly `cellular_noise_spec` — and within
/// `[0, SCALE]`.
pub fn cellular_noise(x: i64, y: i64, z: i64, features: &Vec<(i64, i64, i64)>) -> (r: i64)
    requires
        forall|k: int| 0 <= k < features@.len() ==> feature_near(x as int, y as int, z as int, #[trigger] features@[k]),
    ensures
        r == cellular_noise_spec(x as int, y as int, z as int, features@),
        0 <= r <= SCALE,
{
    let mut min_sq: i64 = FAR_DIST_SQ;
    let mut k: usize = 0;
    proof {
        assert(features@.skip(0) =~= features@);
        lemma_min_dist_sq_le_far(x as int, y as int, z as int, features@);
    }
    while k < features.len()
        invariant
            k <= features.len(),
            0 <= min_sq <= FAR_DIST_SQ,
            forall|j: int|
                0 <= j < features@.len() ==> feature_near(x as int, y as int, z as int, #[trigger] features@[j]),
            min_dist_sq(x as int, y as int, z as int, features@) == (if min_dist_sq(
                x as int,
                y as int,
                z as int,
                features@.skip(k as int),
            ) < min_sq {
                min_dist_sq(x as int, y as int, z as int, features@.skip(k as int))
            } else {
                min_sq as int
            }),
        decreases features.len() - k,
    {
        let f = features[k];
        proof {
            assert(feature_near(x as int, y as int, z as int, features@[k as int]));
            assert(0 <= (x - f.0) * (x - f.0) <= 262144 * 262144) by (nonlinear_arith)
                requires
                    -262144 <= x - f.0 <= 262144,
            ;
            assert(0 <= (y - f.1) * (y - f.1) <= 262144 * 262144) by (nonlinear_arith)
                requires
                    -262144 <= y - f.1 <= 262144,
            ;
            assert(0 <= (z - f.2) * (z - f.2) <= 262144 * 262144) by (nonlinear_arith)
                requires
                    -262144 <= z - f.2 <= 262144,
            ;
            assert(features@.skip(k as int)[0] == features@[k as int]);
            assert(features@.skip(k as int).drop_first() =~= features@.skip(k as int + 1));
            lemma_min_dist_sq_le_far(x as int, y as int, z as int, features@.skip(k as int + 1));
        }
        let dx = x - f.0;
        let dy = y - f.1;
        let dz = z - f.2;
        let d2 = dx * dx + dy * dy + dz * dz;
        if d2 < min_sq {
            min_sq = d2;
        }
        k = k + 1;
    }
    proof {
        assert(features@.skip(features@.len() as int) =~= Seq::<(i64, i64, i64)>::empty());
    }
    let dist = isqrt(min_sq as u64) as i64;
    proof {
        lemma_sqrt_floor(min_sq as nat);
    }
    if dist > SCALE {
        0
    } else {
        SCALE - dist
    }
}

/// Noise is deterministic: any two results of the lattice noise on identical
/// input coordinates are the same value, across repeated calls and across
/// runs — the field is a mathematical function of the coordinates alone.
pub proof fn lemma_noise_deterministic(x: int, y: int, z: int, r1: int, r2: int)
    requires
        r1 == lattice_noise_spec(x, y, z),
        r2 == lattice_noise_spec(x, y, z),
    ensures
        r1 == r2,
{
}

} // verus!
