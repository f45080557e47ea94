//! The resizer: rescale a grayscale grid to a target resolution with a
//! selectable resampling filter.
//!
//! All kernels run in fixed-point integer arithmetic. Sub-pixel positions
//! carry 8 fractional bits (one pixel = 256 units) and kernel weights are
//! scaled by 1024. Every kernel samples through the shared edge-clamp
//! helper, so no support radius can read outside the source grid.
//!
//! The smooth kernels are fixed-point approximations of the classical
//! ones: `Triangle` is the exact tent kernel, `CatmullRom` the exact
//! Catmull-Rom cubic up to fixed-point rounding, `Gaussian` a quartic
//! polynomial bell of support two, and `Lanczos3` a sinc-times-sinc kernel
//! of support three built from a rational polynomial sine approximation.

use vstd::prelude::*;

use crate::config::FilterType;
use crate::grid::GrayscaleGrid;
use crate::grid::GridModel;
use crate::grid::MAX_DIM;

verus! {

/// A bound on the magnitude of every kernel weight (weight scale 1024,
/// with headroom for the cubic's fixed-point overshoot).
pub const W_BOUND: i64 = 16384;

/// The tent kernel, support one: `1024 * max(0, 1 - a/256)`.
pub open spec fn spec_triangle_w(a: int) -> int {
    if a < 256 {
        (256 - a) * 4
    } else {
        0
    }
}

/// The Catmull-Rom cubic, support two, scale 1024, written as a
/// difference of two nonnegative fixed-point terms per segment.
pub open spec fn spec_catmull_w(a: int) -> int {
    if a < 256 {
        (33554432 + 3 * a * a * a) / 32768 - (1280 * a * a) / 32768
    } else if a < 512 {
        (67108864 + 1280 * a * a) / 32768 - (a * a * a + 524288 * a) / 32768
    } else {
        0
    }
}

/// A quartic polynomial bell of support two standing in for a Gaussian:
/// `1024 * ((512^2 - a^2) / 512^2)^2`.
pub open spec fn spec_gaussian_w(a: int) -> int {
    if a < 512 {
        let u = (262144 - a * a) / 256;
        (u * u) / 1024
    } else {
        0
    }
}

/// A rational approximation of `sin(pi * u / 256)`, scale 4096, for
/// `u` in `[0, 256]`.
pub open spec fn spec_sin256(u: int) -> int {
    (16 * u * (256 - u) * 4096) / (327680 - 4 * u * (256 - u))
}

/// A rational approximation of `sin(pi * a / 768)`, scale 4096, for
/// `a` in `[0, 768]`.
pub open spec fn spec_sin768(a: int) -> int {
    (16 * a * (768 - a) * 4096) / (2949120 - 4 * a * (768 - a))
}

/// The Lanczos-3 kernel, support three, scale 1024:
/// `3 * sin(pi t) * sin(pi t / 3) / (pi t)^2` with `t = a / 256`, via the
/// sine approximations above; the sign comes from the lobe index.
pub open spec fn spec_lanczos_w(a: int) -> int {
    if a == 0 {
        1024
    } else if a < 768 {
        let k = a / 256;
        let u = a % 256;
        let m = (spec_sin256(u) * spec_sin768(a) * 1216) / (a * a * 1000);
        if k == 1 {
            -m
        } else {
            m
        }
    } else {
        0
    }
}

/// The weight a filter assigns at fixed-point distance `a` from the
/// sample centre (`Nearest` has its own sampling path and a box weight
/// here).
pub open spec fn spec_kernel_w(f: FilterType, a: int) -> int {
    match f {
        FilterType::Nearest => if a < 128 {
            1024
        } else {
            0
        },
        FilterType::Triangle => spec_triangle_w(a),
        FilterType::CatmullRom => spec_catmull_w(a),
        FilterType::Gaussian => spec_gaussian_w(a),
        FilterType::Lanczos3 => spec_lanczos_w(a),
    }
}

/// The kernel weight, computed exactly as `spec_kernel_w` states it.
pub fn kernel_w(f: FilterType, a: i64) -> (r: i64)
    requires
        0 <= a <= 768,
    ensures
        r == spec_kernel_w(f, a as int),
        -W_BOUND <= r <= W_BOUND,
{
    match f {
        FilterType::Nearest => {
            if a < 128 {
                1024
            } else {
                0
            }
        },
        FilterType::Triangle => {
            if a < 256 {
                (256 - a) * 4
            } else {
                0
            }
        },
        FilterType::CatmullRom => {
            if a < 256 {
                let au = a as u64;
                proof {
                    assert(3 * au * au <= 196608 && 3 * au * au * au <= 50331648 && 1280 * au
                        * au <= 83886080) by (nonlinear_arith)
                        requires
                            0 <= au < 256,
                    ;
                }
                let p = (33554432 + 3 * au * au * au) / 32768;
                let q = (1280 * au * au) / 32768;
                (p as i64) - (q as i64)
            } else if a < 512 {
                let au = a as u64;
                proof {
                    assert(au * au <= 262144 && au * au * au <= 134217728 && 1280 * au * au
                        <= 335544320 && 524288 * au <= 268435456) by (nonlinear_arith)
                        requires
                            0 <= au < 512,
                    ;
                }
                let p = (67108864 + 1280 * au * au) / 32768;
                let q = (au * au * au + 524288 * au) / 32768;
                (p as i64) - (q as i64)
            } else {
                0
            }
        },
        FilterType::Gaussian => {
            if a < 512 {
                let au = a as u64;
                proof {
                    assert(au * au <= 262144) by (nonlinear_arith)
                        requires
                            0 <= au < 512,
                    ;
                }
                let u = (262144 - au * au) / 256;
                proof {
                    assert(u <= 1024);
                    assert(u * u <= 1048576) by (nonlinear_arith)
                        requires
                            0 <= u <= 1024,
                    ;
                }
                ((u * u) / 1024) as i64
            } else {
                0
            }
        },
        FilterType::Lanczos3 => {
            if a == 0 {
                1024
            } else if a < 768 {
                let au = a as u64;
                let k = au / 256;
                let u = au % 256;
                let s1 = sin256(u);
                let s2 = sin768(au);
                proof {
                    assert(s1 * s2 <= 16777216 && s1 * s2 * 1216 <= 20401094656 && au * au
                        <= 589824 && au * au * 1000 >= 1000) by (nonlinear_arith)
                        requires
                            0 <= s1 <= 4096,
                            0 <= s2 <= 4096,
                            1 <= au < 768,
                    ;
                    lanczos_magnitude_bound(au as int, u as int, s1 as int, s2 as int);
                }
                let m = ((s1 * s2 * 1216) / (au * au * 1000)) as i64;
                if k == 1 {
                    -m
                } else {
                    m
                }
            } else {
                0
            }
        },
    }
}

/// The sine approximation over a quarter of the kernel support.
fn sin256(u: u64) -> (r: u64)
    requires
        u <= 256,
    ensures
        r == spec_sin256(u as int),
        r <= 4096,
{
    proof {
        assert(4 * u * (256 - u) <= 65536 && 16 * u * (256 - u) <= 1048576 && 16 * u * (256 - u)
            * 4096 <= 4096 * (327680 - 4 * u * (256 - u)) && 0 <= 16 * u * (256 - u) * 4096)
            by (nonlinear_arith)
            requires
                0 <= u <= 256,
        ;
        div_le_const(
            16 * (u as int) * (256 - u as int) * 4096,
            327680 - 4 * (u as int) * (256 - u as int),
            4096,
        );
    }
    (16 * u * (256 - u) * 4096) / (327680 - 4 * u * (256 - u))
}

/// The sine approximation over the full kernel support.
fn sin768(a: u64) -> (r: u64)
    requires
        a <= 768,
    ensures
        r == spec_sin768(a as int),
        r <= 4096,
{
    proof {
        assert(4 * a * (768 - a) <= 589824 && 16 * a * (768 - a) <= 9437184 && 16 * a * (768 - a)
            * 4096 <= 4096 * (2949120 - 4 * a * (768 - a)) && 0 <= 16 * a * (768 - a) * 4096)
            by (nonlinear_arith)
            requires
                0 <= a <= 768,
        ;
        div_le_const(
            16 * (a as int) * (768 - a as int) * 4096,
            2949120 - 4 * (a as int) * (768 - a as int),
            4096,
        );
    }
    (16 * a * (768 - a) * 4096) / (2949120 - 4 * a * (768 - a))
}

/// The Lanczos magnitude term stays below the weight bound: near the
/// centre both sine factors shrink linearly with the distance, and away
/// from it the squared distance in the denominator dominates.
proof fn lanczos_magnitude_bound(a: int, u: int, s1: int, s2: int)
    requires
        1 <= a < 768,
        u == a % 256,
        s1 == spec_sin256(u),
        s2 == spec_sin768(a),
    ensures
        0 <= (s1 * s2 * 1216) / (a * a * 1000) <= W_BOUND,
        a * a * 1000 >= 1,
        s1 * s2 * 1216 >= 0,
{
    assert(0 <= u <= 256);
    assert(s1 >= 0 && s2 >= 0) by {
        assert(16 * u * (256 - u) * 4096 >= 0 && 327680 - 4 * u * (256 - u) >= 262144 && 16 * a * (
        768 - a) * 4096 >= 0 && 2949120 - 4 * a * (768 - a) >= 2359296) by (nonlinear_arith)
            requires
                0 <= u <= 256,
                1 <= a < 768,
        ;
    }
    assert(s1 <= 64 * u) by {
        assert(16 * u * (256 - u) * 4096 <= 64 * u * (327680 - 4 * u * (256 - u)) && 327680 - 4 * u
            * (256 - u) >= 262144 && 16 * u * (256 - u) * 4096 >= 0) by (nonlinear_arith)
            requires
                0 <= u <= 256,
        ;
        div_le_const(16 * u * (256 - u) * 4096, 327680 - 4 * u * (256 - u), 64 * u);
    }
    assert(s2 <= 22 * a) by {
        assert(16 * a * (768 - a) * 4096 <= 22 * a * (2949120 - 4 * a * (768 - a)) && 2949120 - 4
            * a * (768 - a) >= 2359296 && 16 * a * (768 - a) * 4096 >= 0) by (nonlinear_arith)
            requires
                0 <= a <= 768,
        ;
        div_le_const(16 * a * (768 - a) * 4096, 2949120 - 4 * a * (768 - a), 22 * a);
    }
    assert(s1 <= 4096 && s2 <= 4096) by {
        assert(16 * u * (256 - u) * 4096 <= 4096 * (327680 - 4 * u * (256 - u)) && 16 * a * (768
            - a) * 4096 <= 4096 * (2949120 - 4 * a * (768 - a)) && 327680 - 4 * u * (256 - u)
            >= 262144 && 2949120 - 4 * a * (768 - a) >= 2359296 && 16 * u * (256 - u) * 4096 >= 0
            && 16 * a * (768 - a) * 4096 >= 0) by (nonlinear_arith)
            requires
                0 <= u <= 256,
                0 <= a <= 768,
        ;
        div_le_const(16 * u * (256 - u) * 4096, 327680 - 4 * u * (256 - u), 4096);
        div_le_const(16 * a * (768 - a) * 4096, 2949120 - 4 * a * (768 - a), 4096);
    }
    assert(a * a * 1000 >= 1 && s1 * s2 * 1216 >= 0) by (nonlinear_arith)
        requires
            1 <= a,
            0 <= s1,
            0 <= s2,
    ;
    if a < 256 {
        assert(u == a);
        assert(s1 * s2 * 1216 <= (64 * a) * (22 * a) * 1216) by (nonlinear_arith)
            requires
                0 <= s1 <= 64 * a,
                0 <= s2 <= 22 * a,
        ;
        assert(s1 * s2 * 1216 <= 1713 * (a * a * 1000)) by (nonlinear_arith)
            requires
                s1 * s2 * 1216 <= (64 * a) * (22 * a) * 1216,
                1 <= a,
        ;
        div_le_const(s1 * s2 * 1216, a * a * 1000, 1713);
    } else {
        assert(a * a >= 65536) by (nonlinear_arith)
            requires
                a >= 256,
        ;
        assert(s1 * s2 * 1216 <= 320 * (a * a * 1000)) by (nonlinear_arith)
            requires
                0 <= s1 <= 4096,
                0 <= s2 <= 4096,
                a * a >= 65536,
        ;
        div_le_const(s1 * s2 * 1216, a * a * 1000, 320);
    }
    vstd::arithmetic::div_mod::lemma_div_pos_is_pos(s1 * s2 * 1216, a * a * 1000);
}

/// A quotient of nonnegative values is at most any `c` whose product with
/// the divisor reaches the dividend.
proof fn div_le_const(num: int, den: int, c: int)
    requires
        0 <= num,
        1 <= den,
        0 <= c,
        num <= c * den,
    ensures
        num / den <= c,
{
    vstd::arithmetic::div_mod::lemma_div_is_ordered(num, c * den, den);
    vstd::arithmetic::div_mod::lemma_div_by_multiple(c, den);
}

/// The fixed-point source centre (shifted up by one pixel so it is
/// nonnegative) for output index `o` when mapping `t` target samples onto
/// `s` source samples: `(o + 1/2) * s / t + 1/2` in 8-bit sub-pixel units,
/// plus 256.
pub open spec fn spec_axis_center(o: int, s: int, t: int) -> int {
    (2 * o + 1) * s * 128 / t + 128
}

/// One axis of the shifted centre, as `spec_axis_center` states it.
fn axis_center(o: usize, s: usize, t: usize) -> (cs: u64)
    requires
        o < t,
        1 <= t <= MAX_DIM,
        1 <= s <= MAX_DIM,
    ensures
        cs == spec_axis_center(o as int, s as int, t as int),
        128 <= cs <= 0x2_0000_0000,
{
    proof {
        let oi = o as int;
        let si = s as int;
        let ti = t as int;
        assert((2 * oi + 1) * si <= 33550336 && 0 <= (2 * oi + 1) * si) by (nonlinear_arith)
            requires
                0 <= oi < ti,
                1 <= si <= MAX_DIM as int,
                ti <= MAX_DIM as int,
        ;
        vstd::arithmetic::div_mod::lemma_div_pos_is_pos((2 * oi + 1) * si * 128, ti);
        vstd::arithmetic::div_mod::lemma_div_nonincreasing((2 * oi + 1) * si * 128, ti);
    }
    (2 * (o as u64) + 1) * (s as u64) * 128 / (t as u64) + 128
}

/// The weighted sum a row of six clamped taps contributes, starting at
/// column `bx - 3` of row `y`.
pub open spec fn spec_row6(
    m: GridModel,
    bx: int,
    y: int,
    w0: int,
    w1: int,
    w2: int,
    w3: int,
    w4: int,
    w5: int,
) -> int {
    w0 * m.at_clamped(bx - 3, y) + w1 * m.at_clamped(bx - 2, y) + w2 * m.at_clamped(bx - 1, y) + w3
        * m.at_clamped(bx, y) + w4 * m.at_clamped(bx + 1, y) + w5 * m.at_clamped(bx + 2, y)
}

/// A kernel weight times a sample.
fn wmul(w: i64, s: u8) -> (r: i64)
    requires
        -W_BOUND <= w <= W_BOUND,
    ensures
        r == w * (s as int),
        -4177920 <= r <= 4177920,
{
    proof {
        assert(-4177920 <= (w as int) * (s as int) <= 4177920) by (nonlinear_arith)
            requires
                -16384 <= w as int <= 16384,
                0 <= s as int <= 255,
        ;
    }
    w * (s as i64)
}

/// One row of the six-by-six convolution window.
fn row6(
    g: &GrayscaleGrid,
    bx: i64,
    y: i64,
    w0: i64,
    w1: i64,
    w2: i64,
    w3: i64,
    w4: i64,
    w5: i64,
) -> (r: i64)
    requires
        g.wf(),
        -0x1_0000_0000 <= bx <= 0x1_0000_0000,
        -0x1_0000_0000 <= y <= 0x1_0000_0000,
        -W_BOUND <= w0 <= W_BOUND,
        -W_BOUND <= w1 <= W_BOUND,
        -W_BOUND <= w2 <= W_BOUND,
        -W_BOUND <= w3 <= W_BOUND,
        -W_BOUND <= w4 <= W_BOUND,
        -W_BOUND <= w5 <= W_BOUND,
    ensures
        r == spec_row6(
            g@,
            bx as int,
            y as int,
            w0 as int,
            w1 as int,
            w2 as int,
            w3 as int,
            w4 as int,
            w5 as int,
        ),
        -25067520 <= r <= 25067520,
{
    let t0 = wmul(w0, g.at_clamped(bx - 3, y));
    let t1 = wmul(w1, g.at_clamped(bx - 2, y));
    let t2 = wmul(w2, g.at_clamped(bx - 1, y));
    let t3 = wmul(w3, g.at_clamped(bx, y));
    let t4 = wmul(w4, g.at_clamped(bx + 1, y));
    let t5 = wmul(w5, g.at_clamped(bx + 2, y));
    t0 + t1 + t2 + t3 + t4 + t5
}

/// A row weight times a row sum.
fn wmul_row(w: i64, v: i64) -> (r: i64)
    requires
        -W_BOUND <= w <= W_BOUND,
        -25067520 <= v <= 25067520,
    ensures
        r == w * v,
        -410706247680 <= r <= 410706247680,
{
    proof {
        assert(-410706247680 <= (w as int) * (v as int) <= 410706247680) by (nonlinear_arith)
            requires
                -16384 <= w as int <= 16384,
                -25067520 <= v as int <= 25067520,
        ;
    }
    w * v
}

/// The product of the two axis weight sums.
fn mul_ds(x: i64, y: i64) -> (r: i64)
    requires
        -98304 <= x <= 98304,
        -98304 <= y <= 98304,
    ensures
        r == x * y,
        -9663676416 <= r <= 9663676416,
{
    proof {
        assert(-9663676416 <= (x as int) * (y as int) <= 9663676416) by (nonlinear_arith)
            requires
                -98304 <= x as int <= 98304,
                -98304 <= y as int <= 98304,
        ;
    }
    x * y
}

/// The convolved sample a smooth filter produces at output position
/// `(ox, oy)`: a six-tap separable window around the source centre,
/// normalized by the product of the axis weight sums, clamped to the
/// sample range. A non-positive weight sum (possible in principle for a
/// kernel with negative lobes) falls back to the floor sample.
pub open spec fn spec_conv_at(
    m: GridModel,
    f: FilterType,
    tw: int,
    th: int,
    ox: int,
    oy: int,
) -> u8 {
    let csx = spec_axis_center(ox, m.width, tw);
    let csy = spec_axis_center(oy, m.height, th);
    let bx = csx / 256;
    let fx = csx % 256;
    let by = csy / 256;
    let fy = csy % 256;
    let wx0 = spec_kernel_w(f, 512 + fx);
    let wx1 = spec_kernel_w(f, 256 + fx);
    let wx2 = spec_kernel_w(f, fx);
    let wx3 = spec_kernel_w(f, 256 - fx);
    let wx4 = spec_kernel_w(f, 512 - fx);
    let wx5 = spec_kernel_w(f, 768 - fx);
    let wy0 = spec_kernel_w(f, 512 + fy);
    let wy1 = spec_kernel_w(f, 256 + fy);
    let wy2 = spec_kernel_w(f, fy);
    let wy3 = spec_kernel_w(f, 256 - fy);
    let wy4 = spec_kernel_w(f, 512 - fy);
    let wy5 = spec_kernel_w(f, 768 - fy);
    let dsum = (wx0 + wx1 + wx2 + wx3 + wx4 + wx5) * (wy0 + wy1 + wy2 + wy3 + wy4 + wy5);
    if dsum <= 0 {
        m.at_clamped(bx - 1, by - 1)
    } else {
        let r0 = spec_row6(m, bx, by - 3, wx0, wx1, wx2, wx3, wx4, wx5);
        let r1 = spec_row6(m, bx, by - 2, wx0, wx1, wx2, wx3, wx4, wx5);
        let r2 = spec_row6(m, bx, by - 1, wx0, wx1, wx2, wx3, wx4, wx5);
        let r3 = spec_row6(m, bx, by, wx0, wx1, wx2, wx3, wx4, wx5);
        let r4 = spec_row6(m, bx, by + 1, wx0, wx1, wx2, wx3, wx4, wx5);
        let r5 = spec_row6(m, bx, by + 2, wx0, wx1, wx2, wx3, wx4, wx5);
        let num = wy0 * r0 + wy1 * r1 + wy2 * r2 + wy3 * r3 + wy4 * r4 + wy5 * r5;
        if num <= 0 {
            0
        } else {
            let q = num / dsum;
            if q > 255 {
                255
            } else {
                q as u8
            }
        }
    }
}

/// The convolved sample, computed exactly as `spec_conv_at` states it.
#[verifier::rlimit(100)]
fn conv_pixel(g: &GrayscaleGrid, tw: usize, th: usize, f: FilterType, ox: usize, oy: usize) -> (r:
    u8)
    requires
        g.wf(),
        1 <= tw <= MAX_DIM,
        1 <= th <= MAX_DIM,
        ox < tw,
        oy < th,
    ensures
        r == spec_conv_at(g@, f, tw as int, th as int, ox as int, oy as int),
{
    let csx = axis_center(ox, g.width, tw);
    let csy = axis_center(oy, g.height, th);
    let bx = (csx / 256) as i64;
    let fx = (csx % 256) as i64;
    let by = (csy / 256) as i64;
    let fy = (csy % 256) as i64;
    let wx0 = kernel_w(f, 512 + fx);
    let wx1 = kernel_w(f, 256 + fx);
    let wx2 = kernel_w(f, fx);
    let wx3 = kernel_w(f, 256 - fx);
    let wx4 = kernel_w(f, 512 - fx);
    let wx5 = kernel_w(f, 768 - fx);
    let wy0 = kernel_w(f, 512 + fy);
    let wy1 = kernel_w(f, 256 + fy);
    let wy2 = kernel_w(f, fy);
    let wy3 = kernel_w(f, 256 - fy);
    let wy4 = kernel_w(f, 512 - fy);
    let wy5 = kernel_w(f, 768 - fy);
    let dsum = mul_ds(wx0 + wx1 + wx2 + wx3 + wx4 + wx5, wy0 + wy1 + wy2 + wy3 + wy4 + wy5);
    if dsum <= 0 {
        g.at_clamped(bx - 1, by - 1)
    } else {
        let r0 = row6(g, bx, by - 3, wx0, wx1, wx2, wx3, wx4, wx5);
        let r1 = row6(g, bx, by - 2, wx0, wx1, wx2, wx3, wx4, wx5);
        let r2 = row6(g, bx, by - 1, wx0, wx1, wx2, wx3, wx4, wx5);
        let r3 = row6(g, bx, by, wx0, wx1, wx2, wx3, wx4, wx5);
        let r4 = row6(g, bx, by + 1, wx0, wx1, wx2, wx3, wx4, wx5);
        let r5 = row6(g, bx, by + 2, wx0, wx1, wx2, wx3, wx4, wx5);
        let num = wmul_row(wy0, r0) + wmul_row(wy1, r1) + wmul_row(wy2, r2) + wmul_row(wy3, r3)
            + wmul_row(wy4, r4) + wmul_row(wy5, r5);
        if num <= 0 {
            0
        } else {
            let q = (num as u64) / (dsum as u64);
            if q > 255 {
                255
            } else {
                q as u8
            }
        }
    }
}

/// The sample the resizer produces at output position `(ox, oy)`:
/// `Nearest` point-samples the floor-mapped source pixel, every other
/// filter convolves the six-tap window.
pub open spec fn spec_pixel(
    m: GridModel,
    f: FilterType,
    tw: int,
    th: int,
    ox: int,
    oy: int,
) -> u8 {
    if f == FilterType::Nearest {
        m.at(ox * m.width / tw, oy * m.height / th)
    } else {
        spec_conv_at(m, f, tw, th, ox, oy)
    }
}

/// The resized grid: target dimensions, each sample given by
/// `spec_pixel` in row-major order.
pub open spec fn spec_resize(m: GridModel, tw: int, th: int, f: FilterType) -> GridModel {
    GridModel {
        width: tw,
        height: th,
        data: Seq::new((tw * th) as nat, |i: int| spec_pixel(m, f, tw, th, i % tw, i / tw)),
    }
}

/// One output sample.
fn pixel(g: &GrayscaleGrid, tw: usize, th: usize, f: FilterType, ox: usize, oy: usize) -> (r: u8)
    requires
        g.wf(),
        1 <= tw <= MAX_DIM,
        1 <= th <= MAX_DIM,
        ox < tw,
        oy < th,
    ensures
        r == spec_pixel(g@, f, tw as int, th as int, ox as int, oy as int),
{
    match f {
        FilterType::Nearest => {
            proof {
                let oxi = ox as int;
                let oyi = oy as int;
                let w = g@.width;
                let h = g@.height;
                assert(oxi * w < tw as int * w && oxi * w <= 16777216 && 0 <= oxi * w)
                    by (nonlinear_arith)
                    requires
                        0 <= oxi < tw as int,
                        1 <= w <= 4096,
                        tw as int <= 4096,
                ;
                assert(oyi * h < th as int * h && oyi * h <= 16777216 && 0 <= oyi * h)
                    by (nonlinear_arith)
                    requires
                        0 <= oyi < th as int,
                        1 <= h <= 4096,
                        th as int <= 4096,
                ;
                vstd::arithmetic::div_mod::lemma_multiply_divide_lt(oxi * w, tw as int, w);
                vstd::arithmetic::div_mod::lemma_multiply_divide_lt(oyi * h, th as int, h);
                vstd::arithmetic::div_mod::lemma_div_pos_is_pos(oxi * w, tw as int);
                vstd::arithmetic::div_mod::lemma_div_pos_is_pos(oyi * h, th as int);
            }
            let sx = ox * g.width / tw;
            let sy = oy * g.height / th;
            g.at(sx, sy)
        },
        _ => conv_pixel(g, tw, th, f, ox, oy),
    }
}

/// Rescale a grid to `tw` by `th` samples with the given filter. The
/// result has exactly the target dimensions, and every sample is the one
/// the resampling specification assigns to its position; sampling is
/// edge-clamped throughout, so degenerate aspect ratios never read
/// outside the source.
pub fn resize(g: &GrayscaleGrid, tw: usize, th: usize, f: FilterType) -> (r: GrayscaleGrid)
    requires
        g.wf(),
        1 <= tw <= MAX_DIM,
        1 <= th <= MAX_DIM,
    ensures
        r.wf(),
        r@ == spec_resize(g@, tw as int, th as int, f),
{
    let mut data: Vec<u8> = Vec::new();
    let mut oy: usize = 0;
    proof {
        assert(tw as int * th as int <= 16777216 && (tw * th) as int == tw as int * th as int)
            by (nonlinear_arith)
            requires
                1 <= tw as int <= 4096,
                1 <= th as int <= 4096,
        ;
    }
    while oy < th
        invariant
            oy <= th,
            data@.len() == oy * tw,
            forall|k: int|
                0 <= k < data@.len() ==> data@[k] == spec_pixel(
                    g@,
                    f,
                    tw as int,
                    th as int,
                    k % tw as int,
                    k / tw as int,
                ),
        decreases th - oy,
    {
        let mut ox: usize = 0;
        proof {
            assert((oy + 1) * tw as int == oy * tw + tw && (oy + 1) * tw <= th * tw)
                by (nonlinear_arith)
                requires
                    0 <= (oy as int) < th as int,
                    1 <= tw as int,
            ;
            assert(th as int * tw as int <= 16777216) by (nonlinear_arith)
                requires
                    th as int <= 4096,
                    tw as int <= 4096,
            ;
        }
        while ox < tw
            invariant
                ox <= tw,
                oy < th,
                data@.len() == oy * tw + ox,
                forall|k: int|
                    0 <= k < data@.len() ==> data@[k] == spec_pixel(
                        g@,
                        f,
                        tw as int,
                        th as int,
                        k % tw as int,
                        k / tw as int,
                    ),
            decreases tw - ox,
        {
            let v = pixel(g, tw, th, f, ox, oy);
            proof {
                vstd::arithmetic::div_mod::lemma_fundamental_div_mod_converse_mod(
                    oy * tw + ox,
                    tw as int,
                    oy as int,
                    ox as int,
                );
                vstd::arithmetic::div_mod::lemma_fundamental_div_mod_converse_div(
                    oy * tw + ox,
                    tw as int,
                    oy as int,
                    ox as int,
                );
                assert((oy * tw + ox) % tw as int == ox as int);
                assert((oy * tw + ox) / tw as int == oy as int);
            }
            data.push(v);
            ox = ox + 1;
        }
        oy = oy + 1;
    }
    proof {
        assert(data@ =~= spec_resize(g@, tw as int, th as int, f).data);
    }
    GrayscaleGrid { width: tw, height: th, data }
}

/// Resizing a grid to its own dimensions with the nearest filter returns
/// every sample unchanged, so that round trip preserves the grid (and in
/// particular its mean intensity) exactly; the smooth kernels preserve
/// the mean only approximately.
pub proof fn lemma_nearest_identity(m: GridModel)
    requires
        m.wf(),
    ensures
        spec_resize(m, m.width, m.height, FilterType::Nearest).data =~= m.data,
{
    let w = m.width;
    let h = m.height;
    let r = spec_resize(m, w, h, FilterType::Nearest);
    assert forall|i: int| 0 <= i < w * h implies r.data[i] == m.data[i] by {
        let ox = i % w;
        let oy = i / w;
        vstd::arithmetic::div_mod::lemma_mod_division_less_than_divisor(i, w);
        vstd::arithmetic::div_mod::lemma_div_pos_is_pos(i, w);
        assert(w * h == h * w) by (nonlinear_arith);
        vstd::arithmetic::div_mod::lemma_multiply_divide_lt(i, w, h);
        vstd::arithmetic::div_mod::lemma_div_by_multiple(ox, w);
        vstd::arithmetic::div_mod::lemma_div_by_multiple(oy, h);
        vstd::arithmetic::div_mod::lemma_fundamental_div_mod(i, w);
        assert(oy * w == w * oy) by (nonlinear_arith);
        assert(r.data[i] == m.at(ox * w / w, oy * h / h));
        assert(ox * w / w == ox && oy * h / h == oy);
        assert(m.at(ox, oy) == m.data[oy * w + ox]);
    }
}

} // verus!
