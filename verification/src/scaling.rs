//! The ratio engine: pure functions that pick whole-number scale factors
//! for fitting an image into a display area.
//!
//! A pixel aspect ratio is given as a pair of positive integers
//! `(aspectX, aspectY)` standing for the exact rational `aspectX / aspectY`;
//! `(1, 1)` means square pixels. Every comparison of aspect ratios is done
//! by cross-multiplication, so all arithmetic is exact.
use vstd::prelude::*;
use vstd::arithmetic::div_mod::lemma_fundamental_div_mod;
use vstd::arithmetic::div_mod::lemma_div_is_ordered;
use vstd::arithmetic::div_mod::lemma_div_pos_is_pos;
use vstd::arithmetic::div_mod::lemma_multiply_divide_lt;
use vstd::arithmetic::div_mod::lemma_div_by_self;

verus! {

/// Integer scale factors for the horizontal (`x`) and vertical (`y`) axes.
/// Both are always at least 1.
#[derive(Clone, Copy, PartialEq, Eq, Structural, Debug)]
pub struct Ratios {
    pub x: u32,
    pub y: u32,
}

/// Width and height of a scaled image, in pixels.
#[derive(Clone, Copy, PartialEq, Eq, Structural, Debug)]
pub struct Size {
    pub width: u32,
    pub height: u32,
}

/// Absolute difference of two integers.
pub open spec fn dist(a: int, b: int) -> int {
    if a >= b {
        a - b
    } else {
        b - a
    }
}

/// Clamps a ratio to the floor of 1: no scale factor is ever below 1,
/// even when the image does not fit the area at all.
pub open spec fn at_least_one(r: int) -> int {
    if r < 1 {
        1
    } else {
        r
    }
}

/// The uniform (square-pixel) integer scaling ratio: the binding axis is
/// found by cross-multiplication, the ratio is the floor division of that
/// axis's area dimension by its image dimension, clamped to at least 1.
pub open spec fn spec_ratio(aw: int, ah: int, iw: int, ih: int) -> int {
    if ah * iw < aw * ih {
        at_least_one(ah / ih)
    } else {
        at_least_one(aw / iw)
    }
}

/// Picks the scaling ratio of the solved axis in the aspect-corrected
/// search of `spec_ratios`.
///
/// `a` is the integral ratio already fixed for the binding axis, and
/// `l / k` is the exact fractional ratio of the other axis that would make
/// the scaled image hit the target pixel aspect ratio. Its floor `bf` and
/// ceiling `bc` are the candidates. Each candidate `b` implies an aspect
/// error: the absolute deviation from 1 of the target aspect ratio
/// multiplied by the candidate's implied pixel-aspect contribution. As an
/// exact rational that error is `dist(l, k * b) / (k * b)` when the binding
/// axis is horizontal (`less`), and `dist(l, k * b) / l` otherwise; the
/// comparisons below are those rational comparisons cross-multiplied into
/// integers (the shared positive factors already cancelled). The candidate
/// with the smaller error wins, except that on a near tie (the errors
/// differ by less than 1/1000) the candidate numerically closer to `a`
/// wins, to avoid extreme skew from a poor rounding direction.
///
/// A floor candidate of 0 on the horizontal-binding side would scale the
/// solved axis to nothing and has unbounded relative error, so the ceiling
/// (which is 1) wins outright there.
pub open spec fn spec_ratio_b(a: int, l: int, k: int, less: bool) -> int {
    let bf = l / k;
    let rem = l % k;
    if rem == 0 {
        bf
    } else {
        let bc = bf + 1;
        let nf = dist(l, k * bf);
        let nc = dist(l, k * bc);
        if less && bf == 0 {
            bc
        } else {
            let tie = if less {
                1000 * dist(nf * bc, nc * bf) < k * bf * bc
            } else {
                1000 * dist(nf, nc) < l
            };
            if tie {
                if dist(a, bf) < dist(a, bc) {
                    bf
                } else {
                    bc
                }
            } else {
                let floor_better = if less {
                    nf * bc < nc * bf
                } else {
                    nf < nc
                };
                if floor_better {
                    bf
                } else {
                    bc
                }
            }
        }
    }
}

/// The aspect-corrected ratio pair `(x, y)`, as unbounded integers.
///
/// When the image's native aspect already matches the target (checked by
/// cross-multiplication), the uniform ratio applies to both axes. Otherwise
/// the per-axis maxima are computed; if they already satisfy the target
/// aspect exactly they are returned, and otherwise the axis whose maximum
/// undershoots the target is fixed there while the other axis is solved by
/// `spec_ratio_b`. Both results are clamped to at least 1.
pub open spec fn spec_ratios(aw: int, ah: int, iw: int, ih: int, ax: int, ay: int) -> (int, int) {
    if iw * ay == ih * ax {
        let r = spec_ratio(aw, ah, iw, ih);
        (r, r)
    } else {
        let mx = aw / iw;
        let my = ah / ih;
        let mw = iw * mx;
        let mh = ih * my;
        if mw * ay == mh * ax {
            (at_least_one(mx), at_least_one(my))
        } else if mw * ay < mh * ax {
            (at_least_one(mx), at_least_one(spec_ratio_b(mx, mw * ay, ax * ih, true)))
        } else {
            (at_least_one(spec_ratio_b(my, mh * ax, ay * iw, false)), at_least_one(my))
        }
    }
}

/// The product of two values bounded by `u32::MAX` stays within `u64`,
/// and a product of positive factors is positive.
proof fn lemma_u32_mul_fits(a: int, b: int)
    by (nonlinear_arith)
    requires
        0 <= a <= u32::MAX as int,
        0 <= b <= u32::MAX as int,
    ensures
        0 <= a * b <= (u32::MAX as int) * (u32::MAX as int),
        a >= 1 && b >= 1 ==> a * b >= 1,
{
}

/// Floor division leaves a product no larger than the dividend.
proof fn lemma_div_floor_bound(x: int, d: int)
    requires
        0 <= x,
        1 <= d,
    ensures
        0 <= x / d,
        d * (x / d) <= x,
{
    lemma_fundamental_div_mod(x, d);
    lemma_div_pos_is_pos(x, d);
}

/// Calculates an integer scaling ratio common for X/Y axes (square pixels).
pub fn calculateRatio(areaWidth: u32, areaHeight: u32, imageWidth: u32, imageHeight: u32) -> (ratio: u32)
    requires
        areaWidth >= 1,
        areaHeight >= 1,
        imageWidth >= 1,
        imageHeight >= 1,
    ensures
        ratio as int == spec_ratio(areaWidth as int, areaHeight as int, imageWidth as int, imageHeight as int),
        ratio >= 1,
{
    proof {
        lemma_u32_mul_fits(areaHeight as int, imageWidth as int);
        lemma_u32_mul_fits(areaWidth as int, imageHeight as int);
    }
    let areaSize: u32;
    let imageSize: u32;
    if (areaHeight as u64) * (imageWidth as u64) < (areaWidth as u64) * (imageHeight as u64) {
        areaSize = areaHeight;
        imageSize = imageHeight;
    } else {
        areaSize = areaWidth;
        imageSize = imageWidth;
    }
    let mut ratio: u32 = areaSize / imageSize;
    if ratio < 1 {
        ratio = 1;
    }
    ratio
}

/// Calculates integer scaling ratios potentially different for X/Y axes
/// as a result of aspect-ratio correction (rectangular pixels).
///
/// `aspectX / aspectY` is the target pixel aspect ratio, as an exact
/// rational; only the quotient matters, not the particular pair.
pub fn calculateRatios(
    areaWidth: u32,
    areaHeight: u32,
    imageWidth: u32,
    imageHeight: u32,
    aspectX: u32,
    aspectY: u32,
) -> (r: Ratios)
    requires
        areaWidth >= 1,
        areaHeight >= 1,
        imageWidth >= 1,
        imageHeight >= 1,
        aspectX >= 1,
        aspectY >= 1,
    ensures
        r.x as int == spec_ratios(areaWidth as int, areaHeight as int, imageWidth as int,
            imageHeight as int, aspectX as int, aspectY as int).0,
        r.y as int == spec_ratios(areaWidth as int, areaHeight as int, imageWidth as int,
            imageHeight as int, aspectX as int, aspectY as int).1,
        r.x >= 1,
        r.y >= 1,
{
    let ghost gaw: int = areaWidth as int;
    let ghost gah: int = areaHeight as int;
    let ghost giw: int = imageWidth as int;
    let ghost gih: int = imageHeight as int;
    let ghost gax: int = aspectX as int;
    let ghost gay: int = aspectY as int;
    proof {
        lemma_u32_mul_fits(giw, gay);
        lemma_u32_mul_fits(gih, gax);
    }
    if (imageWidth as u64) * (aspectY as u64) == (imageHeight as u64) * (aspectX as u64) {
        let ratio = calculateRatio(areaWidth, areaHeight, imageWidth, imageHeight);
        return Ratios { x: ratio, y: ratio };
    }
    let maxRatioX: u32 = areaWidth / imageWidth;
    let maxRatioY: u32 = areaHeight / imageHeight;
    proof {
        lemma_div_floor_bound(gaw, giw);
        lemma_div_floor_bound(gah, gih);
    }
    let maxWidth: u32 = imageWidth * maxRatioX;
    let maxHeight: u32 = imageHeight * maxRatioY;
    proof {
        lemma_u32_mul_fits(maxWidth as int, gay);
        lemma_u32_mul_fits(maxHeight as int, gax);
    }
    let mwAy: u64 = (maxWidth as u64) * (aspectY as u64);
    let mhAx: u64 = (maxHeight as u64) * (aspectX as u64);
    let ghost gmx: int = maxRatioX as int;
    let ghost gmy: int = maxRatioY as int;
    let mut ratioX: u32;
    let mut ratioY: u32;
    if mwAy == mhAx {
        ratioX = maxRatioX;
        ratioY = maxRatioY;
    } else {
        let less: bool = mwAy < mhAx;
        let ratioA: u32 = if less {
            maxRatioX
        } else {
            maxRatioY
        };
        let l: u64 = if less {
            mwAy
        } else {
            mhAx
        };
        proof {
            lemma_u32_mul_fits(gax, gih);
            lemma_u32_mul_fits(gay, giw);
        }
        let k: u64 = if less {
            (aspectX as u64) * (imageHeight as u64)
        } else {
            (aspectY as u64) * (imageWidth as u64)
        };
        // `limit` is the maximum ratio of the solved axis: the solved
        // candidates never reach it, which keeps them within `u32`.
        let ghost limit: int = if less {
            gmy
        } else {
            gmx
        };
        let ghost gl: int = l as int;
        let ghost gk: int = k as int;
        proof {
            if less {
                assert(mhAx as int == gk * gmy) by (nonlinear_arith)
                    requires
                        mhAx as int == (gih * gmy) * gax,
                        gk == gax * gih,
                {
                }
            } else {
                assert(mwAy as int == gk * gmx) by (nonlinear_arith)
                    requires
                        mwAy as int == (giw * gmx) * gay,
                        gk == gay * giw,
                {
                }
            }
            assert(gl < gk * limit);
            lemma_multiply_divide_lt(gl, gk, limit);
            lemma_fundamental_div_mod(gl, gk);
            assert(limit <= u32::MAX as int);
        }
        let bf: u64 = l / k;
        let rem: u64 = l % k;
        let ghost gbf: int = gl / gk;
        let ratioB: u32;
        if rem == 0 {
            ratioB = bf as u32;
            proof {
                assert(ratioB as int == spec_ratio_b(ratioA as int, gl, gk, less));
            }
        } else {
            let bc: u64 = bf + 1;
            let nf: u64 = rem;
            let nc: u64 = k - rem;
            proof {
                assert(gk * (gbf + 1) == gk * gbf + gk) by (nonlinear_arith);
                assert(dist(gl, gk * gbf) == nf as int);
                assert(dist(gl, gk * (gbf + 1)) == nc as int);
            }
            if less && bf == 0 {
                ratioB = bc as u32;
                proof {
                    assert(ratioB as int == spec_ratio_b(ratioA as int, gl, gk, less));
                }
            } else {
                let tie: bool;
                let floor_better: bool;
                if less {
                    proof {
                        lemma_solved_axis_products_fit(nf as int, nc as int, bf as int,
                            bc as int, gk);
                    }
                    let x: u128 = (nf as u128) * (bc as u128);
                    let y: u128 = (nc as u128) * (bf as u128);
                    let d: u128 = if x >= y {
                        x - y
                    } else {
                        y - x
                    };
                    tie = 1000 * d < (k as u128) * (bf as u128) * (bc as u128);
                    floor_better = x < y;
                } else {
                    let d: u64 = if nf >= nc {
                        nf - nc
                    } else {
                        nc - nf
                    };
                    tie = 1000 * (d as u128) < (l as u128);
                    floor_better = nf < nc;
                }
                if tie {
                    let ra: u64 = ratioA as u64;
                    let df: u64 = if ra >= bf {
                        ra - bf
                    } else {
                        bf - ra
                    };
                    let dc: u64 = if ra >= bc {
                        ra - bc
                    } else {
                        bc - ra
                    };
                    ratioB = if df < dc {
                        bf as u32
                    } else {
                        bc as u32
                    };
                } else {
                    ratioB = if floor_better {
                        bf as u32
                    } else {
                        bc as u32
                    };
                }
                proof {
                    assert(ratioB as int == spec_ratio_b(ratioA as int, gl, gk, less));
                }
            }
        }
        if less {
            ratioX = ratioA;
            ratioY = ratioB;
        } else {
            ratioX = ratioB;
            ratioY = ratioA;
        }
    }
    if ratioX < 1 {
        ratioX = 1;
    }
    if ratioY < 1 {
        ratioY = 1;
    }
    Ratios { x: ratioX, y: ratioY }
}

/// Calculates size (width and height) of scaled image
/// without aspect-ratio correction (square pixels).
pub fn calculateSize(areaWidth: u32, areaHeight: u32, imageWidth: u32, imageHeight: u32) -> (size: Size)
    requires
        areaWidth >= 1,
        areaHeight >= 1,
        imageWidth >= 1,
        imageHeight >= 1,
    ensures
        size.width as int == imageWidth as int * spec_ratio(areaWidth as int, areaHeight as int,
            imageWidth as int, imageHeight as int),
        size.height as int == imageHeight as int * spec_ratio(areaWidth as int, areaHeight as int,
            imageWidth as int, imageHeight as int),
{
    proof {
        lemma_uniform_ratio_bounds(areaWidth as int, areaHeight as int, imageWidth as int,
            imageHeight as int);
    }
    let ratio: u32 = calculateRatio(areaWidth, areaHeight, imageWidth, imageHeight);
    Size { width: imageWidth * ratio, height: imageHeight * ratio }
}

/// Calculates size (width and height) of scaled image
/// with aspect-ratio correction (rectangular pixels).
pub fn calculateSizeCorrected(
    areaWidth: u32,
    areaHeight: u32,
    imageWidth: u32,
    imageHeight: u32,
    aspectX: u32,
    aspectY: u32,
) -> (size: Size)
    requires
        areaWidth >= 1,
        areaHeight >= 1,
        imageWidth >= 1,
        imageHeight >= 1,
        aspectX >= 1,
        aspectY >= 1,
    ensures
        size.width as int == imageWidth as int * spec_ratios(areaWidth as int, areaHeight as int,
            imageWidth as int, imageHeight as int, aspectX as int, aspectY as int).0,
        size.height as int == imageHeight as int * spec_ratios(areaWidth as int,
            areaHeight as int, imageWidth as int, imageHeight as int, aspectX as int,
            aspectY as int).1,
{
    proof {
        lemma_ratios_bounds(areaWidth as int, areaHeight as int, imageWidth as int,
            imageHeight as int, aspectX as int, aspectY as int);
    }
    let ratios = calculateRatios(areaWidth, areaHeight, imageWidth, imageHeight, aspectX, aspectY);
    Size { width: imageWidth * ratios.x, height: imageHeight * ratios.y }
}

/// Saturation of an unbounded integer at the top of the `u32` range,
/// the behaviour of a narrowing conversion that cannot fail.
pub open spec fn spec_sat_u32(v: int) -> int {
    if v > u32::MAX as int {
        u32::MAX as int
    } else {
        v
    }
}

/// `p / q` rounded to the nearest integer, halves rounding up.
pub open spec fn spec_round_half_up(p: int, q: int) -> int {
    (2 * p + q) / (2 * q)
}

/// The integral vertical ratio of the perfect-Y mode. The image width is
/// derived from the aspect ratio as the exact rational
/// `ih * ax / ay`; the binding axis is picked by cross-multiplication of
/// the area against that derived width (`ah * ax < aw * ay` is the exact
/// form of `ah * (ih * ax / ay) < aw * ih`), and the binding area
/// dimension is floor-divided by the corresponding image dimension — the
/// derived width being first truncated to a whole, saturated `u32` pixel
/// count — then clamped to at least 1.
pub open spec fn spec_perfect_y_ratio(aw: int, ah: int, ih: int, ax: int, ay: int) -> int {
    if ah * ax < aw * ay {
        at_least_one(ah / ih)
    } else {
        at_least_one(aw / spec_sat_u32((ih * ax) / ay))
    }
}

/// The output width of the perfect-Y mode: the derived image width times
/// the vertical ratio, rounded to the nearest whole pixel (saturated at
/// `u32::MAX`), then brought back by one pixel if rounding pushed it past
/// the area width.
pub open spec fn spec_perfect_y_width(aw: int, ah: int, ih: int, ax: int, ay: int) -> int {
    let ratio = spec_perfect_y_ratio(aw, ah, ih, ax, ay);
    let w = spec_sat_u32(spec_round_half_up(ih * ax * ratio, ay));
    if w > aw {
        w - 1
    } else {
        w
    }
}

/// Calculates size (width and height) of scaled image with aspect-ratio
/// correction with integer vertical scaling ratio, but fractional
/// horizontal scaling ratio for the purpose of achieving precise aspect
/// ratio while still having integer vertical scaling e.g. for uniform
/// scanlines.
///
/// The derived image width `imageHeight * aspectX / aspectY` must be at
/// least one pixel whenever the width is the binding axis, and the scaled
/// height must fit in `u32`.
pub fn calculateSizeCorrectedPerfectY(
    areaWidth: u32,
    areaHeight: u32,
    imageHeight: u32,
    aspectX: u32,
    aspectY: u32,
) -> (size: Size)
    requires
        areaWidth >= 1,
        areaHeight >= 1,
        imageHeight >= 1,
        aspectX >= 1,
        aspectY >= 1,
        areaHeight as int * aspectX as int >= areaWidth as int * aspectY as int
            ==> imageHeight as int * aspectX as int >= aspectY as int,
        imageHeight as int * spec_perfect_y_ratio(areaWidth as int, areaHeight as int,
            imageHeight as int, aspectX as int, aspectY as int) <= u32::MAX as int,
    ensures
        size.width as int == spec_perfect_y_width(areaWidth as int, areaHeight as int,
            imageHeight as int, aspectX as int, aspectY as int),
        size.height as int == imageHeight as int * spec_perfect_y_ratio(areaWidth as int,
            areaHeight as int, imageHeight as int, aspectX as int, aspectY as int),
        size.height >= 1,
{
    let ghost gaw: int = areaWidth as int;
    let ghost gah: int = areaHeight as int;
    let ghost gih: int = imageHeight as int;
    let ghost gax: int = aspectX as int;
    let ghost gay: int = aspectY as int;
    proof {
        lemma_u32_mul_fits(gah, gax);
        lemma_u32_mul_fits(gaw, gay);
        lemma_u32_mul_fits(gih, gax);
    }
    let ratio: u32;
    if (areaHeight as u64) * (aspectX as u64) < (areaWidth as u64) * (aspectY as u64) {
        let r0: u32 = areaHeight / imageHeight;
        ratio = if r0 < 1 {
            1
        } else {
            r0
        };
    } else {
        let fw64: u64 = ((imageHeight as u64) * (aspectX as u64)) / (aspectY as u64);
        proof {
            lemma_div_is_ordered(gay, gih * gax, gay);
            lemma_div_by_self(gay);
        }
        let fw: u32 = if fw64 > (u32::MAX as u64) {
            u32::MAX
        } else {
            fw64 as u32
        };
        let r0: u32 = areaWidth / fw;
        ratio = if r0 < 1 {
            1
        } else {
            r0
        };
    }
    assert(ratio as int == spec_perfect_y_ratio(gaw, gah, gih, gax, gay));
    proof {
        assert(0 <= (gih * gax) * (ratio as int)
            <= ((u32::MAX as int) * (u32::MAX as int)) * (u32::MAX as int)) by (nonlinear_arith)
            requires
                0 <= gih * gax <= (u32::MAX as int) * (u32::MAX as int),
                0 <= ratio as int <= u32::MAX as int,
        {
        }
    }
    let p: u128 = ((imageHeight as u128) * (aspectX as u128)) * (ratio as u128);
    let q: u128 = aspectY as u128;
    let w128: u128 = (2 * p + q) / (2 * q);
    let wsat: u32 = if w128 > (u32::MAX as u128) {
        u32::MAX
    } else {
        w128 as u32
    };
    let width: u32 = if wsat > areaWidth {
        wsat - 1
    } else {
        wsat
    };
    proof {
        lemma_u32_mul_fits(gih, ratio as int);
    }
    let height: u32 = imageHeight * ratio;
    Size { width, height }
}

/// Multiplication is monotone in both nonnegative factors.
pub proof fn lemma_mul_le(a: int, b: int, c: int, d: int)
    by (nonlinear_arith)
    requires
        0 <= a <= c,
        0 <= b <= d,
    ensures
        0 <= a * b <= c * d,
{
}

/// The uniform ratio is at least 1 and never scales the image beyond the
/// area on either axis, except that the clamp to 1 may leave an image
/// dimension that already exceeds the area dimension as it is.
pub proof fn lemma_uniform_ratio_bounds(aw: int, ah: int, iw: int, ih: int)
    requires
        1 <= aw,
        1 <= ah,
        1 <= iw,
        1 <= ih,
    ensures
        1 <= spec_ratio(aw, ah, iw, ih),
        iw * spec_ratio(aw, ah, iw, ih) <= (if aw >= iw { aw } else { iw }),
        ih * spec_ratio(aw, ah, iw, ih) <= (if ah >= ih { ah } else { ih }),
{
    lemma_div_floor_bound(ah, ih);
    lemma_div_floor_bound(aw, iw);
    lemma_fundamental_div_mod(ah, ih);
    lemma_fundamental_div_mod(aw, iw);
    if ah * iw < aw * ih {
        let q: int = ah / ih;
        if q >= 1 {
            assert(iw * q < aw) by (nonlinear_arith)
                requires
                    ah == ih * q + ah % ih,
                    0 <= ah % ih,
                    ah * iw < aw * ih,
                    1 <= iw,
                    1 <= ih,
                    0 <= q,
            {
            }
        }
    } else {
        let q: int = aw / iw;
        if q >= 1 {
            assert(ih * q <= ah) by (nonlinear_arith)
                requires
                    aw == iw * q + aw % iw,
                    0 <= aw % iw,
                    aw * ih <= ah * iw,
                    1 <= iw,
                    1 <= ih,
                    0 <= q,
            {
            }
        }
    }
}

/// The solved-axis candidate is the floor or the ceiling of `l / k`.
pub proof fn lemma_ratio_b_bracket(a: int, l: int, k: int, less: bool)
    requires
        0 <= l,
        1 <= k,
    ensures
        l / k <= spec_ratio_b(a, l, k, less) <= l / k + 1,
{
}

/// Both corrected ratios are at least 1, and neither scales the image
/// beyond the area on its axis, except that the clamp to 1 may leave an
/// image dimension that already exceeds the area dimension as it is.
pub proof fn lemma_ratios_bounds(aw: int, ah: int, iw: int, ih: int, ax: int, ay: int)
    requires
        1 <= aw,
        1 <= ah,
        1 <= iw,
        1 <= ih,
        1 <= ax,
        1 <= ay,
    ensures
        1 <= spec_ratios(aw, ah, iw, ih, ax, ay).0,
        1 <= spec_ratios(aw, ah, iw, ih, ax, ay).1,
        iw * spec_ratios(aw, ah, iw, ih, ax, ay).0 <= (if aw >= iw { aw } else { iw }),
        ih * spec_ratios(aw, ah, iw, ih, ax, ay).1 <= (if ah >= ih { ah } else { ih }),
{
    if iw * ay == ih * ax {
        lemma_uniform_ratio_bounds(aw, ah, iw, ih);
    } else {
        let mx: int = aw / iw;
        let my: int = ah / ih;
        let mw: int = iw * mx;
        let mh: int = ih * my;
        lemma_div_floor_bound(aw, iw);
        lemma_div_floor_bound(ah, ih);
        if mw * ay == mh * ax {
        } else if mw * ay < mh * ax {
            let k: int = ax * ih;
            assert(1 <= k) by (nonlinear_arith)
                requires
                    k == ax * ih,
                    1 <= ax,
                    1 <= ih,
            {
            }
            assert(mh * ax == k * my) by (nonlinear_arith)
                requires
                    mh == ih * my,
                    k == ax * ih,
            {
            }
            lemma_multiply_divide_lt(mw * ay, k, my);
            lemma_ratio_b_bracket(mx, mw * ay, k, true);
            let rb: int = spec_ratio_b(mx, mw * ay, k, true);
            assert(rb <= my);
            if rb >= 1 {
                assert(ih * rb <= ih * my) by (nonlinear_arith)
                    requires
                        0 <= rb <= my,
                        0 <= ih,
                {
                }
            }
        } else {
            let k: int = ay * iw;
            assert(1 <= k) by (nonlinear_arith)
                requires
                    k == ay * iw,
                    1 <= ay,
                    1 <= iw,
            {
            }
            assert(mw * ay == k * mx) by (nonlinear_arith)
                requires
                    mw == iw * mx,
                    k == ay * iw,
            {
            }
            lemma_multiply_divide_lt(mh * ax, k, mx);
            lemma_ratio_b_bracket(my, mh * ax, k, false);
            let rb: int = spec_ratio_b(my, mh * ax, k, false);
            assert(rb <= mx);
            if rb >= 1 {
                assert(iw * rb <= iw * mx) by (nonlinear_arith)
                    requires
                        0 <= rb <= mx,
                        0 <= iw,
                {
                }
            }
        }
    }
}

/// In the error and tie comparisons of the solved axis, every product fits
/// comfortably below the `u128` bound: the numerators are below `k`, the
/// candidates are below `u32::MAX`, and `k` is a product of two `u32`s.
proof fn lemma_solved_axis_products_fit(nf: int, nc: int, bf: int, bc: int, k: int)
    by (nonlinear_arith)
    requires
        1 <= k <= (u32::MAX as int) * (u32::MAX as int),
        0 <= nf < k,
        0 <= nc < k,
        0 <= bf <= u32::MAX as int,
        0 <= bc <= u32::MAX as int,
    ensures
        0 <= nf * bc <= (u32::MAX as int) * (u32::MAX as int) * (u32::MAX as int),
        0 <= nc * bf <= (u32::MAX as int) * (u32::MAX as int) * (u32::MAX as int),
        0 <= k * bf <= (u32::MAX as int) * (u32::MAX as int) * (u32::MAX as int),
        0 <= k * bf * bc <= (u32::MAX as int) * (u32::MAX as int) * (u32::MAX as int) * (
        u32::MAX as int),
        1000 * ((u32::MAX as int) * (u32::MAX as int) * (u32::MAX as int)) < u128::MAX as int,
        (u32::MAX as int) * (u32::MAX as int) * (u32::MAX as int) * (u32::MAX as int)
            < u128::MAX as int,
{
}

} // verus!
