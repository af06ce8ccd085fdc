//! The laws of the ratio engine: properties that hold of every input,
//! stated over the spec functions that the public contracts use.
use vstd::prelude::*;
use vstd::arithmetic::div_mod::lemma_fundamental_div_mod;
use vstd::arithmetic::div_mod::lemma_div_is_ordered;
use vstd::arithmetic::div_mod::lemma_div_multiples_vanish;
use vstd::arithmetic::div_mod::lemma_multiply_divide_lt;
use crate::scaling::Ratios;
use crate::scaling::Size;
use crate::scaling::at_least_one;
use crate::scaling::dist;
use crate::scaling::spec_ratio;
use crate::scaling::spec_ratio_b;
use crate::scaling::spec_ratios;
use crate::scaling::lemma_uniform_ratio_bounds;
use crate::scaling::lemma_ratios_bounds;
use crate::scaling::lemma_ratio_b_bracket;
use crate::scaling::lemma_mul_le;

verus! {

/// The uniform ratio is the floor quotient of the weaker axis: the
/// cross-multiplied binding-axis test picks whichever of `ah / ih` and
/// `aw / iw` is smaller.
pub proof fn lemma_ratio_min_form(aw: int, ah: int, iw: int, ih: int)
    requires
        1 <= aw,
        1 <= ah,
        1 <= iw,
        1 <= ih,
    ensures
        spec_ratio(aw, ah, iw, ih) == at_least_one(
            if ah / ih <= aw / iw {
                ah / ih
            } else {
                aw / iw
            },
        ),
{
    lemma_fundamental_div_mod(ah, ih);
    lemma_fundamental_div_mod(aw, iw);
    if ah * iw < aw * ih {
        assert(ah / ih <= aw / iw) by (nonlinear_arith)
            requires
                ah == ih * (ah / ih) + ah % ih,
                0 <= ah % ih < ih,
                aw == iw * (aw / iw) + aw % iw,
                0 <= aw % iw < iw,
                ah * iw < aw * ih,
                1 <= iw,
                1 <= ih,
        {
        }
    } else {
        assert(aw / iw <= ah / ih) by (nonlinear_arith)
            requires
                ah == ih * (ah / ih) + ah % ih,
                0 <= ah % ih < ih,
                aw == iw * (aw / iw) + aw % iw,
                0 <= aw % iw < iw,
                aw * ih <= ah * iw,
                1 <= iw,
                1 <= ih,
        {
        }
    }
}

/// Monotonicity of the uniform ratio: growing the area (with the image
/// fixed) never shrinks the chosen scale factor.
pub proof fn lemma_ratio_monotonic(aw1: int, ah1: int, aw2: int, ah2: int, iw: int, ih: int)
    requires
        1 <= aw1 <= aw2,
        1 <= ah1 <= ah2,
        1 <= iw,
        1 <= ih,
    ensures
        spec_ratio(aw1, ah1, iw, ih) <= spec_ratio(aw2, ah2, iw, ih),
{
    lemma_ratio_min_form(aw1, ah1, iw, ih);
    lemma_ratio_min_form(aw2, ah2, iw, ih);
    lemma_div_is_ordered(ah1, ah2, ih);
    lemma_div_is_ordered(aw1, aw2, iw);
}

/// Monotonicity of the solved-axis candidate: with the divisor fixed,
/// growing the fixed-axis ratio and the exact fraction never shrinks the
/// chosen candidate.
pub proof fn lemma_ratio_b_monotonic(a1: int, l1: int, a2: int, l2: int, k: int, less: bool)
    requires
        1 <= k,
        0 <= l1 <= l2,
        0 <= a1 <= a2,
    ensures
        spec_ratio_b(a1, l1, k, less) <= spec_ratio_b(a2, l2, k, less),
{
    let bf1: int = l1 / k;
    let bf2: int = l2 / k;
    let r1: int = l1 % k;
    let r2: int = l2 % k;
    lemma_div_is_ordered(l1, l2, k);
    lemma_ratio_b_bracket(a1, l1, k, less);
    lemma_ratio_b_bracket(a2, l2, k, less);
    if bf1 == bf2 && r1 != 0 {
        let bf: int = bf1;
        let bc: int = bf + 1;
        lemma_fundamental_div_mod(l1, k);
        lemma_fundamental_div_mod(l2, k);
        assert(r2 - r1 == l2 - l1);
        assert(k * bc == k * bf + k) by (nonlinear_arith)
            requires
                bc == bf + 1,
        {
        }
        assert(dist(l1, k * bf) == r1 && dist(l1, k * bc) == k - r1);
        assert(dist(l2, k * bf) == r2 && dist(l2, k * bc) == k - r2);
        if less && bf == 0 {
        } else if less {
            let x1: int = r1 * bc;
            let y1: int = (k - r1) * bf;
            let x2: int = r2 * bc;
            let y2: int = (k - r2) * bf;
            assert(x2 - y2 >= x1 - y1) by (nonlinear_arith)
                requires
                    x1 == r1 * bc,
                    y1 == (k - r1) * bf,
                    x2 == r2 * bc,
                    y2 == (k - r2) * bf,
                    r1 <= r2,
                    0 <= bf,
                    bc == bf + 1,
            {
            }
            if spec_ratio_b(a1, l1, k, less) == bc {
                let thr: int = k * bf * bc;
                if 1000 * dist(x1, y1) < thr {
                    assert(a1 > bf);
                    if !(1000 * dist(x2, y2) < thr) {
                        assert(x2 >= y2);
                    }
                } else {
                    assert(x1 >= y1);
                    assert(1000 * dist(x2, y2) >= thr);
                    assert(x2 >= y2);
                }
                assert(spec_ratio_b(a2, l2, k, less) == bc);
            }
        } else {
            if spec_ratio_b(a1, l1, k, less) == bc {
                if 1000 * dist(r1, k - r1) < l1 {
                    assert(a1 > bf);
                    if !(1000 * dist(r2, k - r2) < l2) {
                        assert(r2 >= k - r2);
                    }
                } else {
                    assert(r1 >= k - r1);
                    assert(1000 * (2 * r2 - k) >= l2);
                    assert(r2 >= k - r2);
                }
                assert(spec_ratio_b(a2, l2, k, less) == bc);
            }
        }
    }
}

/// Monotonicity of the corrected ratios: growing the area (with the image
/// and the target aspect fixed) never shrinks either chosen scale factor.
pub proof fn lemma_ratios_monotonic(
    aw1: int,
    ah1: int,
    aw2: int,
    ah2: int,
    iw: int,
    ih: int,
    ax: int,
    ay: int,
)
    requires
        1 <= aw1 <= aw2,
        1 <= ah1 <= ah2,
        1 <= iw,
        1 <= ih,
        1 <= ax,
        1 <= ay,
    ensures
        spec_ratios(aw1, ah1, iw, ih, ax, ay).0 <= spec_ratios(aw2, ah2, iw, ih, ax, ay).0,
        spec_ratios(aw1, ah1, iw, ih, ax, ay).1 <= spec_ratios(aw2, ah2, iw, ih, ax, ay).1,
{
    if iw * ay == ih * ax {
        lemma_ratio_monotonic(aw1, ah1, aw2, ah2, iw, ih);
    } else {
        let m1x: int = aw1 / iw;
        let m1y: int = ah1 / ih;
        let m2x: int = aw2 / iw;
        let m2y: int = ah2 / ih;
        let m1w: int = iw * m1x;
        let m1h: int = ih * m1y;
        let m2w: int = iw * m2x;
        let m2h: int = ih * m2y;
        let kl: int = ax * ih;
        let kg: int = ay * iw;
        lemma_div_is_ordered(aw1, aw2, iw);
        lemma_div_is_ordered(ah1, ah2, ih);
        vstd::arithmetic::div_mod::lemma_div_pos_is_pos(aw1, iw);
        vstd::arithmetic::div_mod::lemma_div_pos_is_pos(ah1, ih);
        assert(1 <= kl && 1 <= kg) by (nonlinear_arith)
            requires
                kl == ax * ih,
                kg == ay * iw,
                1 <= ax,
                1 <= ay,
                1 <= iw,
                1 <= ih,
        {
        }
        assert(m1h * ax == kl * m1y && m2h * ax == kl * m2y && m1w * ay == kg * m1x && m2w * ay
            == kg * m2x) by (nonlinear_arith)
            requires
                m1h == ih * m1y,
                m2h == ih * m2y,
                m1w == iw * m1x,
                m2w == iw * m2x,
                kl == ax * ih,
                kg == ay * iw,
        {
        }
        lemma_mul_le(iw, m1x, iw, m2x);
        lemma_mul_le(ih, m1y, ih, m2y);
        lemma_mul_le(m1w, ay, m2w, ay);
        lemma_mul_le(m1h, ax, m2h, ax);
        // The x component.
        if m1h * ax < m1w * ay {
            // Config 1 solves the x axis: its candidate stays below the
            // per-axis maximum, which only grows.
            lemma_multiply_divide_lt(m1h * ax, kg, m1x);
            lemma_ratio_b_bracket(m1y, m1h * ax, kg, false);
            assert(spec_ratio_b(m1y, m1h * ax, kg, false) <= m1x);
            if m2h * ax < m2w * ay {
                lemma_ratio_b_monotonic(m1y, m1h * ax, m2y, m2h * ax, kg, false);
                lemma_ratio_b_bracket(m2y, m2h * ax, kg, false);
            }
        } else {
            // Config 1 fixes the x axis at its maximum; if config 2 solves
            // the x axis, its floor candidate already reaches that maximum.
            if m2h * ax < m2w * ay {
                assert(kg * m1x <= m2h * ax);
                lemma_div_is_ordered(kg * m1x, m2h * ax, kg);
                lemma_div_multiples_vanish(m1x, kg);
                lemma_ratio_b_bracket(m2y, m2h * ax, kg, false);
                assert(m1x <= spec_ratio_b(m2y, m2h * ax, kg, false));
            }
        }
        // The y component.
        if m1w * ay < m1h * ax {
            lemma_multiply_divide_lt(m1w * ay, kl, m1y);
            lemma_ratio_b_bracket(m1x, m1w * ay, kl, true);
            if m2w * ay < m2h * ax {
                lemma_ratio_b_monotonic(m1x, m1w * ay, m2x, m2w * ay, kl, true);
                lemma_ratio_b_bracket(m2x, m2w * ay, kl, true);
            }
        } else {
            if m2w * ay < m2h * ax {
                assert(kl * m1y <= m2w * ay);
                lemma_div_is_ordered(kl * m1y, m2w * ay, kl);
                lemma_div_multiples_vanish(m1y, kl);
                lemma_ratio_b_bracket(m2x, m2w * ay, kl, true);
            }
        }
    }
}

/// The floor invariant: every returned ratio, uniform or corrected, is at
/// least 1, whatever the inputs.
pub proof fn lemma_floor_invariant(aw: int, ah: int, iw: int, ih: int, ax: int, ay: int)
    requires
        1 <= aw,
        1 <= ah,
        1 <= iw,
        1 <= ih,
        1 <= ax,
        1 <= ay,
    ensures
        1 <= spec_ratio(aw, ah, iw, ih),
        1 <= spec_ratios(aw, ah, iw, ih, ax, ay).0,
        1 <= spec_ratios(aw, ah, iw, ih, ax, ay).1,
{
    lemma_uniform_ratio_bounds(aw, ah, iw, ih);
    lemma_ratios_bounds(aw, ah, iw, ih, ax, ay);
}

/// The fit invariant: when the image fits the area at all, the uniformly
/// scaled image still fits it on the binding axis — and in fact on both.
pub proof fn lemma_uniform_fit(aw: int, ah: int, iw: int, ih: int)
    requires
        1 <= iw <= aw,
        1 <= ih <= ah,
    ensures
        ah * iw < aw * ih ==> ih * spec_ratio(aw, ah, iw, ih) <= ah,
        ah * iw >= aw * ih ==> iw * spec_ratio(aw, ah, iw, ih) <= aw,
        iw * spec_ratio(aw, ah, iw, ih) <= aw,
        ih * spec_ratio(aw, ah, iw, ih) <= ah,
{
    lemma_uniform_ratio_bounds(aw, ah, iw, ih);
}

/// Degenerate-aspect equivalence: when the image's native aspect already
/// equals the target pixel aspect ratio (by cross-multiplication), the
/// corrected ratios collapse to the uniform ratio on both axes.
pub proof fn lemma_degenerate_equivalence(aw: int, ah: int, iw: int, ih: int, ax: int, ay: int)
    requires
        1 <= aw,
        1 <= ah,
        1 <= iw,
        1 <= ih,
        1 <= ax,
        1 <= ay,
        iw * ay == ih * ax,
    ensures
        spec_ratios(aw, ah, iw, ih, ax, ay).0 == spec_ratio(aw, ah, iw, ih),
        spec_ratios(aw, ah, iw, ih, ax, ay).1 == spec_ratio(aw, ah, iw, ih),
{
}

/// Idempotence of the corrected ratios: the contract of
/// [`crate::scaling::calculateRatios`] equates the result with a function
/// of the inputs alone, so any two calls on identical inputs agree.
pub proof fn lemma_ratios_deterministic(
    aw: int,
    ah: int,
    iw: int,
    ih: int,
    ax: int,
    ay: int,
    r1: Ratios,
    r2: Ratios,
)
    requires
        r1.x as int == spec_ratios(aw, ah, iw, ih, ax, ay).0,
        r1.y as int == spec_ratios(aw, ah, iw, ih, ax, ay).1,
        r2.x as int == spec_ratios(aw, ah, iw, ih, ax, ay).0,
        r2.y as int == spec_ratios(aw, ah, iw, ih, ax, ay).1,
    ensures
        r1 == r2,
{
}

/// Idempotence of the size derivations: the contracts of
/// [`crate::scaling::calculateSize`] and its corrected variants equate
/// each output dimension with a function of the inputs alone, so any two
/// calls on identical inputs agree.
pub proof fn lemma_size_deterministic(s1: Size, s2: Size, w: int, h: int)
    requires
        s1.width as int == w,
        s1.height as int == h,
        s2.width as int == w,
        s2.height as int == h,
    ensures
        s1 == s2,
{
}

} // verus!
