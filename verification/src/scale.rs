//! Scaling a size down to fit a box while keeping its aspect ratio.
//!
//! Ratios are exact fractions; a scaled length is the fraction rounded to the nearest
//! integer, halves rounded up.
use vstd::prelude::*;

verus! {

/// `v * num / den` rounded to the nearest integer, halves rounded up.
pub open spec fn round_ratio(v: nat, num: nat, den: nat) -> nat
    recommends
        den > 0,
{
    (2 * v * num + den) / (2 * den)
}

/// Which ratio decides the scale of a `iw × ih` size fitted into `aw × ah`: none when the
/// size already fits, else the smaller of the finite ratios `aw / iw` and `ah / ih`.
#[derive(Clone, Copy, Debug, PartialEq, Eq, Structural)]
pub enum Fit {
    Keep,
    ByWidth,
    ByHeight,
}

/// The ratio that scales a `iw × ih` size by `min(aw / iw, ah / ih, 1)`, where a ratio with a
/// zero denominator is infinite.
pub open spec fn fit_kind(iw: nat, ih: nat, aw: nat, ah: nat) -> Fit {
    if (iw > 0 && aw < iw) || (ih > 0 && ah < ih) {
        if iw > 0 && (ih == 0 || aw * ih <= ah * iw) {
            Fit::ByWidth
        } else {
            Fit::ByHeight
        }
    } else {
        Fit::Keep
    }
}

/// The `iw × ih` size scaled by `min(aw / iw, ah / ih, 1)`, each side rounded.
pub open spec fn fit_size(iw: nat, ih: nat, aw: nat, ah: nat) -> (nat, nat) {
    match fit_kind(iw, ih, aw, ah) {
        Fit::Keep => (iw, ih),
        Fit::ByWidth => (aw, round_ratio(ih, aw, iw)),
        Fit::ByHeight => (round_ratio(iw, ah, ih), ah),
    }
}

proof fn lemma_round_ratio_bound(v: nat, num: nat, den: nat, limit: nat)
    requires
        den > 0,
        v * num <= limit * den,
    ensures
        round_ratio(v, num, den) <= limit,
{
    let a = 2 * v * num + den;
    let b = 2 * den;
    assert(a < b * (limit + 1)) by (nonlinear_arith)
        requires
            a == 2 * v * num + den,
            b == 2 * den,
            v * num <= limit * den,
            den > 0,
    ;
    assert(a / b < limit + 1) by (nonlinear_arith)
        requires
            a < b * (limit + 1),
            b > 0,
            a >= 0,
    ;
}

/// `v * num / den`, rounded to the nearest integer, when the result is at most `limit`.
pub fn scaled_length(v: u32, num: u32, den: u32, limit: u32) -> (r: u32)
    requires
        den > 0,
        (v as nat) * (num as nat) <= (limit as nat) * (den as nat),
    ensures
        r as nat == round_ratio(v as nat, num as nat, den as nat),
{
    proof {
        lemma_round_ratio_bound(v as nat, num as nat, den as nat, limit as nat);
        assert((v as nat) * (num as nat) <= 0xffff_ffff * 0xffff_ffff) by (nonlinear_arith)
            requires
                v <= 0xffff_ffffu32,
                num <= 0xffff_ffffu32,
        ;
    }
    let product: u128 = (v as u128) * (num as u128);
    let numerator: u128 = 2 * product + den as u128;
    let denominator: u128 = 2 * den as u128;
    let q = numerator / denominator;
    proof {
        assert(2 * (v as nat) * (num as nat) == 2 * ((v as nat) * (num as nat))) by (nonlinear_arith);
        assert(q as nat == round_ratio(v as nat, num as nat, den as nat));
    }
    q as u32
}

/// The exact product of two 32-bit values.
pub fn wide_product(a: u32, b: u32) -> (r: u64)
    ensures
        r as nat == (a as nat) * (b as nat),
{
    proof {
        assert((a as nat) * (b as nat) <= 0xffff_ffff * 0xffff_ffff) by (nonlinear_arith)
            requires
                a <= 0xffff_ffffu32,
                b <= 0xffff_ffffu32,
        ;
    }
    (a as u64) * (b as u64)
}

/// The `iw × ih` size scaled down, keeping its aspect ratio, to fit `aw × ah`; a size that
/// already fits is kept.
pub fn fit_within(iw: u32, ih: u32, aw: u32, ah: u32) -> (r: (u32, u32))
    ensures
        (r.0 as nat, r.1 as nat) == fit_size(iw as nat, ih as nat, aw as nat, ah as nat),
{
    let by_width_bound = iw > 0 && aw < iw;
    let by_height_bound = ih > 0 && ah < ih;
    if by_width_bound || by_height_bound {
        let width_decides = iw > 0 && (ih == 0 || wide_product(aw, ih) <= wide_product(ah, iw));
        if width_decides {
            let h = scaled_length(ih, aw, iw, ah);
            (aw, h)
        } else {
            proof {
                if iw > 0 {
                    assert((aw as nat) * (ih as nat) > (ah as nat) * (iw as nat));
                    assert((iw as nat) * (ah as nat) <= (aw as nat) * (ih as nat)) by (nonlinear_arith)
                        requires
                            (aw as nat) * (ih as nat) > (ah as nat) * (iw as nat),
                    ;
                } else {
                    assert((iw as nat) * (ah as nat) == 0);
                }
                assert(ih > 0) by {
                    if ih == 0 {
                        assert(iw > 0 && aw < iw);
                    }
                }
            }
            let w = scaled_length(iw, ah, ih, aw);
            (w, ah)
        }
    } else {
        (iw, ih)
    }
}


/// A fitted size never exceeds the box it was fitted into, nor the size it started from.
pub proof fn lemma_fit_size_bounded(iw: nat, ih: nat, aw: nat, ah: nat)
    ensures
        fit_size(iw, ih, aw, ah).0 <= if iw > aw { aw } else { iw },
        fit_size(iw, ih, aw, ah).1 <= if ih > ah { ah } else { ih },
{
    match fit_kind(iw, ih, aw, ah) {
        Fit::Keep => {},
        Fit::ByWidth => {
            assert(iw > 0);
            if !(aw < iw) {
                assert(ih > 0 && ah < ih);
                assert(aw < iw) by (nonlinear_arith)
                    requires
                        aw * ih <= ah * iw,
                        ah < ih,
                        iw > 0,
                        ih > 0,
                ;
            }
            if ih > 0 {
                assert(ih * aw <= ah * iw) by (nonlinear_arith)
                    requires
                        aw * ih <= ah * iw,
                ;
                lemma_round_ratio_bound(ih, aw, iw, ah);
                assert(ih * aw <= ih * iw) by (nonlinear_arith)
                    requires
                        aw < iw,
                ;
                lemma_round_ratio_bound(ih, aw, iw, ih);
            } else {
                assert(ih * aw == 0);
                lemma_round_ratio_bound(ih, aw, iw, 0);
            }
        },
        Fit::ByHeight => {
            assert(ih > 0) by {
                if ih == 0 {
                    assert(iw > 0 && aw < iw);
                }
            }
            assert(iw * ah <= aw * ih) by {
                if iw > 0 {
                    assert(iw * ah <= aw * ih) by (nonlinear_arith)
                        requires
                            aw * ih > ah * iw,
                    ;
                } else {
                    assert(iw * ah == 0) by (nonlinear_arith)
                        requires
                            iw == 0,
                    ;
                    assert(0 <= aw * ih) by (nonlinear_arith);
                }
            }
            if !(ah < ih) {
                assert(iw > 0 && aw < iw);
                assert(ah < ih) by (nonlinear_arith)
                    requires
                        aw * ih > ah * iw,
                        aw < iw,
                        iw > 0,
                ;
            }
            lemma_round_ratio_bound(iw, ah, ih, aw);
            assert(iw * ah <= iw * ih) by (nonlinear_arith)
                requires
                    ah < ih,
            ;
            lemma_round_ratio_bound(iw, ah, ih, iw);
        },
    }
}

} // verus!
