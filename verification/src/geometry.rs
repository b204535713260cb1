//! Scale calculator and canvas sizing validator: derives the uniform scale
//! ratio and the target integer canvas size from an intrinsic document size
//! and an effective density, and rejects degenerate canvases.

use vstd::prelude::*;
use vstd::arithmetic::div_mod::{
    lemma_fundamental_div_mod, lemma_fundamental_div_mod_converse, lemma_div_is_ordered,
};
use crate::resolution::{Dpi, BASELINE_DPI_RAW, FP4_ONE};

verus! {

/// The largest accepted intrinsic dimension in fixed point (one billion
/// abstract units).
pub const MAX_SIZE_RAW: u64 = 10_000_000_000_000;

/// The fixed denominator of the canvas computation: a raw size times a raw
/// density is scaled by `FP4_ONE` twice, and the baseline is 96, so this is
/// `96 * FP4_ONE * FP4_ONE`.
pub const CANVAS_SCALE_DEN: u64 = 9_600_000_000;

/// A vector document's intrinsic size, in fixed-point abstract units per
/// axis. A zero axis is representable: it is the degenerate input that the
/// validator rejects.
#[derive(Clone, Copy, Debug, PartialEq, Eq, Structural)]
pub struct IntrinsicSize {
    pub width: u64,
    pub height: u64,
}

impl IntrinsicSize {
    /// An intrinsic size is well formed when both axes are in range.
    pub open spec fn wf(self) -> bool {
        self.width <= MAX_SIZE_RAW && self.height <= MAX_SIZE_RAW
    }
}

/// A validated target canvas size in whole pixels, both axes positive.
#[derive(Clone, Copy, Debug, PartialEq, Eq, Structural)]
pub struct CanvasSize {
    pub width: u32,
    pub height: u32,
}

impl CanvasSize {
    /// A canvas size is well formed when it has no zero axis.
    pub open spec fn wf(self) -> bool {
        self.width > 0 && self.height > 0
    }
}

/// The degenerate-canvas rejection: the request, as scaled, would produce an
/// empty image. A client-side input error, not a server fault.
#[derive(Clone, Copy, Debug, PartialEq, Eq, Structural)]
pub struct InvalidGeometry;

/// One scaled axis before saturation: the ceiling of the intrinsic dimension
/// times the scale `dpi / 96`, in whole pixels.
pub open spec fn scaled_dim(size_raw: u64, dpi_raw: u64) -> int {
    (size_raw * dpi_raw + (CANVAS_SCALE_DEN - 1)) / (CANVAS_SCALE_DEN as int)
}

/// One target canvas axis: the scaled axis, saturated at `u32::MAX`.
pub open spec fn canvas_dim(size_raw: u64, dpi_raw: u64) -> u32 {
    if scaled_dim(size_raw, dpi_raw) > u32::MAX {
        u32::MAX
    } else {
        scaled_dim(size_raw, dpi_raw) as u32
    }
}

/// Computes one target canvas axis: `ceil(size * dpi / 96)` over the
/// fixed-point representations, saturated at `u32::MAX`.
pub fn compute_canvas_dim(size_raw: u64, dpi_raw: u64) -> (r: u32)
    ensures
        r == canvas_dim(size_raw, dpi_raw),
{
    proof {
        assert((size_raw as u128) * (dpi_raw as u128) <= 0xFFFF_FFFF_FFFF_FFFFu128
            * 0xFFFF_FFFF_FFFF_FFFFu128) by (nonlinear_arith)
            requires
                size_raw <= 0xFFFF_FFFF_FFFF_FFFFu128,
                dpi_raw <= 0xFFFF_FFFF_FFFF_FFFFu128,
        ;
    }
    let num: u128 = (size_raw as u128) * (dpi_raw as u128) + (CANVAS_SCALE_DEN as u128 - 1);
    let q: u128 = num / (CANVAS_SCALE_DEN as u128);
    proof {
        lemma_div_is_ordered(0, num as int, CANVAS_SCALE_DEN as int);
    }
    if q > u32::MAX as u128 {
        u32::MAX
    } else {
        q as u32
    }
}

/// `scaled_dim` is the true ceiling of the scaled axis: the mandatory
/// rounding-up guarantees the canvas is never smaller than the scaled
/// document — at most one extra pixel of padding. Stated over the exact
/// product: the scaled axis fits within `scaled_dim` pixels, and one pixel
/// fewer would clip it.
pub proof fn lemma_scaled_dim_is_ceiling(size_raw: u64, dpi_raw: u64)
    ensures
        scaled_dim(size_raw, dpi_raw) * CANVAS_SCALE_DEN >= size_raw * dpi_raw,
        (scaled_dim(size_raw, dpi_raw) - 1) * CANVAS_SCALE_DEN < size_raw * dpi_raw,
{
    let den = CANVAS_SCALE_DEN as int;
    let num = size_raw * dpi_raw + (den - 1);
    let q = num / den;
    let r = num % den;
    lemma_fundamental_div_mod(num, den);
    vstd::arithmetic::div_mod::lemma_mod_division_less_than_divisor(num, den);
    assert(size_raw * dpi_raw >= 0) by (nonlinear_arith)
        requires
            size_raw >= 0,
            dpi_raw >= 0,
    ;
    lemma_div_is_ordered(0, num, den);
    assert(num == q * den + r);
}

/// A zero axis scales to zero; a positive axis at a positive density scales
/// to a positive canvas axis.
pub proof fn lemma_canvas_dim_zero_iff(size_raw: u64, dpi_raw: u64)
    requires
        dpi_raw >= 1,
    ensures
        canvas_dim(size_raw, dpi_raw) == 0 <==> size_raw == 0,
{
    if size_raw == 0 {
        assert(scaled_dim(0, dpi_raw) == 0);
    } else {
        assert(size_raw * dpi_raw >= 1) by (nonlinear_arith)
            requires
                size_raw >= 1,
                dpi_raw >= 1,
        ;
        lemma_div_is_ordered(
            CANVAS_SCALE_DEN as int,
            size_raw * dpi_raw + (CANVAS_SCALE_DEN - 1),
            CANVAS_SCALE_DEN as int,
        );
        assert(scaled_dim(size_raw, dpi_raw) >= 1);
    }
}

/// At the baseline density the scale is one: each canvas axis is exactly the
/// ceiling of the intrinsic axis, and saturation never applies.
pub proof fn lemma_baseline_identity(size_raw: u64)
    requires
        size_raw <= MAX_SIZE_RAW,
    ensures
        canvas_dim(size_raw, BASELINE_DPI_RAW) == (size_raw + (FP4_ONE - 1)) / (FP4_ONE as int),
{
    let c = BASELINE_DPI_RAW as int;
    let k = FP4_ONE as int;
    let q = (size_raw + k - 1) / k;
    let r = (size_raw + k - 1) % k;
    lemma_fundamental_div_mod(size_raw + k - 1, k);
    vstd::arithmetic::div_mod::lemma_mod_division_less_than_divisor(size_raw + k - 1, k);
    lemma_div_is_ordered(0, size_raw + k - 1, k);
    assert(size_raw + k - 1 == q * k + r);
    let num = size_raw * c + (c * k - 1);
    assert(num == (q * k + r) * c + c * k - 1 - (k - 1) * c);
    assert((q * k + r) * c == q * k * c + r * c) by (nonlinear_arith);
    assert(num == q * (k * c) + (r * c + c * k - 1 - (k - 1) * c)) by (nonlinear_arith)
        requires
            num == q * k * c + r * c + c * k - 1 - (k - 1) * c,
    ;
    let rem = r * c + c * k - 1 - (k - 1) * c;
    assert(rem == r * c + c - 1);
    assert(0 <= r * c <= (k - 1) * c) by (nonlinear_arith)
        requires
            0 <= r <= k - 1,
            c > 0,
    ;
    assert(0 <= rem < k * c);
    lemma_fundamental_div_mod_converse(num, k * c, q, rem);
    assert(scaled_dim(size_raw, BASELINE_DPI_RAW) == q);
    assert(q <= (MAX_SIZE_RAW + k - 1) / k) by {
        lemma_div_is_ordered(size_raw + k - 1, MAX_SIZE_RAW as int + k - 1, k);
    }
    assert(q <= u32::MAX);
}

/// Validates a computed canvas size: accepted unchanged exactly when both
/// axes are positive, rejected as degenerate geometry otherwise.
pub fn validate_canvas_size(width: u32, height: u32) -> (r: Result<CanvasSize, InvalidGeometry>)
    ensures
        r is Ok <==> (width > 0 && height > 0),
        r matches Ok(c) ==> c.width == width && c.height == height && c.wf(),
{
    if width == 0 || height == 0 {
        Err(InvalidGeometry)
    } else {
        Ok(CanvasSize { width, height })
    }
}

/// The uniform scale transform as an exact ratio, numerator over
/// denominator: the effective density over the 96-DPI baseline. Both carry
/// the same fixed-point factor, so the ratio is exactly `dpi / 96`, applied
/// to both axes alike.
pub fn scale_factor(dpi: Dpi) -> (r: (u64, u64))
    ensures
        r.0 == dpi.raw,
        r.1 == BASELINE_DPI_RAW,
        r.1 == 96 * FP4_ONE,
{
    (dpi.raw, BASELINE_DPI_RAW)
}

} // verus!
