//! The deciding core of one conversion: from the optional query string and
//! the document's intrinsic size to the validated canvas plan. The external
//! rasterizer fills a canvas of the planned size under the planned scale;
//! the container writer then embeds the planned density descriptor.

use vstd::prelude::*;
use crate::density::{descriptor_bytes, ppm_field};
use crate::geometry::{
    canvas_dim, compute_canvas_dim, lemma_baseline_identity, lemma_canvas_dim_zero_iff,
    validate_canvas_size, CanvasSize, IntrinsicSize, InvalidGeometry,
};
use crate::resolution::{effective_dpi_raw, resolve_dpi, Dpi, BASELINE_DPI_RAW, FP4_ONE};

verus! {

/// A validated conversion plan: the effective density and the target canvas
/// the external rasterizer must fill.
#[derive(Clone, Copy, Debug, PartialEq, Eq, Structural)]
pub struct ConversionPlan {
    pub dpi: Dpi,
    pub canvas: CanvasSize,
}

impl ConversionPlan {
    /// A plan is well formed when its density is in range and its canvas
    /// has no zero axis.
    pub open spec fn wf(self) -> bool {
        self.dpi.wf() && self.canvas.wf()
    }
}

/// The canvas planned for an intrinsic size at an effective density: each
/// axis scaled by `dpi / 96` and rounded up, saturated at the pixel type.
pub open spec fn planned_canvas(size: IntrinsicSize, dpi_raw: u64) -> CanvasSize {
    CanvasSize {
        width: canvas_dim(size.width, dpi_raw),
        height: canvas_dim(size.height, dpi_raw),
    }
}

/// Plans one conversion: resolves the effective density from the optional
/// query string, scales the intrinsic size uniformly, and validates the
/// resulting canvas. Fails — before anything is allocated or rendered —
/// exactly when the document is degenerate: an intrinsic axis of zero,
/// which no positive density scales to a visible pixel.
pub fn plan_conversion(query: Option<&str>, size: &IntrinsicSize) -> (r: Result<
    ConversionPlan,
    InvalidGeometry,
>)
    requires
        size.wf(),
    ensures
        ({
            let dpi_raw = effective_dpi_raw(
                match query {
                    None => None,
                    Some(q) => Some(q@),
                },
            );
            &&& (r matches Ok(p) ==> p.wf() && p.dpi.raw == dpi_raw && p.canvas == planned_canvas(
                *size,
                dpi_raw,
            ))
            &&& (r is Err <==> size.width == 0 || size.height == 0)
        }),
{
    let dpi = resolve_dpi(query);
    let width = compute_canvas_dim(size.width, dpi.raw);
    let height = compute_canvas_dim(size.height, dpi.raw);
    proof {
        lemma_canvas_dim_zero_iff(size.width, dpi.raw);
        lemma_canvas_dim_zero_iff(size.height, dpi.raw);
    }
    match validate_canvas_size(width, height) {
        Ok(canvas) => Ok(ConversionPlan { dpi, canvas }),
        Err(e) => Err(e),
    }
}

/// At the baseline density the plan is the identity scale: each canvas axis
/// is exactly the intrinsic axis rounded up to a whole pixel.
pub proof fn lemma_baseline_plan(size: IntrinsicSize)
    requires
        size.wf(),
    ensures
        planned_canvas(size, BASELINE_DPI_RAW).width == (size.width + (FP4_ONE - 1)) / (
        FP4_ONE as int),
        planned_canvas(size, BASELINE_DPI_RAW).height == (size.height + (FP4_ONE - 1)) / (
        FP4_ONE as int),
{
    lemma_baseline_identity(size.width);
    lemma_baseline_identity(size.height);
}

/// Idempotence of the deciding core: two requests with the same query and
/// the same intrinsic size plan the same density, the same canvas, and the
/// same density descriptor bytes.
pub proof fn lemma_conversion_deterministic(
    q1: Option<Seq<char>>,
    q2: Option<Seq<char>>,
    s1: IntrinsicSize,
    s2: IntrinsicSize,
)
    requires
        q1 == q2,
        s1 == s2,
    ensures
        effective_dpi_raw(q1) == effective_dpi_raw(q2),
        planned_canvas(s1, effective_dpi_raw(q1)) == planned_canvas(s2, effective_dpi_raw(q2)),
        descriptor_bytes(ppm_field(effective_dpi_raw(q1))) == descriptor_bytes(
            ppm_field(effective_dpi_raw(q2)),
        ),
{
}

} // verus!
