use svg2png::geometry::{
    compute_canvas_dim, scale_factor, validate_canvas_size, IntrinsicSize, InvalidGeometry,
    CANVAS_SCALE_DEN, MAX_SIZE_RAW,
};
use svg2png::pipeline::plan_conversion;
use svg2png::resolution::{Dpi, BASELINE_DPI_RAW, MAX_DPI_RAW};

#[test]
fn baseline_scale_is_identity() {
    // At 96 DPI the canvas is the ceiling of the intrinsic size.
    assert_eq!(compute_canvas_dim(100_000, BASELINE_DPI_RAW), 10);
    assert_eq!(compute_canvas_dim(105_000, BASELINE_DPI_RAW), 11);
    assert_eq!(compute_canvas_dim(100_001, BASELINE_DPI_RAW), 11);
    assert_eq!(compute_canvas_dim(10_000, BASELINE_DPI_RAW), 1);
}

#[test]
fn doubled_density_doubles_the_canvas() {
    assert_eq!(compute_canvas_dim(100_000, 1_920_000), 20);
    assert_eq!(compute_canvas_dim(55_000, 1_920_000), 11);
}

#[test]
fn fractional_scale_rounds_up() {
    // 10 units at 144 DPI: exactly 15 pixels; at 150 DPI: 15.625, so 16.
    assert_eq!(compute_canvas_dim(100_000, 1_440_000), 15);
    assert_eq!(compute_canvas_dim(100_000, 1_500_000), 16);
}

#[test]
fn tiny_positive_size_still_gets_a_pixel() {
    assert_eq!(compute_canvas_dim(1, 10_000), 1);
    assert_eq!(compute_canvas_dim(1, BASELINE_DPI_RAW), 1);
}

#[test]
fn zero_size_scales_to_zero() {
    assert_eq!(compute_canvas_dim(0, BASELINE_DPI_RAW), 0);
    assert_eq!(compute_canvas_dim(0, MAX_DPI_RAW), 0);
}

#[test]
fn extreme_inputs_saturate() {
    assert_eq!(compute_canvas_dim(MAX_SIZE_RAW, MAX_DPI_RAW), u32::MAX);
}

#[test]
fn validator_accepts_positive_canvases() {
    let c = validate_canvas_size(20, 20).unwrap();
    assert_eq!((c.width, c.height), (20, 20));
}

#[test]
fn validator_rejects_degenerate_canvases() {
    assert_eq!(validate_canvas_size(0, 20), Err(InvalidGeometry));
    assert_eq!(validate_canvas_size(20, 0), Err(InvalidGeometry));
    assert_eq!(validate_canvas_size(0, 0), Err(InvalidGeometry));
}

#[test]
fn scale_factor_is_exactly_dpi_over_96() {
    let (num, den) = scale_factor(Dpi { raw: 1_920_000 });
    assert_eq!(num, 1_920_000);
    assert_eq!(den, BASELINE_DPI_RAW);
    // The ratio is exactly 2: 192 / 96.
    assert_eq!(num, 2 * den);
    let (n96, d96) = scale_factor(Dpi::baseline());
    assert_eq!(n96, d96);
}

#[test]
fn scale_denominator_constant_is_coherent() {
    // size and density each carry four decimal places; the baseline is 96.
    assert_eq!(CANVAS_SCALE_DEN, 96 * 10_000 * 10_000);
}

#[test]
fn plan_end_to_end_at_192_dpi() {
    // A 10 x 10 document at 192 DPI plans a 20 x 20 canvas.
    let size = IntrinsicSize { width: 100_000, height: 100_000 };
    let plan = plan_conversion(Some("dpi=192"), &size).unwrap();
    assert_eq!(plan.dpi.raw, 1_920_000);
    assert_eq!((plan.canvas.width, plan.canvas.height), (20, 20));
}

#[test]
fn plan_falls_back_to_baseline() {
    let size = IntrinsicSize { width: 100_000, height: 55_000 };
    let plan = plan_conversion(None, &size).unwrap();
    assert_eq!(plan.dpi.raw, BASELINE_DPI_RAW);
    assert_eq!((plan.canvas.width, plan.canvas.height), (10, 6));
    let plan2 = plan_conversion(Some("dpi=abc"), &size).unwrap();
    assert_eq!(plan2.dpi.raw, BASELINE_DPI_RAW);
}

#[test]
fn plan_rejects_zero_area_documents() {
    let flat = IntrinsicSize { width: 0, height: 100_000 };
    assert_eq!(plan_conversion(Some("dpi=192"), &flat), Err(InvalidGeometry));
    let thin = IntrinsicSize { width: 100_000, height: 0 };
    assert_eq!(plan_conversion(None, &thin), Err(InvalidGeometry));
}

#[test]
fn plan_is_deterministic() {
    let size = IntrinsicSize { width: 123_456, height: 654_321 };
    let a = plan_conversion(Some("dpi=300.25"), &size).unwrap();
    let b = plan_conversion(Some("dpi=300.25"), &size).unwrap();
    assert_eq!(a, b);
}
