use svg2png::density::{decode_descriptor, density_descriptor, pixels_per_meter};
use svg2png::resolution::{Dpi, BASELINE_DPI_RAW, MAX_DPI_RAW};

#[test]
fn pixels_per_meter_rounds_to_nearest() {
    // round(192 / 0.0254) = round(7559.055...) = 7559.
    assert_eq!(pixels_per_meter(Dpi { raw: 1_920_000 }), 7559);
    // round(96 / 0.0254) = round(3779.527...) = 3780.
    assert_eq!(pixels_per_meter(Dpi { raw: BASELINE_DPI_RAW }), 3780);
    // round(72 / 0.0254) = round(2834.645...) = 2835.
    assert_eq!(pixels_per_meter(Dpi { raw: 720_000 }), 2835);
}

#[test]
fn pixels_per_meter_half_rounds_up() {
    // raw 127 / 254 is exactly one half.
    assert_eq!(pixels_per_meter(Dpi { raw: 127 }), 1);
    assert_eq!(pixels_per_meter(Dpi { raw: 126 }), 0);
}

#[test]
fn pixels_per_meter_saturates() {
    assert_eq!(pixels_per_meter(Dpi { raw: MAX_DPI_RAW }), u32::MAX);
}

#[test]
fn descriptor_layout_is_big_endian_with_meter_unit() {
    let d = density_descriptor(7559);
    assert_eq!(d, vec![0, 0, 0x1D, 0x87, 0, 0, 0x1D, 0x87, 1]);
    let d2 = density_descriptor(0x0102_0304);
    assert_eq!(d2, vec![1, 2, 3, 4, 1, 2, 3, 4, 1]);
}

#[test]
fn descriptor_round_trip() {
    for ppm in [0u32, 1, 7559, 3780, 0xDEAD_BEEF, u32::MAX] {
        let d = density_descriptor(ppm);
        assert_eq!(decode_descriptor(&d), Some((ppm, ppm, 1)));
    }
}

#[test]
fn decode_rejects_wrong_length() {
    assert_eq!(decode_descriptor(&vec![0; 8]), None);
    assert_eq!(decode_descriptor(&vec![0; 10]), None);
    assert_eq!(decode_descriptor(&Vec::new()), None);
}
