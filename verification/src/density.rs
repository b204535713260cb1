//! Density chunk encoder: turns an effective density into the fixed 9-byte
//! physical-resolution descriptor of the raster container, and reads such a
//! descriptor back.

use vstd::prelude::*;
use crate::resolution::Dpi;

verus! {

/// Pixels per meter denoted by a fixed-point density, rounded to nearest
/// with halves up: one inch is exactly 0.0254 meter, and the density
/// carries four fractional digits, so this is `round(raw / 254)`.
pub open spec fn ppm_exact(dpi_raw: u64) -> int {
    (dpi_raw + 127) / 254
}

/// The pixels-per-meter field: the exact value, saturated at the 32-bit
/// width of the descriptor field.
pub open spec fn ppm_field(dpi_raw: u64) -> u32 {
    if ppm_exact(dpi_raw) > u32::MAX {
        u32::MAX
    } else {
        ppm_exact(dpi_raw) as u32
    }
}

/// Computes the pixels-per-meter field for an effective density.
pub fn pixels_per_meter(dpi: Dpi) -> (r: u32)
    requires
        dpi.wf(),
    ensures
        r == ppm_field(dpi.raw),
{
    let q = (dpi.raw + 127) / 254;
    if q > u32::MAX as u64 {
        u32::MAX
    } else {
        q as u32
    }
}

/// `ppm_exact` rounds to the nearest integer: the chosen pixels-per-meter
/// value, in density units, differs from the exact density by at most half
/// of one pixel-per-meter, with exact halves rounded up.
pub proof fn lemma_ppm_is_nearest(dpi_raw: u64)
    ensures
        -127 <= 254 * ppm_exact(dpi_raw) - dpi_raw <= 127,
{
    let num = dpi_raw + 127;
    vstd::arithmetic::div_mod::lemma_fundamental_div_mod(num, 254);
    vstd::arithmetic::div_mod::lemma_mod_division_less_than_divisor(num, 254);
    assert(num == 254 * (num / 254) + num % 254);
}

/// The four big-endian bytes of a 32-bit value.
pub open spec fn be32_bytes(x: u32) -> Seq<u8> {
    seq![
        (x >> 24) as u8,
        ((x >> 16) & 0xff) as u8,
        ((x >> 8) & 0xff) as u8,
        (x & 0xff) as u8,
    ]
}

/// The 32-bit value four big-endian bytes denote.
pub open spec fn be32_value(b0: u8, b1: u8, b2: u8, b3: u8) -> u32 {
    ((b0 as u32) << 24) | ((b1 as u32) << 16) | ((b2 as u32) << 8) | (b3 as u32)
}

/// The 9-byte physical-resolution descriptor: pixels per meter on the X
/// axis, then on the Y axis — identical, since scaling is uniform — each
/// big-endian, then the unit specifier 1, meaning meters.
pub open spec fn descriptor_bytes(ppm: u32) -> Seq<u8> {
    be32_bytes(ppm) + be32_bytes(ppm) + seq![1u8]
}

/// Builds the 9-byte physical-resolution descriptor.
pub fn density_descriptor(ppm: u32) -> (r: Vec<u8>)
    ensures
        r@ == descriptor_bytes(ppm),
        r@.len() == 9,
{
    proof {
        assert((ppm >> 24) < 256 && ((ppm >> 16) & 0xff) < 256 && ((ppm >> 8) & 0xff) < 256 && (
        ppm & 0xff) < 256) by (bit_vector);
    }
    let mut d: Vec<u8> = Vec::new();
    d.push((ppm >> 24) as u8);
    d.push(((ppm >> 16) & 0xff) as u8);
    d.push(((ppm >> 8) & 0xff) as u8);
    d.push((ppm & 0xff) as u8);
    d.push((ppm >> 24) as u8);
    d.push(((ppm >> 16) & 0xff) as u8);
    d.push(((ppm >> 8) & 0xff) as u8);
    d.push((ppm & 0xff) as u8);
    d.push(1);
    proof {
        assert(d@ =~= descriptor_bytes(ppm));
    }
    d
}

/// Reads a 9-byte descriptor back: pixels per meter on each axis and the
/// unit byte. `None` exactly when the length is not 9.
pub fn decode_descriptor(d: &Vec<u8>) -> (r: Option<(u32, u32, u8)>)
    ensures
        match r {
            Some(t) => d@.len() == 9 && t.0 == be32_value(d@[0], d@[1], d@[2], d@[3]) && t.1
                == be32_value(d@[4], d@[5], d@[6], d@[7]) && t.2 == d@[8],
            None => d@.len() != 9,
        },
{
    if d.len() != 9 {
        return None;
    }
    let x = ((d[0] as u32) << 24) | ((d[1] as u32) << 16) | ((d[2] as u32) << 8) | (d[3] as u32);
    let y = ((d[4] as u32) << 24) | ((d[5] as u32) << 16) | ((d[6] as u32) << 8) | (d[7] as u32);
    Some((x, y, d[8]))
}

/// Descriptor round trip: decoding the descriptor built for a
/// pixels-per-meter value yields that value on both axes and the meter unit
/// specifier.
pub proof fn lemma_descriptor_round_trip(ppm: u32)
    ensures
        descriptor_bytes(ppm).len() == 9,
        be32_value(
            descriptor_bytes(ppm)[0],
            descriptor_bytes(ppm)[1],
            descriptor_bytes(ppm)[2],
            descriptor_bytes(ppm)[3],
        ) == ppm,
        be32_value(
            descriptor_bytes(ppm)[4],
            descriptor_bytes(ppm)[5],
            descriptor_bytes(ppm)[6],
            descriptor_bytes(ppm)[7],
        ) == ppm,
        descriptor_bytes(ppm)[8] == 1,
{
    assert(((((ppm >> 24) as u8) as u32) << 24) | (((((ppm >> 16) & 0xff) as u8) as u32) << 16) | (
    ((((ppm >> 8) & 0xff) as u8) as u32) << 8) | (((ppm & 0xff) as u8) as u32) == ppm)
        by (bit_vector);
}

} // verus!
