//! Raster container writer: builds the single well-formed output stream —
//! header, then the physical-density descriptor, then pixel data — in the
//! order the container format requires.

use vstd::prelude::*;
use crate::density::{density_descriptor, descriptor_bytes, pixels_per_meter, ppm_field};
use crate::geometry::CanvasSize;
use crate::resolution::Dpi;

verus! {

/// A server-side fault while writing the output container, by the stage
/// that failed. The caller cannot correct these by changing the request.
#[derive(Clone, Copy, Debug, PartialEq, Eq, Structural)]
pub enum EncodingFailure {
    /// The container header could not be written.
    HeaderWrite,
    /// The physical-density chunk could not be written.
    DensityWrite,
    /// The pixel-data chunk could not be written.
    PixelDataWrite,
    /// The container could not be finalized.
    FinalizeWrite,
}

/// What the container encoder produces for a canvas of the given size, a
/// physical-density descriptor, and row-major RGBA pixel data: the complete
/// container byte stream. Deterministic in its arguments.
pub uninterp spec fn png_stream_of(
    width: u32,
    height: u32,
    density: Seq<u8>,
    pixels: Seq<u8>,
) -> Seq<u8>;

/// Relies on `png::Encoder::write_header`, `png::Writer::write_chunk`,
/// `png::Writer::write_image_data` and `png::Writer::finish`: writes the
/// container signature and header for an RGBA, 8-bit-per-channel image of
/// the given size, then the given bytes as the `pHYs` chunk, then the pixel
/// data, then the trailer; the produced bytes depend on the arguments alone.
///
/// The sink is an in-memory buffer, whose writes never fail, and RGBA at 8
/// bits is a valid combination, so the encoder's remaining error paths are
/// a zero dimension, a chunk over the 31-bit length limit, and a pixel
/// buffer that is not exactly four bytes per pixel; ruling those out rules
/// out failure. On success the chunk sequence after the signature is the
/// header chunk and then the `pHYs` chunk with exactly the given data, so
/// the first physical-density chunk of the stream carries `density`.
#[verifier::external_body]
fn write_container(width: u32, height: u32, density: &Vec<u8>, pixels: &Vec<u8>) -> (r: Result<
    Vec<u8>,
    EncodingFailure,
>)
    ensures
        r matches Ok(b) ==> b@ == png_stream_of(width, height, density@, pixels@),
        r matches Ok(b) ==> crate::chunks::density_chunk_of(b@) == Some(density@),
        width > 0 && height > 0 && density@.len() <= i32::MAX && pixels@.len() == 4 * width
            * height ==> r is Ok,
{
    let mut buffer: Vec<u8> = Vec::new();
    let mut encoder = png::Encoder::new(&mut buffer, width, height);
    encoder.set_color(png::ColorType::Rgba);
    encoder.set_depth(png::BitDepth::Eight);
    let mut writer = encoder.write_header().map_err(|_| EncodingFailure::HeaderWrite)?;
    writer.write_chunk(png::chunk::pHYs, density).map_err(|_| EncodingFailure::DensityWrite)?;
    writer.write_image_data(pixels).map_err(|_| EncodingFailure::PixelDataWrite)?;
    writer.finish().map_err(|_| EncodingFailure::FinalizeWrite)?;
    Ok(buffer)
}

/// Encodes the finished canvas into the output container. The header is
/// written first, the density descriptor for the effective density before
/// the pixel data, as the container format requires; the pixel data is
/// row-major RGBA at 8 bits per channel, so its length is four bytes per
/// pixel of the validated canvas. On these inputs encoding is owed to
/// succeed, and the produced stream's first physical-density chunk carries
/// exactly the descriptor of the effective density.
pub fn encode_output(canvas: &CanvasSize, dpi: Dpi, pixels: &Vec<u8>) -> (r: Result<
    Vec<u8>,
    EncodingFailure,
>)
    requires
        canvas.wf(),
        dpi.wf(),
        pixels@.len() == 4 * canvas.width * canvas.height,
    ensures
        r is Ok,
        r matches Ok(b) ==> b@ == png_stream_of(
            canvas.width,
            canvas.height,
            descriptor_bytes(ppm_field(dpi.raw)),
            pixels@,
        ),
        r matches Ok(b) ==> crate::chunks::density_chunk_of(b@) == Some(
            descriptor_bytes(ppm_field(dpi.raw)),
        ),
{
    let ppm = pixels_per_meter(dpi);
    let descriptor = density_descriptor(ppm);
    write_container(canvas.width, canvas.height, &descriptor, pixels)
}

} // verus!
